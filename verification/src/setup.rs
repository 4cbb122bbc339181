//! The order of events when a project is set up and when a pipeline is added.
//!
//! Each is a value that says what it waits for; what became of that takes it to the next one.

use vstd::prelude::*;
use crate::command::{CommandLine, CommandView};
use crate::failure::{Failure, FailureView, plain_failure};
use crate::paths::{FilePath, PathView, joined};
use crate::scaffold::{
    Template, already_set_up, awkward, cache_command, check_init, check_new, check_pipeline_file,
    clean_name, dashed, editor_program, has_drive, has_extension, install_extension_command, law_clean_names,
    list_extensions_command, new_pipeline_file, not_set_up, pipeline_exists, starts_with_drive, template_at,
    vscode_program,
};
use crate::style::bold_text;
use crate::text::{concat2, concat3, has_text, opt_text};

verus! {

/// What became of the thing that was waited for.
pub enum SetupEvent {
    /// Yes or no.
    Answer(bool),
    /// There is no such file.
    Free,
    /// The file is there; this is how its path is shown.
    Taken(String),
    /// What the user typed.
    Text(String),
    /// The place in a list that the user chose.
    Place(usize),
    /// The directory that was looked for.
    Found(FilePath),
    /// A program ended, and this is what it wrote.
    Output(String),
    /// It was done.
    Good,
    /// It was not done, for the reason given.
    Refused(String),
}

/// What became of the thing that was waited for, with its texts.
pub enum SetupEventView {
    Answer(bool),
    Free,
    Taken(Seq<char>),
    Text(Seq<char>),
    Place(int),
    Found(PathView),
    Output(Seq<char>),
    Good,
    Refused(Seq<char>),
}

impl View for SetupEvent {
    type V = SetupEventView;

    open spec fn view(&self) -> SetupEventView {
        match self {
            SetupEvent::Answer(yes) => SetupEventView::Answer(*yes),
            SetupEvent::Free => SetupEventView::Free,
            SetupEvent::Taken(s) => SetupEventView::Taken(s@),
            SetupEvent::Text(s) => SetupEventView::Text(s@),
            SetupEvent::Place(i) => SetupEventView::Place(*i as int),
            SetupEvent::Found(p) => SetupEventView::Found(p@),
            SetupEvent::Output(s) => SetupEventView::Output(s@),
            SetupEvent::Good => SetupEventView::Good,
            SetupEvent::Refused(s) => SetupEventView::Refused(s@),
        }
    }
}

/// What the setup of a project goes by.
pub struct InitOptions {
    /// The name that the user gave for the first pipeline.
    pub given: Option<String>,
    /// Whether the system is Windows.
    pub windows: bool,
    /// The version that the terminal gives for itself.
    pub terminal: Option<String>,
}

/// The texts of what a setup goes by.
pub struct OptionsView {
    pub given: Option<Seq<char>>,
    pub windows: bool,
    pub terminal: Option<Seq<char>>,
}

impl View for InitOptions {
    type V = OptionsView;

    open spec fn view(&self) -> OptionsView {
        OptionsView {
            given: opt_text(self.given),
            windows: self.windows,
            terminal: opt_text(self.terminal),
        }
    }
}

/// The setup of a project. From the fourth state on it holds the cleaned name of the first pipeline.
pub enum InitState {
    /// Is there a `.katoa` in the current directory?
    DirExists,
    /// `.katoa` is to be created.
    CreateDir,
    /// The user is to name the first pipeline.
    AskName,
    /// Is there a file for the pipeline?
    FileExists(String),
    /// The user is to choose a template.
    AskTemplate(String),
    /// The pipeline's file is to be written.
    Write { name: String, template: Template },
    /// Is the editor to be set up?
    AskEditor(String),
    /// The extensions of the editor are to be listed.
    ListExtensions(String),
    /// The extension for deno is to be added to the editor.
    Install(String),
    /// Does the editor have a settings file?
    SettingsExist(String),
    /// The directory for the settings file is to be created.
    SettingsDir(String),
    /// The settings file is to be written.
    WriteSettings(String),
    /// What the pipeline imports is to be fetched.
    Cache(String),
    /// The project is set up.
    Done(String),
    /// It is not.
    Failed(Failure),
}

/// A state of the setup, with its texts.
pub enum InitView {
    DirExists,
    CreateDir,
    AskName,
    FileExists(Seq<char>),
    AskTemplate(Seq<char>),
    Write { name: Seq<char>, template: Template },
    AskEditor(Seq<char>),
    ListExtensions(Seq<char>),
    Install(Seq<char>),
    SettingsExist(Seq<char>),
    SettingsDir(Seq<char>),
    WriteSettings(Seq<char>),
    Cache(Seq<char>),
    Done(Seq<char>),
    Failed(FailureView),
}

impl View for InitState {
    type V = InitView;

    open spec fn view(&self) -> InitView {
        match self {
            InitState::DirExists => InitView::DirExists,
            InitState::CreateDir => InitView::CreateDir,
            InitState::AskName => InitView::AskName,
            InitState::FileExists(n) => InitView::FileExists(n@),
            InitState::AskTemplate(n) => InitView::AskTemplate(n@),
            InitState::Write { name, template } => InitView::Write {
                name: name@,
                template: *template,
            },
            InitState::AskEditor(n) => InitView::AskEditor(n@),
            InitState::ListExtensions(n) => InitView::ListExtensions(n@),
            InitState::Install(n) => InitView::Install(n@),
            InitState::SettingsExist(n) => InitView::SettingsExist(n@),
            InitState::SettingsDir(n) => InitView::SettingsDir(n@),
            InitState::WriteSettings(n) => InitView::WriteSettings(n@),
            InitState::Cache(n) => InitView::Cache(n@),
            InitState::Done(n) => InitView::Done(n@),
            InitState::Failed(e) => InitView::Failed(e@),
        }
    }
}

/// The event is one that the state waits for.
pub open spec fn init_answers(state: InitView, event: SetupEventView) -> bool {
    match state {
        InitView::DirExists | InitView::FileExists(_) | InitView::SettingsExist(_) => event is Answer,
        InitView::AskName => event is Text || event is Refused,
        InitView::AskTemplate(_) => event is Refused || (event matches SetupEventView::Place(i) && 0
            <= i < 3),
        InitView::AskEditor(_) => event is Answer || event is Refused,
        InitView::ListExtensions(_) => event is Output || event is Refused,
        InitView::Done(_) | InitView::Failed(_) => false,
        _ => event is Good || event is Refused,
    }
}

/// How the path of a first pipeline's file is written on the system.
pub open spec fn shown_file(windows: bool, name: Seq<char>) -> Seq<char> {
    if windows && has_drive(name) {
        name + ".ts"@
    } else if windows {
        ".katoa\\"@ + name + ".ts"@
    } else {
        ".katoa/"@ + name + ".ts"@
    }
}

/// Where an event takes the setup of a project.
pub open spec fn init_step(
    options: OptionsView,
    state: InitView,
    event: SetupEventView,
) -> InitView {
    match (state, event) {
        (InitView::DirExists, SetupEventView::Answer(there)) => if there {
            InitView::Failed(plain_failure(already_set_up()))
        } else {
            InitView::CreateDir
        },
        (InitView::CreateDir, SetupEventView::Good) => match options.given {
            Some(given) => InitView::FileExists(dashed(given)),
            None => InitView::AskName,
        },
        (InitView::AskName, SetupEventView::Text(typed)) => InitView::FileExists(dashed(typed)),
        (InitView::FileExists(name), SetupEventView::Answer(there)) => if there {
            InitView::Failed(plain_failure(pipeline_exists(shown_file(options.windows, name))))
        } else {
            InitView::AskTemplate(name)
        },
        (InitView::AskTemplate(name), SetupEventView::Place(i)) => InitView::Write {
            name,
            template: template_at(i),
        },
        (InitView::Write { name, template }, SetupEventView::Good) => if options.windows {
            InitView::Cache(name)
        } else {
            InitView::AskEditor(name)
        },
        (InitView::AskEditor(name), SetupEventView::Answer(wanted)) => if wanted {
            InitView::ListExtensions(name)
        } else {
            InitView::Cache(name)
        },
        (InitView::ListExtensions(name), SetupEventView::Output(listing)) => if has_text(
            listing,
            "denoland.vscode-deno"@,
        ) {
            InitView::SettingsExist(name)
        } else {
            InitView::Install(name)
        },
        (InitView::ListExtensions(name), SetupEventView::Refused(_)) => InitView::SettingsExist(
            name,
        ),
        (InitView::Install(name), SetupEventView::Good)
        | (InitView::Install(name), SetupEventView::Refused(_)) => InitView::SettingsExist(name),
        (InitView::SettingsExist(name), SetupEventView::Answer(there)) => if there {
            InitView::Cache(name)
        } else {
            InitView::SettingsDir(name)
        },
        (InitView::SettingsDir(name), SetupEventView::Good) => InitView::WriteSettings(name),
        (InitView::WriteSettings(name), SetupEventView::Good) => InitView::Cache(name),
        (InitView::Cache(name), SetupEventView::Good)
        | (InitView::Cache(name), SetupEventView::Refused(_)) => InitView::Done(name),
        (InitView::Done(_), _) | (InitView::Failed(_), _) => state,
        (_, SetupEventView::Refused(reason)) => InitView::Failed(plain_failure(reason)),
        _ => state,
    }
}

/// How the path of a first pipeline's file is written on the system.
pub fn first_file_text(windows: bool, name: &str) -> (s: String)
    ensures
        s@ == shown_file(windows, name@),
{
    if windows && starts_with_drive(name) {
        concat2(name, ".ts")
    } else if windows {
        concat3(".katoa\\", name, ".ts")
    } else {
        concat3(".katoa/", name, ".ts")
    }
}

/// One step of the setup of a project, which starts at `DirExists`.
pub fn init(options: &InitOptions, state: InitState, event: SetupEvent) -> (next: InitState)
    requires
        init_answers(state@, event@),
    ensures
        next@ == init_step(options@, state@, event@),
        next matches InitState::Write { name, template } ==> (state matches InitState::AskTemplate(
            asked,
        ) && asked@ == name@ && (event matches SetupEvent::Place(i) && (i == 0 <==> template
            == Template::Default) && (i == 1 <==> template == Template::Node) && (i == 2
            <==> template == Template::Rust))),
        state is DirExists && event == SetupEvent::Answer(true) ==> next is Failed,
        next is CreateDir ==> state is DirExists && event == SetupEvent::Answer(false),
{
    match (state, event) {
        (InitState::DirExists, SetupEvent::Answer(there)) => {
            match check_init(there) {
                Ok(()) => InitState::CreateDir,
                Err(error) => InitState::Failed(Failure::plain(error.message())),
            }
        },
        (InitState::CreateDir, SetupEvent::Good) => {
            match &options.given {
                Some(given) => InitState::FileExists(clean_name(given.as_str())),
                None => InitState::AskName,
            }
        },
        (InitState::AskName, SetupEvent::Text(typed)) => InitState::FileExists(
            clean_name(typed.as_str()),
        ),
        (InitState::FileExists(name), SetupEvent::Answer(there)) => {
            let shown = first_file_text(options.windows, name.as_str());
            match check_pipeline_file(shown.as_str(), there) {
                Ok(()) => InitState::AskTemplate(name),
                Err(error) => InitState::Failed(Failure::plain(error.message())),
            }
        },
        (InitState::AskTemplate(name), SetupEvent::Place(i)) => InitState::Write {
            name,
            template: Template::at(i),
        },
        (InitState::Write { name, template: _ }, SetupEvent::Good) => {
            if options.windows {
                InitState::Cache(name)
            } else {
                InitState::AskEditor(name)
            }
        },
        (InitState::AskEditor(name), SetupEvent::Answer(wanted)) => {
            if wanted {
                InitState::ListExtensions(name)
            } else {
                InitState::Cache(name)
            }
        },
        (InitState::ListExtensions(name), SetupEvent::Output(listing)) => {
            if has_extension(listing.as_str()) {
                InitState::SettingsExist(name)
            } else {
                InitState::Install(name)
            }
        },
        (InitState::ListExtensions(name), SetupEvent::Refused(_)) => InitState::SettingsExist(name),
        (InitState::Install(name), _) => InitState::SettingsExist(name),
        (InitState::SettingsExist(name), SetupEvent::Answer(there)) => {
            if there {
                InitState::Cache(name)
            } else {
                InitState::SettingsDir(name)
            }
        },
        (InitState::SettingsDir(name), SetupEvent::Good) => InitState::WriteSettings(name),
        (InitState::WriteSettings(name), SetupEvent::Good) => InitState::Cache(name),
        (InitState::Cache(name), _) => InitState::Done(name),
        (_, SetupEvent::Refused(reason)) => InitState::Failed(Failure::plain(reason)),
        (state, _) => state,
    }
}

/// The command that a state of the setup asks for, where it asks for one.
pub open spec fn init_command_view(options: OptionsView, state: InitView) -> Option<CommandView> {
    match state {
        InitView::ListExtensions(_) => Some(
            CommandView {
                program: editor_program(options.terminal),
                args: seq!["--list-extensions"@],
                dir: None,
            },
        ),
        InitView::Install(_) => Some(
            CommandView {
                program: editor_program(options.terminal),
                args: seq!["--install-extension"@, "denoland.vscode-deno"@],
                dir: None,
            },
        ),
        InitView::Cache(name) => Some(
            CommandView {
                program: "deno"@,
                args: seq!["cache"@, "-q"@, shown_file(options.windows, name)],
                dir: None,
            },
        ),
        _ => None,
    }
}

/// The program of the user's editor.
fn editor_of(options: &InitOptions) -> (program: &'static str)
    ensures
        program@ == editor_program(options@.terminal),
{
    match &options.terminal {
        Some(version) => vscode_program(Some(version.as_str())),
        None => vscode_program(None),
    }
}

/// The command that a state of the setup asks for.
pub fn init_command(options: &InitOptions, state: &InitState) -> (line: Option<CommandLine>)
    ensures
        match init_command_view(options@, state@) {
            Some(view) => line matches Some(l) && l@ == view,
            None => line is None,
        },
{
    match state {
        InitState::ListExtensions(_) => Some(list_extensions_command(editor_of(options))),
        InitState::Install(_) => Some(install_extension_command(editor_of(options))),
        InitState::Cache(name) => Some(
            cache_command(first_file_text(options.windows, name.as_str()).as_str()),
        ),
        _ => None,
    }
}

/// What the user is told of an event on the way, where there is anything to tell.
pub open spec fn init_notice_text(state: InitView, event: SetupEventView) -> Option<Seq<char>> {
    match (state, event) {
        (InitView::ListExtensions(_), SetupEventView::Output(listing)) => if has_text(
            listing,
            "denoland.vscode-deno"@,
        ) {
            None
        } else {
            Some("Installing Deno extension for VSCode"@)
        },
        (InitView::ListExtensions(_), SetupEventView::Refused(reason)) => Some(
            "Failed to check if Deno extension is installed: "@ + reason,
        ),
        (InitView::Install(_), SetupEventView::Refused(reason)) => Some(
            "Failed to install Deno extension: "@ + reason,
        ),
        (InitView::SettingsExist(_), SetupEventView::Answer(there)) => if there {
            Some(
                "Add the following to your VSCode settings file: \"deno.enablePaths\": [\".katoa\"]"@,
            )
        } else {
            Some("Creating VSCode settings file"@)
        },
        _ => None,
    }
}

/// What the user is told of an event on the way.
pub fn init_notice(state: &InitState, event: &SetupEvent) -> (s: Option<String>)
    ensures
        opt_text(s) == init_notice_text(state@, event@),
{
    match (state, event) {
        (InitState::ListExtensions(_), SetupEvent::Output(listing)) => {
            if has_extension(listing.as_str()) {
                None
            } else {
                Some("Installing Deno extension for VSCode".to_owned())
            }
        },
        (InitState::ListExtensions(_), SetupEvent::Refused(reason)) => Some(
            concat2("Failed to check if Deno extension is installed: ", reason.as_str()),
        ),
        (InitState::Install(_), SetupEvent::Refused(reason)) => Some(
            concat2("Failed to install Deno extension: ", reason.as_str()),
        ),
        (InitState::SettingsExist(_), SetupEvent::Answer(there)) => {
            if *there {
                Some(
                    "Add the following to your VSCode settings file: \"deno.enablePaths\": [\".katoa\"]".to_owned(),
                )
            } else {
                Some("Creating VSCode settings file".to_owned())
            }
        },
        _ => None,
    }
}

/// The state that these events lead to, one after the other.
pub open spec fn init_after(options: OptionsView, events: Seq<SetupEventView>) -> InitView
    decreases events.len(),
{
    if events.len() == 0 {
        InitView::DirExists
    } else {
        init_step(options, init_after(options, events.drop_last()), events.last())
    }
}

/// Where `.katoa` exists the setup fails and says so, whatever would come after: nothing is created,
/// and nobody is asked.
pub proof fn law_project_is_left_alone(options: OptionsView, events: Seq<SetupEventView>)
    requires
        events.len() > 0,
        events[0] == SetupEventView::Answer(true),
    ensures
        init_after(options, events) == InitView::Failed(plain_failure(already_set_up())),
    decreases events.len(),
{
    reveal_with_fuel(init_after, 2);
    if events.len() > 1 {
        law_project_is_left_alone(options, events.drop_last());
    }
}

/// No pipeline is overwritten: its file is written only right after a template was chosen, and that
/// is asked only right after it was found that there is no such file.
pub proof fn law_only_new_files(options: OptionsView, state: InitView, event: SetupEventView)
    requires
        init_answers(state, event),
    ensures
        init_step(options, state, event) matches InitView::Write { name, template } ==> (state
            == InitView::AskTemplate(name) && event is Place),
        init_step(options, state, event) matches InitView::AskTemplate(name) ==> (state
            == InitView::FileExists(name) && event == SetupEventView::Answer(false)),
        init_step(options, state, event) is WriteSettings ==> state is SettingsDir,
        init_step(options, state, event) is SettingsDir ==> state is SettingsExist && event
            == SetupEventView::Answer(false),
{
}

/// How many events a setup may still wait for.
pub open spec fn init_left(state: InitView) -> nat {
    match state {
        InitView::DirExists => 13,
        InitView::CreateDir => 12,
        InitView::AskName => 11,
        InitView::FileExists(_) => 10,
        InitView::AskTemplate(_) => 9,
        InitView::Write { .. } => 8,
        InitView::AskEditor(_) => 7,
        InitView::ListExtensions(_) => 6,
        InitView::Install(_) => 5,
        InitView::SettingsExist(_) => 4,
        InitView::SettingsDir(_) => 3,
        InitView::WriteSettings(_) => 2,
        InitView::Cache(_) => 1,
        InitView::Done(_) | InitView::Failed(_) => 0,
    }
}

/// A setup ends: every event that is waited for leaves fewer to wait for.
pub proof fn law_init_ends(options: OptionsView, state: InitView, event: SetupEventView)
    requires
        init_answers(state, event),
    ensures
        init_left(init_step(options, state, event)) < init_left(state),
{
}

/// The name that a state of the setup holds.
pub open spec fn name_in(state: InitView) -> Option<Seq<char>> {
    match state {
        InitView::FileExists(name)
        | InitView::AskTemplate(name)
        | InitView::AskEditor(name)
        | InitView::ListExtensions(name)
        | InitView::Install(name)
        | InitView::SettingsExist(name)
        | InitView::SettingsDir(name)
        | InitView::WriteSettings(name)
        | InitView::Cache(name)
        | InitView::Done(name) => Some(name),
        InitView::Write { name, template } => Some(name),
        _ => None,
    }
}

/// The name of the first pipeline never has an awkward character.
pub proof fn law_init_name_is_clean(options: OptionsView, events: Seq<SetupEventView>)
    ensures
        name_in(init_after(options, events)) matches Some(name) ==> forall|i: int|
            0 <= i < name.len() ==> !awkward(#[trigger] name[i]),
    decreases events.len(),
{
    if events.len() > 0 {
        law_init_name_is_clean(options, events.drop_last());
        let before = init_after(options, events.drop_last());
        match (before, events.last()) {
            (InitView::CreateDir, SetupEventView::Good) => {
                if options.given is Some {
                    law_clean_names(options.given->0);
                }
            },
            (InitView::AskName, SetupEventView::Text(typed)) => {
                law_clean_names(typed);
            },
            _ => {},
        }
    }
}

/// Once the pipeline's file is written, trouble with the editor's extensions or with fetching imports
/// does not undo the setup.
pub proof fn law_extras_do_no_harm(options: OptionsView, state: InitView, event: SetupEventView)
    requires
        init_answers(state, event),
        state is ListExtensions || state is Install || state is Cache,
    ensures
        !(init_step(options, state, event) is Failed),
        name_in(init_step(options, state, event)) == name_in(state),
{
}

/// The addition of a pipeline to a project.
pub enum NewState {
    /// The `.katoa` directory is to be found.
    FindDir,
    /// Is there a file for the pipeline?
    FileExists(FilePath),
    /// The pipeline's file is to be written.
    Write { path: FilePath, template: Template },
    /// The pipeline is added.
    Done(FilePath),
    /// It is not.
    Failed(Failure),
}

/// A state of the addition, with its paths and texts.
pub enum NewView {
    FindDir,
    FileExists(PathView),
    Write { path: PathView, template: Template },
    Done(PathView),
    Failed(FailureView),
}

impl View for NewState {
    type V = NewView;

    open spec fn view(&self) -> NewView {
        match self {
            NewState::FindDir => NewView::FindDir,
            NewState::FileExists(p) => NewView::FileExists(p@),
            NewState::Write { path, template } => NewView::Write { path: path@, template: *template },
            NewState::Done(p) => NewView::Done(p@),
            NewState::Failed(e) => NewView::Failed(e@),
        }
    }
}

/// The event is one that the state waits for.
pub open spec fn new_answers(state: NewView, event: SetupEventView) -> bool {
    match state {
        NewView::FindDir => event is Found || event is Refused,
        NewView::FileExists(_) => event is Free || event is Taken,
        NewView::Write { .. } => event is Good || event is Refused,
        NewView::Done(_) | NewView::Failed(_) => false,
    }
}

/// Where an event takes the addition of a pipeline. `file` is the path that the file's name stands
/// for.
pub open spec fn new_step(file: PathView, state: NewView, event: SetupEventView) -> NewView {
    match (state, event) {
        (NewView::FindDir, SetupEventView::Found(dir)) => NewView::FileExists(joined(dir, file)),
        (NewView::FindDir, SetupEventView::Refused(_)) => NewView::Failed(
            plain_failure(not_set_up()),
        ),
        (NewView::FileExists(path), SetupEventView::Taken(shown)) => NewView::Failed(
            plain_failure(pipeline_exists(shown)),
        ),
        (NewView::FileExists(path), SetupEventView::Free) => NewView::Write {
            path,
            template: template_at(0),
        },
        (NewView::Write { path, template }, SetupEventView::Good) => NewView::Done(path),
        (NewView::Write { path, template }, SetupEventView::Refused(reason)) => NewView::Failed(
            plain_failure(reason),
        ),
        _ => state,
    }
}

/// One step of the addition of a pipeline, which starts at `FindDir`. `file` is the path that the
/// file's name stands for.
pub fn add_pipeline(file: &FilePath, state: NewState, event: SetupEvent) -> (next: NewState)
    requires
        new_answers(state@, event@),
    ensures
        next@ == new_step(file@, state@, event@),
        next matches NewState::Write { path, template } ==> template == Template::Default
            && state is FileExists && event is Free,
{
    match (state, event) {
        (NewState::FindDir, event) => {
            let found = match event {
                SetupEvent::Found(dir) => Some(dir),
                _ => None,
            };
            match check_new(found) {
                Ok(dir) => NewState::FileExists(new_pipeline_file(&dir, file)),
                Err(error) => NewState::Failed(Failure::plain(error.message())),
            }
        },
        (NewState::FileExists(path), event) => {
            let (shown, there) = match event {
                SetupEvent::Taken(shown) => (shown, true),
                _ => (String::new(), false),
            };
            match check_pipeline_file(shown.as_str(), there) {
                Ok(()) => NewState::Write { path, template: Template::at(0) },
                Err(error) => NewState::Failed(Failure::plain(error.message())),
            }
        },
        (NewState::Write { path, template: _ }, SetupEvent::Good) => NewState::Done(path),
        (NewState::Write { .. }, SetupEvent::Refused(reason)) => NewState::Failed(
            Failure::plain(reason),
        ),
        (state, _) => state,
    }
}

/// A pipeline is added only where there is a project and no such file, at the path that the name
/// stands for in the project's directory, and always from the first template; it is there once it
/// was written.
pub proof fn law_new_writes_first_template(
    file: PathView,
    state: NewView,
    event: SetupEventView,
)
    requires
        new_answers(state, event),
    ensures
        new_step(file, state, event) matches NewView::Write { path, template } ==> (state
            == NewView::FileExists(path) && event is Free && template == Template::Default),
        new_step(file, state, event) matches NewView::FileExists(path) ==> (event matches
            SetupEventView::Found(dir) && path == joined(dir, file)),
        new_step(file, state, event) is Done ==> state is Write && event is Good,
{
}

/// The setup writes the template that was chosen: it comes to write only on the choice of a place of
/// the list, and then writes what is offered there, `Default` first, then `Node`, then `Rust`, under
/// the name that it had.
pub proof fn law_chosen_template_is_written(
    options: OptionsView,
    state: InitView,
    event: SetupEventView,
    name: Seq<char>,
    i: int,
)
    requires
        init_answers(state, event),
        0 <= i < 3,
    ensures
        init_step(options, state, event) matches InitView::Write { name: written, template } ==> (
        state == InitView::AskTemplate(written) && (event matches SetupEventView::Place(place) && (
        place == 0 <==> template == Template::Default) && (place == 1 <==> template
            == Template::Node) && (place == 2 <==> template == Template::Rust))),
        init_step(
            options,
            InitView::AskTemplate(name),
            SetupEventView::Place(i),
        ) matches InitView::Write { name: written, template } && written == name,
{
}

/// The start of a setup: a `.katoa` that is there ends it, and otherwise one is created. Then the
/// name that was given is taken, or one is asked for; either is cleaned.
pub proof fn law_start_of_setup(options: OptionsView, text: Seq<char>)
    ensures
        init_step(options, InitView::DirExists, SetupEventView::Answer(true)) == InitView::Failed(
            plain_failure(
                "Katoa directory already exists, run "@ + bold_text("katoa new"@)
                    + " to create a new pipeline"@,
            ),
        ),
        init_step(options, InitView::DirExists, SetupEventView::Answer(false)) is CreateDir,
        options.given is None ==> init_step(
            options,
            InitView::CreateDir,
            SetupEventView::Good,
        ) is AskName,
        options.given matches Some(given) ==> init_step(
            options,
            InitView::CreateDir,
            SetupEventView::Good,
        ) == InitView::FileExists(dashed(given)),
        init_step(options, InitView::AskName, SetupEventView::Text(text)) == InitView::FileExists(
            dashed(text),
        ),
{
}

/// A pipeline's file that is there is complained of with its path, which on Windows has a backslash
/// in it, or no directory where a drive stands before the name; one that is not there leads to the
/// choice of a template.
pub proof fn law_file_of_setup(options: OptionsView, name: Seq<char>)
    ensures
        init_step(options, InitView::FileExists(name), SetupEventView::Answer(false))
            == InitView::AskTemplate(name),
        !options.windows ==> init_step(
            options,
            InitView::FileExists(name),
            SetupEventView::Answer(true),
        ) == InitView::Failed(
            plain_failure("Pipeline already exists: "@ + (".katoa/"@ + name + ".ts"@)),
        ),
        options.windows && (name.len() < 2 || name[1] != ':') ==> init_step(
            options,
            InitView::FileExists(name),
            SetupEventView::Answer(true),
        ) == InitView::Failed(
            plain_failure("Pipeline already exists: "@ + (".katoa\\"@ + name + ".ts"@)),
        ),
        options.windows && name.len() >= 2 && name[1] == ':' && ('a' <= name[0] <= 'z' || 'A'
            <= name[0] <= 'Z') ==> init_step(
            options,
            InitView::FileExists(name),
            SetupEventView::Answer(true),
        ) == InitView::Failed(plain_failure("Pipeline already exists: "@ + (name + ".ts"@))),
{
}

/// Behind the pipeline's file: Windows has no editor to set up; elsewhere the user decides. An
/// extension that is listed is not installed again, and one that is not is; settings that are there
/// are left alone, and otherwise a directory and a file for them are made. Last of all comes what
/// the pipeline imports.
pub proof fn law_end_of_setup(
    options: OptionsView,
    name: Seq<char>,
    template: Template,
    listing: Seq<char>,
    reason: Seq<char>,
)
    ensures
        init_step(options, InitView::Write { name, template }, SetupEventView::Good) == if options.windows {
            InitView::Cache(name)
        } else {
            InitView::AskEditor(name)
        },
        init_step(options, InitView::AskEditor(name), SetupEventView::Answer(true))
            == InitView::ListExtensions(name),
        init_step(options, InitView::AskEditor(name), SetupEventView::Answer(false))
            == InitView::Cache(name),
        has_text(listing, "denoland.vscode-deno"@) ==> init_step(
            options,
            InitView::ListExtensions(name),
            SetupEventView::Output(listing),
        ) == InitView::SettingsExist(name),
        !has_text(listing, "denoland.vscode-deno"@) ==> init_step(
            options,
            InitView::ListExtensions(name),
            SetupEventView::Output(listing),
        ) == InitView::Install(name),
        init_step(options, InitView::ListExtensions(name), SetupEventView::Refused(reason))
            == InitView::SettingsExist(name),
        init_step(options, InitView::Install(name), SetupEventView::Good)
            == InitView::SettingsExist(name),
        init_step(options, InitView::Install(name), SetupEventView::Refused(reason))
            == InitView::SettingsExist(name),
        init_step(options, InitView::SettingsExist(name), SetupEventView::Answer(true))
            == InitView::Cache(name),
        init_step(options, InitView::SettingsExist(name), SetupEventView::Answer(false))
            == InitView::SettingsDir(name),
        init_step(options, InitView::SettingsDir(name), SetupEventView::Good)
            == InitView::WriteSettings(name),
        init_step(options, InitView::WriteSettings(name), SetupEventView::Good)
            == InitView::Cache(name),
        init_step(options, InitView::Cache(name), SetupEventView::Good) == InitView::Done(name),
        init_step(options, InitView::Cache(name), SetupEventView::Refused(reason))
            == InitView::Done(name),
{
}

/// What cannot be done ends a setup with its reason, but for the editor's extensions and what the
/// pipeline imports.
pub proof fn law_trouble_ends_setup(options: OptionsView, state: InitView, reason: Seq<char>)
    requires
        init_answers(state, SetupEventView::Refused(reason)),
        !(state is ListExtensions || state is Install || state is Cache),
    ensures
        init_step(options, state, SetupEventView::Refused(reason)) == InitView::Failed(
            plain_failure(reason),
        ),
{
}

/// The name that a setup has taken stays the same to its end.
pub proof fn law_setup_keeps_its_name(options: OptionsView, state: InitView, event: SetupEventView)
    requires
        init_answers(state, event),
        name_in(state) is Some,
    ensures
        init_step(options, state, event) is Failed || name_in(init_step(options, state, event))
            == name_in(state),
{
}

/// The commands of a setup: two for the editor that the terminal belongs to, and one for deno, which
/// is handed the file that was written; no other state has any.
pub proof fn law_commands_of_setup(options: OptionsView, state: InitView, name: Seq<char>)
    ensures
        init_command_view(options, InitView::ListExtensions(name)) == Some(
            CommandView {
                program: editor_program(options.terminal),
                args: seq!["--list-extensions"@],
                dir: None,
            },
        ),
        init_command_view(options, InitView::Install(name)) == Some(
            CommandView {
                program: editor_program(options.terminal),
                args: seq!["--install-extension"@, "denoland.vscode-deno"@],
                dir: None,
            },
        ),
        !options.windows ==> init_command_view(options, InitView::Cache(name)) == Some(
            CommandView {
                program: "deno"@,
                args: seq!["cache"@, "-q"@, ".katoa/"@ + name + ".ts"@],
                dir: None,
            },
        ),
        init_command_view(options, state) is Some <==> state is ListExtensions || state is Install
            || state is Cache,
{
}

/// What is said on the way: each trouble with its reason, and each thing that is about to be done or
/// left to the user.
pub proof fn law_notices_of_setup(name: Seq<char>, listing: Seq<char>, reason: Seq<char>)
    ensures
        init_notice_text(InitView::ListExtensions(name), SetupEventView::Output(listing)) == if has_text(
            listing,
            "denoland.vscode-deno"@,
        ) {
            None
        } else {
            Some("Installing Deno extension for VSCode"@)
        },
        init_notice_text(InitView::ListExtensions(name), SetupEventView::Refused(reason)) == Some(
            "Failed to check if Deno extension is installed: "@ + reason,
        ),
        init_notice_text(InitView::Install(name), SetupEventView::Refused(reason)) == Some(
            "Failed to install Deno extension: "@ + reason,
        ),
        init_notice_text(InitView::Install(name), SetupEventView::Good) is None,
        init_notice_text(InitView::SettingsExist(name), SetupEventView::Answer(true)) == Some(
            "Add the following to your VSCode settings file: \"deno.enablePaths\": [\".katoa\"]"@,
        ),
        init_notice_text(InitView::SettingsExist(name), SetupEventView::Answer(false)) == Some(
            "Creating VSCode settings file"@,
        ),
{
}

/// A pipeline is added in these steps: without a project it is refused, whatever the reason; a file
/// that is there is complained of with its path; a file that cannot be written ends it with the
/// reason; and what was written is what was asked for.
pub proof fn law_steps_of_addition(
    file: PathView,
    dir: PathView,
    path: PathView,
    template: Template,
    text: Seq<char>,
)
    ensures
        new_step(file, NewView::FindDir, SetupEventView::Found(dir)) == NewView::FileExists(
            joined(dir, file),
        ),
        new_step(file, NewView::FindDir, SetupEventView::Refused(text)) == NewView::Failed(
            plain_failure(
                "Katoa is not initialized in this directory. Run "@ + bold_text("katoa init"@)
                    + " to initialize it."@,
            ),
        ),
        new_step(file, NewView::FileExists(path), SetupEventView::Taken(text)) == NewView::Failed(
            plain_failure("Pipeline already exists: "@ + text),
        ),
        new_step(file, NewView::FileExists(path), SetupEventView::Free) == (NewView::Write {
            path,
            template: Template::Default,
        }),
        new_step(file, NewView::Write { path, template }, SetupEventView::Good) == NewView::Done(
            path,
        ),
        new_step(file, NewView::Write { path, template }, SetupEventView::Refused(text))
            == NewView::Failed(plain_failure(text)),
{
}

/// The states of a setup and of an addition, and what becomes of what they wait for, are seen as they
/// are, with their paths and texts.
pub proof fn law_setup_is_seen(
    n: String,
    template: Template,
    failure: Failure,
    path: FilePath,
    yes: bool,
    i: usize,
    options: InitOptions,
)
    ensures
        InitState::DirExists@ == InitView::DirExists,
        InitState::CreateDir@ == InitView::CreateDir,
        InitState::AskName@ == InitView::AskName,
        InitState::FileExists(n)@ == InitView::FileExists(n@),
        InitState::AskTemplate(n)@ == InitView::AskTemplate(n@),
        (InitState::Write { name: n, template })@ == (InitView::Write { name: n@, template }),
        InitState::AskEditor(n)@ == InitView::AskEditor(n@),
        InitState::ListExtensions(n)@ == InitView::ListExtensions(n@),
        InitState::Install(n)@ == InitView::Install(n@),
        InitState::SettingsExist(n)@ == InitView::SettingsExist(n@),
        InitState::SettingsDir(n)@ == InitView::SettingsDir(n@),
        InitState::WriteSettings(n)@ == InitView::WriteSettings(n@),
        InitState::Cache(n)@ == InitView::Cache(n@),
        InitState::Done(n)@ == InitView::Done(n@),
        InitState::Failed(failure)@ == InitView::Failed(failure@),
        NewState::FindDir@ == NewView::FindDir,
        NewState::FileExists(path)@ == NewView::FileExists(path@),
        (NewState::Write { path, template })@ == (NewView::Write { path: path@, template }),
        NewState::Done(path)@ == NewView::Done(path@),
        NewState::Failed(failure)@ == NewView::Failed(failure@),
        SetupEvent::Answer(yes)@ == SetupEventView::Answer(yes),
        SetupEvent::Free@ == SetupEventView::Free,
        SetupEvent::Taken(n)@ == SetupEventView::Taken(n@),
        SetupEvent::Text(n)@ == SetupEventView::Text(n@),
        SetupEvent::Place(i)@ == SetupEventView::Place(i as int),
        SetupEvent::Found(path)@ == SetupEventView::Found(path@),
        SetupEvent::Output(n)@ == SetupEventView::Output(n@),
        SetupEvent::Good@ == SetupEventView::Good,
        SetupEvent::Refused(n)@ == SetupEventView::Refused(n@),
        options@.given == opt_text(options.given),
        options@.windows == options.windows,
        options@.terminal == opt_text(options.terminal),
{
}

/// Every question of a setup and of an addition takes each of its answers, whichever place of the list
/// is chosen, and all that is to be done can be refused.
pub proof fn law_setup_takes_answers(
    n: Seq<char>,
    template: Template,
    path: PathView,
    yes: bool,
    i: int,
)
    requires
        0 <= i < 3,
    ensures
        init_answers(InitView::DirExists, SetupEventView::Answer(yes)),
        init_answers(InitView::CreateDir, SetupEventView::Good),
        init_answers(InitView::CreateDir, SetupEventView::Refused(n)),
        init_answers(InitView::AskName, SetupEventView::Text(n)),
        init_answers(InitView::AskName, SetupEventView::Refused(n)),
        init_answers(InitView::FileExists(n), SetupEventView::Answer(yes)),
        init_answers(InitView::AskTemplate(n), SetupEventView::Place(i)),
        init_answers(InitView::AskTemplate(n), SetupEventView::Refused(n)),
        init_answers(InitView::Write { name: n, template }, SetupEventView::Good),
        init_answers(InitView::Write { name: n, template }, SetupEventView::Refused(n)),
        init_answers(InitView::AskEditor(n), SetupEventView::Answer(yes)),
        init_answers(InitView::AskEditor(n), SetupEventView::Refused(n)),
        init_answers(InitView::ListExtensions(n), SetupEventView::Output(n)),
        init_answers(InitView::ListExtensions(n), SetupEventView::Refused(n)),
        init_answers(InitView::Install(n), SetupEventView::Good),
        init_answers(InitView::Install(n), SetupEventView::Refused(n)),
        init_answers(InitView::SettingsExist(n), SetupEventView::Answer(yes)),
        init_answers(InitView::SettingsDir(n), SetupEventView::Good),
        init_answers(InitView::SettingsDir(n), SetupEventView::Refused(n)),
        init_answers(InitView::WriteSettings(n), SetupEventView::Good),
        init_answers(InitView::WriteSettings(n), SetupEventView::Refused(n)),
        init_answers(InitView::Cache(n), SetupEventView::Good),
        init_answers(InitView::Cache(n), SetupEventView::Refused(n)),
        new_answers(NewView::FindDir, SetupEventView::Found(path)),
        new_answers(NewView::FindDir, SetupEventView::Refused(n)),
        new_answers(NewView::FileExists(path), SetupEventView::Free),
        new_answers(NewView::FileExists(path), SetupEventView::Taken(n)),
        new_answers(NewView::Write { path, template }, SetupEventView::Good),
        new_answers(NewView::Write { path, template }, SetupEventView::Refused(n)),
{
}

} // verus!
