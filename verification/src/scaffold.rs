//! Setting up a project, and adding pipelines to it.

use vstd::prelude::*;
use crate::command::{CommandLine, CommandView};
use crate::locate::{katoa_dir_of, pipeline_file};
use crate::paths::{
    FilePath, PartView, PathPart, PathView, child, extension, joined, last_dot, law_child_of_directory,
    lemma_last_dot, plain_name, stem,
};
use crate::style::{bold, bold_text};
use crate::text::{chars_of, concat2, concat3, contains_text, has_text, text_of};

verus! {

/// A character that a pipeline's name must not have.
pub open spec fn awkward(c: char) -> bool {
    c == '\\' || c == '/' || c == '.' || c == ' '
}

/// A name with `-` for each awkward character.
pub open spec fn dashed(name: Seq<char>) -> Seq<char> {
    Seq::new(
        name.len(),
        |i: int|
            if awkward(name[i]) {
                '-'
            } else {
                name[i]
            },
    )
}

/// The name under which a new pipeline is kept.
pub fn clean_name(name: &str) -> (clean: String)
    ensures
        clean@ == dashed(name@),
{
    let mut out = String::new();
    for c in it: name.chars()
        invariant
            it.seq() == name@,
            out@ == dashed(name@).take(it.index()),
    {
        proof {
            assert(c == name@[it.index()]);
            assert(dashed(name@).take(it.index() + 1) =~= dashed(name@).take(it.index()).push(
                dashed(name@)[it.index()],
            ));
        }
        if c == '\\' || c == '/' || c == '.' || c == ' ' {
            out.push('-');
        } else {
            out.push(c);
        }
    }
    assert(dashed(name@).take(name@.len() as int) =~= dashed(name@));
    out
}

/// A cleaned name has no awkward character, is as long as the name was, and stays as it is when
/// cleaned again; a name without awkward characters stays as it is.
pub proof fn law_clean_names(name: Seq<char>)
    ensures
        dashed(name).len() == name.len(),
        forall|i: int| 0 <= i < name.len() ==> !awkward(#[trigger] dashed(name)[i]),
        dashed(dashed(name)) == dashed(name),
        (forall|i: int| 0 <= i < name.len() ==> !awkward(#[trigger] name[i])) ==> dashed(name)
            == name,
{
    assert(dashed(dashed(name)) =~= dashed(name));
    if forall|i: int| 0 <= i < name.len() ==> !awkward(#[trigger] name[i]) {
        assert(dashed(name) =~= name);
    }
}

/// The name of a pipeline's file.
pub open spec fn file_of(name: Seq<char>) -> Seq<char> {
    name + ".ts"@
}

/// The name of a pipeline's file.
pub fn file_name_of(name: &str) -> (file: String)
    ensures
        file@ == file_of(name@),
{
    concat2(name, ".ts")
}

/// The `.katoa` directory of a project that is set up in the current directory.
pub fn new_katoa_dir() -> (dir: FilePath)
    ensures
        dir@ == seq![PartView::Name(".katoa"@)],
{
    let here = FilePath { parts: Vec::new() };
    let dir = here.child(".katoa");
    assert(here@ =~= Seq::empty());
    assert(dir@ =~= seq![PartView::Name(".katoa"@)]);
    dir
}

/// A text that starts with the letter of a drive, as in `C:x`.
pub open spec fn has_drive(s: Seq<char>) -> bool {
    &&& s.len() >= 2
    &&& 'a' <= s[0] <= 'z' || 'A' <= s[0] <= 'Z'
    &&& s[1] == ':'
}

/// The path that a text without separators, which is neither `.` nor `..`, stands for: a single name,
/// but for a drive before it on Windows.
pub open spec fn one_name(windows: bool, s: Seq<char>) -> PathView {
    if windows && has_drive(s) {
        if s.len() == 2 {
            seq![PartView::Prefix(s)]
        } else {
            seq![PartView::Prefix(s.take(2)), PartView::Name(s.skip(2))]
        }
    } else {
        seq![PartView::Name(s)]
    }
}

/// Whether a text starts with the letter of a drive.
pub fn starts_with_drive(s: &str) -> (drive: bool)
    ensures
        drive == has_drive(s@),
{
    let chars = chars_of(s);
    if chars.len() < 2 {
        return false;
    }
    let first = chars[0];
    (('a' <= first && first <= 'z') || ('A' <= first && first <= 'Z')) && chars[1] == ':'
}

/// The path of a pipeline's file, by its cleaned name.
fn file_path_of(windows: bool, clean: &str) -> (path: FilePath)
    ensures
        path@ == one_name(windows, file_of(clean@)),
{
    let file = file_name_of(clean);
    let mut parts: Vec<PathPart> = Vec::new();
    proof {
        reveal_strlit(".ts");
    }
    if windows && starts_with_drive(file.as_str()) {
        let chars = chars_of(file.as_str());
        parts.push(PathPart::Prefix(text_of(&chars, 0, 2)));
        parts.push(PathPart::Name(text_of(&chars, 2, chars.len())));
        let path = FilePath { parts };
        assert(file@.len() > 2);
        assert(file@.subrange(0, 2) =~= file@.take(2));
        assert(file@.subrange(2, file@.len() as int) =~= file@.skip(2));
        assert(path@ =~= one_name(windows, file@));
        path
    } else {
        parts.push(PathPart::Name(file));
        let path = FilePath { parts };
        assert(path@ =~= one_name(windows, file@));
        path
    }
}

/// The file of the first pipeline of a project: its cleaned name, seen from the new `.katoa`
/// directory.
pub fn first_pipeline_file(windows: bool, clean: &str) -> (path: FilePath)
    ensures
        path@ == joined(
            seq![PartView::Name(".katoa"@)],
            one_name(windows, file_of(clean@)),
        ),
{
    new_katoa_dir().join(&file_path_of(windows, clean))
}

/// The file of a further pipeline, in the `.katoa` directory `dir`. `file` is the path that the
/// file's name stands for.
pub fn new_pipeline_file(dir: &FilePath, file: &FilePath) -> (path: FilePath)
    ensures
        path@ == joined(dir@, file@),
{
    dir.join(file)
}

/// Why nothing is set up.
pub enum SetupError {
    /// The project is set up already.
    AlreadySetUp,
    /// There is no project here.
    NotSetUp,
    /// The pipeline at this path is there already.
    PipelineExists(String),
}

/// What is said where a project is set up already.
pub open spec fn already_set_up() -> Seq<char> {
    "Katoa directory already exists, run "@ + bold_text("katoa new"@)
        + " to create a new pipeline"@
}

/// What is said where there is no project.
pub open spec fn not_set_up() -> Seq<char> {
    "Katoa is not initialized in this directory. Run "@ + bold_text("katoa init"@)
        + " to initialize it."@
}

/// What is said where a pipeline is there already.
pub open spec fn pipeline_exists(path: Seq<char>) -> Seq<char> {
    "Pipeline already exists: "@ + path
}

/// What the user is told.
pub open spec fn setup_message(error: SetupError) -> Seq<char> {
    match error {
        SetupError::AlreadySetUp => already_set_up(),
        SetupError::NotSetUp => not_set_up(),
        SetupError::PipelineExists(path) => pipeline_exists(path@),
    }
}

impl SetupError {
    /// What the user is told.
    pub fn message(&self) -> (s: String)
        ensures
            s@ == setup_message(*self),
    {
        match self {
            SetupError::AlreadySetUp => concat3(
                "Katoa directory already exists, run ",
                bold("katoa new").as_str(),
                " to create a new pipeline",
            ),
            SetupError::NotSetUp => concat3(
                "Katoa is not initialized in this directory. Run ",
                bold("katoa init").as_str(),
                " to initialize it.",
            ),
            SetupError::PipelineExists(path) => concat2("Pipeline already exists: ", path.as_str()),
        }
    }
}

/// Whether a project may be set up here.
pub fn check_init(dir_exists: bool) -> (r: Result<(), SetupError>)
    ensures
        r is Err <==> dir_exists,
        r matches Err(e) ==> e is AlreadySetUp,
{
    if dir_exists {
        Err(SetupError::AlreadySetUp)
    } else {
        Ok(())
    }
}

/// Whether a pipeline's file may be written. `path` is what the user is told of it.
pub fn check_pipeline_file(path: &str, exists: bool) -> (r: Result<(), SetupError>)
    ensures
        r is Err <==> exists,
        r matches Err(e) ==> (e matches SetupError::PipelineExists(p) && p@ == path@),
{
    if exists {
        Err(SetupError::PipelineExists(path.to_owned()))
    } else {
        Ok(())
    }
}

/// Whether a pipeline may be added: there must be a `.katoa` directory.
pub fn check_new(dir: Option<FilePath>) -> (r: Result<FilePath, SetupError>)
    ensures
        match dir {
            Some(d) => r == Ok::<FilePath, SetupError>(d),
            None => r matches Err(e) && e is NotSetUp,
        },
{
    match dir {
        Some(d) => Ok(d),
        None => Err(SetupError::NotSetUp),
    }
}

/// What a new pipeline starts from.
#[derive(Clone, Copy, PartialEq, Eq, Debug, Structural)]
pub enum Template {
    Default,
    Node,
    Rust,
}

/// The templates, in the order in which they are offered.
pub open spec fn template_at(choice: int) -> Template {
    if choice == 0 {
        Template::Default
    } else if choice == 1 {
        Template::Node
    } else {
        Template::Rust
    }
}

/// The name under which a template is offered.
pub open spec fn template_name(template: Template) -> Seq<char> {
    match template {
        Template::Default => "Default"@,
        Template::Node => "Node"@,
        Template::Rust => "Rust"@,
    }
}

impl Template {
    /// The template at a place of the list that is offered.
    pub fn at(choice: usize) -> (template: Template)
        requires
            choice < 3,
        ensures
            template == template_at(choice as int),
            choice == 0 ==> template == Template::Default,
            choice == 1 ==> template == Template::Node,
            choice == 2 ==> template == Template::Rust,
    {
        if choice == 0 {
            Template::Default
        } else if choice == 1 {
            Template::Node
        } else {
            Template::Rust
        }
    }

    /// The name under which the template is offered.
    pub fn name(&self) -> (name: &'static str)
        ensures
            name@ == template_name(*self),
    {
        match self {
            Template::Default => "Default",
            Template::Node => "Node",
            Template::Rust => "Rust",
        }
    }
}

/// The program of the editor that a terminal of this version belongs to.
pub open spec fn editor_program(terminal: Option<Seq<char>>) -> Seq<char> {
    match terminal {
        Some(version) => if has_text(version, "insider"@) {
            "code-insiders"@
        } else {
            "code"@
        },
        None => "code"@,
    }
}

/// The program of the editor that a terminal belongs to, by the version that it gives for itself.
pub fn vscode_program(terminal: Option<&str>) -> (program: &'static str)
    ensures
        program@ == editor_program(
            match terminal {
                Some(version) => Some(version@),
                None => None,
            },
        ),
{
    match terminal {
        Some(version) => {
            if contains_text(version, "insider") {
                "code-insiders"
            } else {
                "code"
            }
        },
        None => "code",
    }
}

/// The command that lists the extensions of the editor.
pub fn list_extensions_command(program: &str) -> (line: CommandLine)
    ensures
        line@ == (CommandView { program: program@, args: seq!["--list-extensions"@], dir: None }),
{
    CommandLine::new(program).arg("--list-extensions")
}

/// The command that adds the extension for deno to the editor.
pub fn install_extension_command(program: &str) -> (line: CommandLine)
    ensures
        line@ == (CommandView {
            program: program@,
            args: seq!["--install-extension"@, "denoland.vscode-deno"@],
            dir: None,
        }),
{
    CommandLine::new(program).arg("--install-extension").arg("denoland.vscode-deno")
}

/// Whether a list of extensions has the one for deno.
pub fn has_extension(listing: &str) -> (found: bool)
    ensures
        found == has_text(listing@, "denoland.vscode-deno"@),
{
    contains_text(listing, "denoland.vscode-deno")
}

/// The settings file that an editor without one gets.
pub fn editor_settings() -> (content: &'static str)
    ensures
        content@ == "{\n  \"deno.enablePaths\": [\".katoa\"]\n}"@,
{
    "{\n  \"deno.enablePaths\": [\".katoa\"]\n}"
}

/// The command that fetches what a new pipeline imports.
pub fn cache_command(path: &str) -> (line: CommandLine)
    ensures
        line@ == (CommandView { program: "deno"@, args: seq!["cache"@, "-q"@, path@], dir: None }),
{
    CommandLine::new("deno").arg("cache").arg("-q").arg(path)
}

/// A pipeline that was added under a name is found under that name: in the `.katoa` directory `dir`
/// the name, below the directories `sub` that the user gave with it, stands for the file that was
/// written. A name with an extension of its own is the exception, for the extension gives way to
/// `ts`.
pub proof fn law_new_pipeline_is_found(dir: PathView, sub: PathView, name: Seq<char>)
    requires
        plain_name(name),
        extension(name) is None,
    ensures
        pipeline_file(dir, sub.push(PartView::Name(name))) == joined(
            dir,
            sub.push(PartView::Name(file_of(name))),
        ),
{
    let asked = joined(dir, sub.push(PartView::Name(name)));
    let written = joined(dir, sub.push(PartView::Name(file_of(name))));
    reveal_strlit(".");
    reveal_strlit("ts");
    reveal_strlit(".ts");
    assert(sub.push(PartView::Name(name)).drop_last() =~= sub);
    assert(sub.push(PartView::Name(file_of(name))).drop_last() =~= sub);
    assert(asked.last() == PartView::Name(name));
    assert(written.last() == PartView::Name(file_of(name)));
    assert(asked.drop_last() =~= written.drop_last());
    assert(written =~= written.drop_last().push(written.last()));
    assert(name + "."@ + "ts"@ =~= name + ".ts"@);
}

/// The name of a project's first pipeline is cleaned, so that the pipeline is found under it: seen
/// from the `.katoa` directory of the project `root`, the name stands for the file that was written,
/// which is in that directory unless a drive stands before it. On Windows a drive alone, as in `C:`,
/// is no name and the exception.
pub proof fn law_first_pipeline_is_found(root: PathView, windows: bool, name: Seq<char>)
    requires
        name.len() > 0,
        !(windows && has_drive(name) && name.len() == 2),
    ensures
        plain_name(dashed(name)),
        pipeline_file(katoa_dir_of(root), one_name(windows, dashed(name))) == joined(
            katoa_dir_of(root),
            one_name(windows, file_of(dashed(name))),
        ),
        !(windows && has_drive(name)) ==> pipeline_file(
            katoa_dir_of(root),
            one_name(windows, dashed(name)),
        ) == child(katoa_dir_of(root), file_of(dashed(name))),
{
    let dir = katoa_dir_of(root);
    let clean = dashed(name);
    law_clean_names(name);
    assert(!awkward(clean[0]));
    reveal_strlit(".ts");
    assert(has_drive(clean) == has_drive(name));
    assert(has_drive(file_of(clean)) == has_drive(clean));
    if windows && has_drive(clean) {
        let rest = clean.skip(2);
        let drive = seq![PartView::Prefix(clean.take(2))];
        assert forall|i: int| 0 <= i < rest.len() implies !awkward(#[trigger] rest[i]) by {
            assert(rest[i] == clean[i + 2]);
        }
        lemma_clean_name(rest);
        law_new_pipeline_is_found(dir, drive, rest);
        assert(drive.push(PartView::Name(rest)) =~= one_name(windows, clean));
        assert(file_of(clean).take(2) =~= clean.take(2));
        assert(file_of(clean).skip(2) =~= file_of(rest));
        assert(drive.push(PartView::Name(file_of(rest))) =~= one_name(windows, file_of(clean)));
        lemma_clean_name(clean);
    } else {
        lemma_clean_name(clean);
        law_child_of_directory(dir, file_of(clean));
        law_new_pipeline_is_found(dir, Seq::empty(), clean);
        assert(Seq::empty().push(PartView::Name(clean)) =~= one_name(windows, clean));
        assert(Seq::empty().push(PartView::Name(file_of(clean))) =~= one_name(
            windows,
            file_of(clean),
        ));
    }
}

/// A text without awkward characters is one name of a path, and has no extension.
proof fn lemma_clean_name(name: Seq<char>)
    requires
        name.len() > 0,
        forall|i: int| 0 <= i < name.len() ==> !awkward(#[trigger] name[i]),
    ensures
        plain_name(name),
        extension(name) is None,
{
    lemma_last_dot(name);
    assert(!awkward(name[0]));
    if last_dot(name) >= 0 {
        assert(awkward(name[last_dot(name)]));
    }
}

/// A cleaned name has a dash in the place of each backslash, slash, dot and blank, and the same
/// character in every other place.
pub proof fn law_dashes(name: Seq<char>, i: int)
    requires
        0 <= i < name.len(),
    ensures
        name[i] == '\\' || name[i] == '/' || name[i] == '.' || name[i] == ' ' ==> dashed(name)[i]
            == '-',
        name[i] != '\\' && name[i] != '/' && name[i] != '.' && name[i] != ' ' ==> dashed(name)[i]
            == name[i],
{
}

/// The template that is offered at a place, under its name: `Default` first, then `Node`, then
/// `Rust`.
pub proof fn law_templates_offered(choice: int)
    requires
        0 <= choice < 3,
    ensures
        choice == 0 <==> template_at(choice) == Template::Default,
        choice == 1 <==> template_at(choice) == Template::Node,
        choice == 2 <==> template_at(choice) == Template::Rust,
        choice == 0 ==> template_name(template_at(choice)) == "Default"@,
        choice == 1 ==> template_name(template_at(choice)) == "Node"@,
        choice == 2 ==> template_name(template_at(choice)) == "Rust"@,
{
}

/// The file of a pipeline has the extension `ts` behind the pipeline's name.
pub proof fn law_file_of(name: Seq<char>)
    ensures
        file_of(name) == name + ".ts"@,
        name.len() > 0 ==> extension(file_of(name)) == Some("ts"@),
        name.len() > 0 ==> stem(file_of(name)) == name,
{
    reveal_strlit(".ts");
    reveal_strlit("ts");
    let file = file_of(name);
    let n = name.len() as int;
    lemma_last_dot(file);
    assert(file[n] == '.');
    assert(file[n + 1] == 't');
    assert(file[n + 2] == 's');
    assert(last_dot(file) == n);
    assert(file.skip(n + 1) =~= "ts"@);
    assert(file.take(n) =~= name);
}

/// The editor is the preview release exactly if the terminal's version has `insider` in it somewhere.
pub proof fn law_editor_program(version: Seq<char>)
    ensures
        editor_program(None) == "code"@,
        has_text(version, "insider"@) ==> editor_program(Some(version)) == "code-insiders"@,
        !has_text(version, "insider"@) ==> editor_program(Some(version)) == "code"@,
{
}

/// What is said where nothing is set up.
pub proof fn law_setup_messages(path: String)
    ensures
        setup_message(SetupError::AlreadySetUp) == "Katoa directory already exists, run "@
            + bold_text("katoa new"@) + " to create a new pipeline"@,
        setup_message(SetupError::NotSetUp)
            == "Katoa is not initialized in this directory. Run "@ + bold_text("katoa init"@)
            + " to initialize it."@,
        setup_message(SetupError::PipelineExists(path)) == "Pipeline already exists: "@ + path@,
{
}

/// A text without separators is one name. Only on Windows, and only where a letter and a colon stand
/// before it, it starts with a volume, which is those two characters; the rest is the name.
pub proof fn law_one_name(windows: bool, letter: char, rest: Seq<char>, name: Seq<char>)
    ensures
        one_name(false, name) == seq![PartView::Name(name)],
        name.len() < 2 || name[1] != ':' ==> one_name(windows, name) == seq![PartView::Name(name)],
        ('a' <= letter <= 'z' || 'A' <= letter <= 'Z') && rest.len() > 0 ==> one_name(
            true,
            seq![letter, ':'] + rest,
        ) == seq![PartView::Prefix(seq![letter, ':']), PartView::Name(rest)],
        !('a' <= letter <= 'z' || 'A' <= letter <= 'Z') ==> one_name(
            windows,
            seq![letter, ':'] + rest,
        ) == seq![PartView::Name(seq![letter, ':'] + rest)],
{
    let whole = seq![letter, ':'] + rest;
    assert(whole[0] == letter && whole[1] == ':');
    assert(whole.take(2) =~= seq![letter, ':']);
    assert(whole.skip(2) =~= rest);
}

} // verus!
