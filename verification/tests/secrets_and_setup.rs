use katoa::failure::Failure;
use katoa::paths::{FilePath, PathPart};
use katoa::scaffold::Template;
use katoa::secrets::{
    all_secrets, dotenv_entries, dotenv_source, environment_secrets, json_secrets,
    json_secrets_or_error, load_secrets, DotenvSource, JsonFile, Secret, SecretFile, SecretSources,
};
use katoa::setup::{
    add_pipeline, first_file_text, init, init_command, init_notice, InitOptions, InitState,
    NewState, SetupEvent,
};

fn secret(key: &str, value: &str) -> Secret {
    Secret { key: key.to_owned(), value: value.to_owned() }
}

fn flat(list: &Vec<Secret>) -> Vec<String> {
    list.iter().map(|s| format!("{}={}", s.key, s.value)).collect()
}

fn sorted(list: &Vec<Secret>) -> Vec<String> {
    let mut all = flat(list);
    all.sort();
    all
}

fn why(failure: Failure) -> (String, Option<String>) {
    (failure.message, failure.cause)
}

fn both(message: &str, cause: &str) -> Option<(String, Option<String>)> {
    Some((message.to_owned(), Some(cause.to_owned())))
}

#[test]
fn secrets_of_the_environment() {
    let names = vec!["A".to_owned(), "B".to_owned(), "C".to_owned()];
    let found = environment_secrets(
        &names,
        &vec![Ok("1".to_owned()), Ok("2".to_owned()), Ok(String::new())],
    );
    assert_eq!(flat(&found.ok().unwrap()), vec!["A=1", "B=2", "C="]);
    let missing = environment_secrets(
        &names,
        &vec![Ok("1".to_owned()), Err("not set".to_owned()), Err("odd".to_owned())],
    );
    assert_eq!(missing.err().map(why), both("Could not find secret in environment: B", "not set"));
}

#[test]
fn secrets_are_collected_in_order() {
    let all = all_secrets(
        vec![secret("A", "1")],
        vec![Some(secret("B", "2")), None, Some(secret("A", "3"))],
        vec![secret("C", "4")],
    );
    assert_eq!(flat(&all), vec!["A=1", "B=2", "A=3", "C=4"]);
    assert_eq!(SecretFile::DotenvUnreadable.message("x"), "Could not load dotenv file: x");
    assert_eq!(SecretFile::JsonUnreadable.message("x"), "Could not load secrets json file: x");
    assert_eq!(SecretFile::JsonUnparsable.message("x"), "Could not parse secrets json file: x");
}

#[test]
fn only_a_named_dotenv_file_must_be_there() {
    assert!(matches!(dotenv_source(true, true), DotenvSource::Off));
    assert!(matches!(dotenv_source(false, true), DotenvSource::Named));
    assert!(matches!(dotenv_source(false, false), DotenvSource::Nearest));
    let gone = || Err("gone".to_owned());
    let there = || Ok(vec![Some(secret("A", "1")), None]);
    assert_eq!(dotenv_entries(&DotenvSource::Off, "p", gone()).ok().unwrap().len(), 0);
    assert_eq!(dotenv_entries(&DotenvSource::Off, "p", there()).ok().unwrap().len(), 0);
    assert_eq!(dotenv_entries(&DotenvSource::Nearest, "p", gone()).ok().unwrap().len(), 0);
    assert_eq!(dotenv_entries(&DotenvSource::Nearest, "p", there()).ok().unwrap().len(), 2);
    assert_eq!(dotenv_entries(&DotenvSource::Named, "p", there()).ok().unwrap().len(), 2);
    assert_eq!(
        dotenv_entries(&DotenvSource::Named, "p", gone()).err().map(why),
        both("Could not load dotenv file: p", "gone")
    );
}

fn json(text: &str) -> JsonFile {
    JsonFile { path: "s.json".to_owned(), text: Ok(text.to_owned()) }
}

#[test]
fn secrets_of_a_json_file() {
    let read = json_secrets(&json("{\n  \"KEY\": \"VALUE\",\n  \"KEY2\": \"a\\\"b\"\n}"));
    assert_eq!(sorted(&read.ok().unwrap()), vec!["KEY2=a\"b", "KEY=VALUE"]);
    assert_eq!(flat(&json_secrets(&json("{\"A\":\"1\",\"A\":\"2\"}")).ok().unwrap()), vec!["A=2"]);
    assert!(json_secrets(&json("{}")).ok().unwrap().is_empty());
}

#[test]
fn json_files_that_are_of_no_use() {
    for text in ["", "{", "[]", "null", "{\"A\":1}", "{\"A\":null}", "\"A\""] {
        let (message, cause) = json_secrets(&json(text)).err().map(why).unwrap();
        assert_eq!(message, "Could not parse secrets json file: s.json");
        let cause = cause.unwrap();
        assert!(!cause.is_empty() && cause != text, "{text}");
    }
    let unreadable = JsonFile { path: "s.json".to_owned(), text: Err("denied".to_owned()) };
    assert_eq!(
        json_secrets(&unreadable).err().map(why),
        both("Could not load secrets json file: s.json", "denied")
    );
    assert_eq!(
        json_secrets_or_error("p", Err("bad".to_owned())).err().map(why),
        both("Could not parse secrets json file: p", "bad")
    );
    assert_eq!(
        flat(&json_secrets_or_error("p", Ok(vec![secret("A", "1")])).ok().unwrap()),
        vec!["A=1"]
    );
}

fn sources() -> SecretSources {
    SecretSources {
        names: vec!["A".to_owned()],
        values: vec![Ok("1".to_owned())],
        no_dotenv: false,
        dotenv: None,
        opened: Ok(vec![Some(secret("B", "2")), None]),
        json: Some(json("{\"C\":\"3\"}")),
    }
}

#[test]
fn all_secrets_of_a_run() {
    assert_eq!(flat(&load_secrets(sources()).ok().unwrap()), vec!["A=1", "B=2", "C=3"]);
    let mut off = sources();
    off.no_dotenv = true;
    off.dotenv = Some("p".to_owned());
    off.opened = Err("gone".to_owned());
    assert_eq!(flat(&load_secrets(off).ok().unwrap()), vec!["A=1", "C=3"]);
    let mut nearest = sources();
    nearest.opened = Err("gone".to_owned());
    nearest.json = None;
    assert_eq!(flat(&load_secrets(nearest).ok().unwrap()), vec!["A=1"]);
}

#[test]
fn a_run_without_secrets() {
    let mut bad_json = sources();
    bad_json.json = Some(json("[]"));
    let (message, _) = load_secrets(bad_json).err().map(why).unwrap();
    assert_eq!(message, "Could not parse secrets json file: s.json");
    let mut bad_dotenv = sources();
    bad_dotenv.dotenv = Some("p".to_owned());
    bad_dotenv.opened = Err("gone".to_owned());
    bad_dotenv.json = Some(json("[]"));
    assert_eq!(
        load_secrets(bad_dotenv).err().map(why),
        both("Could not load dotenv file: p", "gone")
    );
    let mut bad_name = sources();
    bad_name.values = vec![Err("not set".to_owned())];
    bad_name.dotenv = Some("p".to_owned());
    bad_name.opened = Err("gone".to_owned());
    assert_eq!(
        load_secrets(bad_name).err().map(why),
        both("Could not find secret in environment: A", "not set")
    );
}

fn options(given: Option<&str>, windows: bool) -> InitOptions {
    InitOptions {
        given: given.map(|s| s.to_owned()),
        windows,
        terminal: Some("1.77.0-insider".to_owned()),
    }
}

fn refused() -> SetupEvent {
    SetupEvent::Refused("no".to_owned())
}

fn n() -> String {
    "a-b".to_owned()
}

fn init_trouble(state: InitState) -> (String, Option<String>) {
    match state {
        InitState::Failed(failure) => why(failure),
        _ => panic!("no failure"),
    }
}

#[test]
fn a_project_is_set_up() {
    let o = options(None, false);
    let mut state = InitState::DirExists;
    let mut commands = Vec::new();
    for event in [
        SetupEvent::Answer(false),
        SetupEvent::Good,
        SetupEvent::Text("a.b".to_owned()),
        SetupEvent::Answer(false),
        SetupEvent::Place(2),
        SetupEvent::Good,
        SetupEvent::Answer(true),
        SetupEvent::Output("other".to_owned()),
        SetupEvent::Good,
        SetupEvent::Answer(false),
        SetupEvent::Good,
        SetupEvent::Good,
        refused(),
    ] {
        if let InitState::Write { name, template } = &state {
            assert_eq!((name.as_str(), *template), ("a-b", Template::Rust));
        }
        if let Some(line) = init_command(&o, &state) {
            commands.push(format!("{} {}", line.program, line.args.join(" ")));
        }
        state = init(&o, state, event);
    }
    assert!(matches!(state, InitState::Done(name) if name == "a-b"));
    assert_eq!(
        commands,
        vec![
            "code-insiders --list-extensions",
            "code-insiders --install-extension denoland.vscode-deno",
            "deno cache -q .katoa/a-b.ts",
        ]
    );
}

#[test]
fn a_project_that_is_there_is_left_alone() {
    let o = options(Some("x"), false);
    let state = init(&o, InitState::DirExists, SetupEvent::Answer(true));
    assert_eq!(
        init_trouble(state),
        ("Katoa directory already exists, run \u{1b}[1mkatoa new\u{1b}[0m to create a new pipeline".to_owned(), None)
    );
}

#[test]
fn ways_through_a_setup() {
    let o = options(Some("a b"), false);
    let w = options(None, true);
    assert!(matches!(init(&o, InitState::CreateDir, SetupEvent::Good), InitState::FileExists(s) if s == "a-b"));
    assert!(matches!(init(&w, InitState::CreateDir, SetupEvent::Good), InitState::AskName));
    assert_eq!(
        init_trouble(init(&o, InitState::FileExists(n()), SetupEvent::Answer(true))).0,
        "Pipeline already exists: .katoa/a-b.ts"
    );
    assert_eq!(first_file_text(true, "x"), ".katoa\\x.ts");
    assert_eq!(first_file_text(true, "C:x"), "C:x.ts");
    assert_eq!(first_file_text(false, "C:x"), ".katoa/C:x.ts");
    assert_eq!(
        init_trouble(init(&w, InitState::FileExists("C:x".to_owned()), SetupEvent::Answer(true))).0,
        "Pipeline already exists: C:x.ts"
    );
    assert_eq!(
        init_command(&w, &InitState::Cache("C:x".to_owned())).unwrap().args,
        vec!["cache", "-q", "C:x.ts"]
    );
    let write = || InitState::Write { name: n(), template: Template::Default };
    assert!(matches!(init(&o, write(), SetupEvent::Good), InitState::AskEditor(_)));
    assert!(matches!(init(&w, write(), SetupEvent::Good), InitState::Cache(_)));
    assert!(matches!(init(&o, InitState::AskEditor(n()), SetupEvent::Answer(false)), InitState::Cache(_)));
    let listed = SetupEvent::Output("denoland.vscode-deno".to_owned());
    assert!(matches!(init(&o, InitState::ListExtensions(n()), listed), InitState::SettingsExist(_)));
    assert!(matches!(init(&o, InitState::SettingsExist(n()), SetupEvent::Answer(true)), InitState::Cache(_)));
}

#[test]
fn trouble_in_a_setup() {
    let o = options(None, false);
    for state in [
        InitState::CreateDir,
        InitState::AskName,
        InitState::AskTemplate(n()),
        InitState::Write { name: n(), template: Template::Node },
        InitState::AskEditor(n()),
        InitState::SettingsDir(n()),
        InitState::WriteSettings(n()),
    ] {
        assert_eq!(init_trouble(init(&o, state, refused())), ("no".to_owned(), None));
    }
    for state in [InitState::ListExtensions(n()), InitState::Install(n())] {
        assert!(matches!(init(&o, state, refused()), InitState::SettingsExist(_)));
    }
    assert!(matches!(init(&o, InitState::Cache(n()), refused()), InitState::Done(_)));
}

#[test]
fn what_is_said_during_a_setup() {
    let list = InitState::ListExtensions(n());
    let notice = |state: &InitState, event: SetupEvent| init_notice(state, &event).unwrap_or_default();
    assert_eq!(
        notice(&list, SetupEvent::Output("x".to_owned())),
        "Installing Deno extension for VSCode"
    );
    assert_eq!(notice(&list, SetupEvent::Output("denoland.vscode-deno".to_owned())), "");
    assert_eq!(notice(&list, refused()), "Failed to check if Deno extension is installed: no");
    assert_eq!(
        notice(&InitState::Install(n()), refused()),
        "Failed to install Deno extension: no"
    );
    let settings = InitState::SettingsExist(n());
    assert_eq!(notice(&settings, SetupEvent::Answer(false)), "Creating VSCode settings file");
    assert_eq!(
        notice(&settings, SetupEvent::Answer(true)),
        "Add the following to your VSCode settings file: \"deno.enablePaths\": [\".katoa\"]"
    );
    assert_eq!(notice(&InitState::CreateDir, SetupEvent::Good), "");
}

fn path(names: &[&str]) -> FilePath {
    FilePath { parts: names.iter().map(|n| PathPart::Name(n.to_string())).collect() }
}

fn new_trouble(state: NewState) -> String {
    match state {
        NewState::Failed(failure) => failure.message,
        _ => panic!("no failure"),
    }
}

#[test]
fn a_pipeline_is_added() {
    let file = path(&["x.ts"]);
    let state = add_pipeline(&file, NewState::FindDir, SetupEvent::Found(path(&[".katoa"])));
    assert!(matches!(&state, NewState::FileExists(p) if p.file_name() == Some("x.ts".to_owned()) && p.parts.len() == 2));
    let state = add_pipeline(&file, state, SetupEvent::Free);
    assert!(matches!(&state, NewState::Write { template: Template::Default, .. }));
    let state = add_pipeline(&file, state, SetupEvent::Good);
    assert!(matches!(&state, NewState::Done(p) if p.parts.len() == 2));
}

#[test]
fn a_pipeline_is_not_added() {
    let file = path(&["x.ts"]);
    assert_eq!(
        new_trouble(add_pipeline(&file, NewState::FindDir, refused())),
        "Katoa is not initialized in this directory. Run \u{1b}[1mkatoa init\u{1b}[0m to initialize it."
    );
    let there = add_pipeline(
        &file,
        NewState::FileExists(path(&["x.ts"])),
        SetupEvent::Taken(".katoa/x.ts".to_owned()),
    );
    assert_eq!(new_trouble(there), "Pipeline already exists: .katoa/x.ts");
    let write = NewState::Write { path: path(&["x.ts"]), template: Template::Default };
    assert_eq!(new_trouble(add_pipeline(&file, write, refused())), "no");
}
