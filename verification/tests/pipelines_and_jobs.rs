use katoa::commands::{jobs_end, opener, trigger_end, Commands, Next, Opener, Phase, PhaseEnd};
use katoa::backend::OciBackend;
use katoa::dag::{topological_sort, Node};
use katoa::jobs::{
    first_group, judge, next_group, settle_group, JobEnd, JobTable, Level, RunState,
};
use katoa::paths::{FilePath, PathPart};
use katoa::pipeline::{
    check_trigger, into_pipeline, skip_message, skip_notice, Job, KatoaType, OnFail, Pipeline,
    Trigger, TriggerDecision, TriggerOn,
};
use katoa::scaffold::{
    cache_command, check_init, check_new, check_pipeline_file, clean_name, editor_settings,
    file_name_of, first_pipeline_file, has_extension, install_extension_command, list_extensions_command,
    new_katoa_dir, new_pipeline_file, vscode_program, SetupError, Template,
};
use katoa::select::{
    chosen_pipeline, list_pipelines, pipeline_name, project_directory, Choice,
};

fn strings(list: &[&str]) -> Vec<String> {
    list.iter().map(|s| s.to_string()).collect()
}

fn named(parts: &[&str]) -> FilePath {
    let mut out = vec![PathPart::Root];
    for p in parts {
        out.push(PathPart::Name(p.to_string()));
    }
    FilePath { parts: out }
}

fn names(p: &FilePath) -> Vec<String> {
    let mut out = Vec::new();
    for part in &p.parts {
        if let PathPart::Name(s) = part {
            out.push(s.clone());
        }
    }
    out
}

fn job(uuid: u128, depends_on: &[u128]) -> Job {
    Job { uuid, image: "ubuntu".to_owned(), depends_on: depends_on.to_vec(), on_fail: None }
}

#[test]
fn a_job_alone_is_a_pipeline() {
    let p = into_pipeline(KatoaType::Image(job(7, &[])));
    assert_eq!(p.jobs.len(), 1);
    assert_eq!(p.jobs[0].uuid, 7);
    assert!(p.on.is_none());
    let q = into_pipeline(KatoaType::Pipeline(Pipeline {
        jobs: vec![job(1, &[]), job(2, &[1])],
        on: Some(Trigger::DenoFunction),
    }));
    assert_eq!(q.jobs.len(), 2);
    assert!(matches!(q.on, Some(Trigger::DenoFunction)));
}

fn branches(list: &[&str]) -> Option<TriggerOn> {
    Some(TriggerOn::Branches { branches: strings(list) })
}

fn decide(on: &Option<Trigger>, event: Option<&str>, base: Option<&str>) -> TriggerDecision {
    check_trigger(on, &event.map(|s| s.to_owned()), &base.map(|s| s.to_owned()))
}

#[test]
fn git_events_start_pipelines() {
    let on = Some(Trigger::Options {
        push: branches(&["main", "dev"]),
        pull_request: branches(&["main"]),
    });
    assert!(matches!(decide(&on, Some("push"), Some("dev")), TriggerDecision::Run));
    assert!(matches!(decide(&on, Some("push"), Some("topic")), TriggerDecision::Skip));
    assert!(matches!(decide(&on, Some("pull_request"), Some("main")), TriggerDecision::Run));
    assert!(matches!(decide(&on, Some("pull_request"), Some("dev")), TriggerDecision::Skip));
    assert!(matches!(decide(&on, Some("schedule"), Some("topic")), TriggerDecision::Run));
    assert!(matches!(decide(&on, None, None), TriggerDecision::Run));
    let half = Some(Trigger::Options { push: None, pull_request: branches(&[]) });
    assert!(matches!(decide(&half, Some("push"), Some("x")), TriggerDecision::Run));
    assert!(matches!(decide(&half, Some("pull_request"), Some("x")), TriggerDecision::Skip));
    assert!(matches!(decide(&None, Some("push"), Some("x")), TriggerDecision::Run));
}

#[test]
fn skipped_pipelines_are_announced() {
    let on = Some(Trigger::Options {
        push: branches(&["main", "a\"b"]),
        pull_request: branches(&[]),
    });
    let some = |s: &str| Some(s.to_owned());
    assert_eq!(
        skip_notice(&on, &some("push"), &some("topic")),
        some(
            "Skipping pipeline because branch \u{1b}[1mtopic\u{1b}[0m is not in \u{1b}[1mpush\u{1b}[0m: Some(Branches { branches: [\"main\", \"a\\\"b\"] })"
        )
    );
    assert_eq!(
        skip_notice(&on, &some("pull_request"), &some("main")),
        some(
            "Skipping pipeline because branch \u{1b}[1mmain\u{1b}[0m is not in \u{1b}[1mpull_request\u{1b}[0m: Some(Branches { branches: [] })"
        )
    );
    assert_eq!(skip_notice(&on, &some("push"), &some("main")), None);
    assert_eq!(skip_notice(&on, &some("schedule"), &some("topic")), None);
    assert_eq!(skip_notice(&on, &some("push"), &None), None);
    assert_eq!(skip_notice(&None, &some("push"), &some("topic")), None);
    assert_eq!(skip_notice(&Some(Trigger::DenoFunction), &some("push"), &some("x")), None);
    assert_eq!(
        skip_message("b", "e", "[]"),
        "Skipping pipeline because branch \u{1b}[1mb\u{1b}[0m is not in \u{1b}[1me\u{1b}[0m: Some(Branches { branches: [] })"
    );
}

#[test]
fn git_events_that_are_refused() {
    let one = decide(&None, Some("push"), None);
    assert_eq!(
        one.message(),
        Some("KATOA_GIT_EVENT and KATOA_BASE_REF must be set together".to_owned())
    );
    assert!(matches!(decide(&None, None, Some("main")), TriggerDecision::SetTogether));
    let function = Some(Trigger::DenoFunction);
    let two = decide(&function, Some("push"), Some("main"));
    assert_eq!(two.message(), Some("TypeScript trigger functions are unimplemented".to_owned()));
    assert!(matches!(decide(&function, None, None), TriggerDecision::Run));
    assert_eq!(TriggerDecision::Skip.message(), None);
    assert_eq!(TriggerDecision::Run.message(), None);
}

fn node(uuid: u128, depends_on: &[u128]) -> Node {
    Node { uuid, depends_on: depends_on.to_vec() }
}

#[test]
fn jobs_run_after_what_they_depend_on() {
    let sorted = topological_sort(&vec![
        node(4, &[2, 3]),
        node(1, &[]),
        node(2, &[1]),
        node(3, &[1]),
        node(5, &[]),
    ]);
    assert_eq!(sorted, Ok(vec![vec![1, 5], vec![2, 3], vec![4]]));
    assert_eq!(topological_sort(&vec![]), Ok(vec![]));
}

#[test]
fn jobs_without_an_order_are_refused() {
    let circle = Err("The jobs depend on one another in a circle".to_owned());
    assert_eq!(topological_sort(&vec![node(1, &[2]), node(2, &[1]), node(3, &[])]), circle);
    assert_eq!(topological_sort(&vec![node(1, &[1])]), circle);
    let stranger = Err("A job depends on a job that is not part of the pipeline".to_owned());
    assert_eq!(topological_sort(&vec![node(1, &[9])]), stranger);
    assert_eq!(topological_sort(&vec![node(1, &[]), node(2, &[1, 9]), node(3, &[2])]), stranger);
}

#[test]
fn the_table_of_jobs() {
    let jobs = vec![job(10, &[]), job(20, &[10]), job(10, &[]), job(30, &[])];
    let mut table = JobTable::new(&jobs);
    let nodes = table.nodes(&jobs);
    let mut ids: Vec<u128> = nodes.iter().map(|n| n.uuid).collect();
    ids.sort();
    assert_eq!(ids, vec![10, 20, 30]);
    for n in &nodes {
        assert_eq!(n.depends_on, if n.uuid == 20 { vec![10] } else { vec![] });
    }
    for group in topological_sort(&nodes).ok().unwrap() {
        for id in group {
            assert!(ids.contains(&id));
        }
    }
    assert_eq!(table.take(10), Some(2));
    assert_eq!(table.take(10), None);
    assert_eq!(table.take(20), Some(1));
    assert_eq!(table.take(99), None);
    assert_eq!(table.nodes(&jobs).len(), 1);
}

fn finished(name: &str, success: bool, on_fail: Option<OnFail>) -> JobEnd {
    JobEnd::Finished {
        long_name: name.to_owned(),
        status: "exit status: 3".to_owned(),
        success,
        on_fail,
    }
}

#[test]
fn ends_of_jobs_are_judged() {
    let (r, stop) = judge(&finished("a", true, Some(OnFail::Stop)));
    assert_eq!((r.level, r.message.as_str(), stop), (Level::Info, "a finished with status exit status: 3", false));
    let (r, stop) = judge(&finished("a", true, Some(OnFail::Ignore)));
    assert_eq!((r.level, stop), (Level::Info, false));
    let (r, stop) = judge(&finished("a", false, Some(OnFail::Ignore)));
    assert_eq!(
        (r.level, r.message.as_str(), stop),
        (Level::Warn, "a failed with status exit status: 3 but was ignored", false)
    );
    for on_fail in [None, Some(OnFail::Stop)] {
        let (r, stop) = judge(&finished("a", false, on_fail));
        assert_eq!(
            (r.level, r.message.as_str(), stop),
            (Level::Error, "Build failed for a with status exit status: 3", true)
        );
    }
    let (r, stop) = judge(&JobEnd::Broken("boom".to_owned()));
    assert_eq!((r.level, r.message.as_str(), stop), (Level::Error, "boom", true));
}

#[test]
fn a_group_is_settled_up_to_the_first_stop() {
    let (reports, stop) = settle_group(&vec![
        finished("a", true, None),
        finished("b", false, Some(OnFail::Ignore)),
        finished("c", false, None),
        finished("d", true, None),
    ]);
    assert!(stop);
    assert_eq!(reports.len(), 3);
    let (reports, stop) = settle_group(&vec![finished("a", true, None), finished("b", true, None)]);
    assert!(!stop);
    assert_eq!(reports.len(), 2);
    let (reports, stop) = settle_group(&vec![]);
    assert!(!stop && reports.is_empty());
}

#[test]
fn groups_run_until_one_stops() {
    assert!(matches!(first_group(0), RunState::Exit(0)));
    assert!(matches!(first_group(2), RunState::Group(0)));
    assert!(matches!(next_group(2, 0, false), RunState::Group(1)));
    assert!(matches!(next_group(2, 1, false), RunState::Exit(0)));
    assert!(matches!(next_group(2, 0, true), RunState::Exit(1)));
    assert!(matches!(next_group(2, 1, true), RunState::Exit(1)));
}

#[test]
fn pipelines_are_listed_and_chosen() {
    let entries = vec![
        named(&["p", ".katoa", "build.ts"]),
        named(&["p", ".katoa", "deno.json"]),
        named(&["p", ".katoa", "a.b.ts"]),
        named(&["p", ".katoa", ".ts"]),
        named(&["p", ".katoa", "README"]),
    ];
    let list = list_pipelines(&entries).ok().unwrap();
    assert_eq!(list, strings(&["build", "a.b"]));
    assert_eq!(list_pipelines(&vec![]), Err("No pipelines found".to_owned()));
    assert_eq!(chosen_pipeline(&list, &Choice::At(1)), Ok("a.b".to_owned()));
    assert_eq!(chosen_pipeline(&list, &Choice::Nothing), Err("No pipeline selected".to_owned()));
    assert_eq!(
        chosen_pipeline(&list, &Choice::Unasked),
        Err("Could not select pipeline".to_owned())
    );
    assert_eq!(pipeline_name(&entries[0]), "build.ts");
    assert_eq!(names(&project_directory(&entries[0])), strings(&["p"]));
}

#[test]
fn new_pipelines_are_named_so_that_they_are_found() {
    assert_eq!(clean_name("my pipeline"), "my-pipeline");
    assert_eq!(clean_name("a/b\\c.d e"), "a-b-c-d-e");
    assert_eq!(clean_name(&clean_name("a.b")), "a-b");
    assert_eq!(clean_name("déploy"), "déploy");
    assert_eq!(file_name_of("build"), "build.ts");
    let first = first_pipeline_file(false, "my-pipeline");
    assert_eq!(names(&first), strings(&[".katoa", "my-pipeline.ts"]));
    let asked = FilePath { parts: vec![PathPart::Name("my-pipeline".to_owned())] };
    let found = new_katoa_dir().join(&asked).with_extension("ts");
    assert_eq!(names(&found), names(&first));
    let below = |names: &[&str]| FilePath {
        parts: names.iter().map(|n| PathPart::Name(n.to_string())).collect(),
    };
    assert_eq!(
        names(&new_pipeline_file(&new_katoa_dir(), &below(&["sub", "x.ts"]))),
        names(&new_katoa_dir().join(&below(&["sub", "x"])).with_extension("ts"))
    );
    let file = FilePath { parts: vec![PathPart::Name("x.ts".to_owned())] };
    assert_eq!(names(&new_pipeline_file(&new_katoa_dir(), &file)), strings(&[".katoa", "x.ts"]));
}

#[test]
fn setups_that_are_refused() {
    assert!(check_init(false).is_ok());
    assert_eq!(
        check_init(true).err().unwrap().message(),
        "Katoa directory already exists, run \u{1b}[1mkatoa new\u{1b}[0m to create a new pipeline"
    );
    assert!(check_new(Some(named(&[".katoa"]))).is_ok());
    assert_eq!(
        check_new(None).err().unwrap().message(),
        "Katoa is not initialized in this directory. Run \u{1b}[1mkatoa init\u{1b}[0m to initialize it."
    );
    assert!(check_pipeline_file("x", false).is_ok());
    assert_eq!(
        check_pipeline_file(".katoa/x.ts", true).err().unwrap().message(),
        "Pipeline already exists: .katoa/x.ts"
    );
    assert_eq!(SetupError::PipelineExists("p".to_owned()).message(), "Pipeline already exists: p");
}

#[test]
fn the_editor_is_set_up() {
    assert_eq!(vscode_program(Some("1.77.0-insider")), "code-insiders");
    assert_eq!(vscode_program(Some("1.77.0")), "code");
    assert_eq!(vscode_program(None), "code");
    assert_eq!(list_extensions_command("code").args, strings(&["--list-extensions"]));
    let line = install_extension_command("code");
    assert_eq!(line.program, "code");
    assert_eq!(line.args, strings(&["--install-extension", "denoland.vscode-deno"]));
    assert!(!has_extension("rust-lang.rust-analyzer\n"));
    assert!(has_extension("a\ndenoland.vscode-deno\nb"));
    assert_eq!(editor_settings(), "{\n  \"deno.enablePaths\": [\".katoa\"]\n}");
    assert_eq!(cache_command(".katoa/x.ts").args, strings(&["cache", "-q", ".katoa/x.ts"]));
    assert_eq!(Template::at(0).name(), "Default");
    assert_eq!(Template::at(1).name(), "Node");
    assert_eq!(Template::at(2).name(), "Rust");
}

fn run_command(pipeline: Option<FilePath>, dockerfile: Option<&str>) -> Commands {
    Commands::Run {
        pipeline,
        secret: vec![],
        no_dotenv: false,
        dotenv: None,
        secrets_json: None,
        katoa_dockerfile: dockerfile.map(|s| s.to_owned()),
        backend: OciBackend::Docker,
        no_cache: false,
        gh_action_cache: false,
        platform: "linux/amd64".to_owned(),
    }
}

#[test]
fn names_of_commands() {
    for (command, name) in [
        (run_command(None, None), "run"),
        (Commands::Step { workflow: 1, step: 2 }, "step"),
        (Commands::Init { pipeline: None }, "init"),
        (Commands::New { pipeline: "x".to_owned() }, "new"),
        (Commands::Update, "update"),
        (Commands::Completions { shell: "zsh".to_owned() }, "completions"),
        (Commands::FigCompletion, "fig-completion"),
        (Commands::Open { pipeline: named(&["x"]) }, "open"),
        (Commands::Doctor { backend: OciBackend::Podman }, "doctor"),
        (Commands::Debug, "debug"),
    ] {
        assert_eq!(command.subcommand(), name);
        assert!(!command.phases().is_empty());
    }
}

#[test]
fn commands_go_from_phase_to_phase() {
    let short = run_command(Some(named(&["build"])), None).phases();
    assert_eq!(
        short,
        vec![
            Phase::Checks,
            Phase::Tools,
            Phase::Resolve,
            Phase::Build,
            Phase::Trigger,
            Phase::Buildkitd,
            Phase::Images,
            Phase::Secrets,
            Phase::Order,
            Phase::Jobs,
        ]
    );
    let long = run_command(None, Some("Dockerfile"));
    let phases = long.phases();
    assert_eq!(phases.len(), 12);
    assert_eq!(phases[1], Phase::Choose);
    assert_eq!(phases[3], Phase::Bootstrap);
    let trigger = phases.iter().position(|p| *p == Phase::Trigger).unwrap();
    assert_eq!(long.execute(trigger, PhaseEnd::Skipped), Next::Exit(2));
    assert_eq!(long.execute(trigger, PhaseEnd::Failed), Next::Exit(1));
    assert_eq!(long.execute(trigger, PhaseEnd::Good), Next::Phase(trigger + 1));
    assert_eq!(long.execute(11, PhaseEnd::Good), Next::Exit(0));
    assert_eq!(Commands::Debug.execute(0, PhaseEnd::Good), Next::Exit(0));
}

#[test]
fn ends_of_phases() {
    assert_eq!(trigger_end(&TriggerDecision::Run), PhaseEnd::Good);
    assert_eq!(trigger_end(&TriggerDecision::Skip), PhaseEnd::Skipped);
    assert_eq!(trigger_end(&TriggerDecision::SetTogether), PhaseEnd::Failed);
    assert_eq!(trigger_end(&TriggerDecision::Unimplemented), PhaseEnd::Failed);
    assert_eq!(jobs_end(0), PhaseEnd::Good);
    assert_eq!(jobs_end(1), PhaseEnd::Failed);
}

#[test]
fn codes_that_a_run_leaves_behind() {
    let run = run_command(Some(named(&["build"])), None);
    let last = run.phases().len() - 1;
    let code = |stop: bool| match next_group(1, 0, stop) {
        RunState::Exit(code) => code,
        RunState::Group(_) => unreachable!(),
    };
    assert_eq!(run.execute(last, jobs_end(code(false))), Next::Exit(0));
    assert_eq!(run.execute(last, jobs_end(code(true))), Next::Exit(1));
    let on = Some(Trigger::Options { push: branches(&["main"]), pull_request: None });
    let skipped = trigger_end(&decide(&on, Some("push"), Some("topic")));
    assert_eq!(run.execute(4, skipped), Next::Exit(2));
    assert_eq!(run.phases()[4], Phase::Trigger);
}

#[test]
fn a_pipeline_is_opened_by_the_editor_that_is_set() {
    assert!(matches!(opener(Some("vim".to_owned())), Opener::Program(p) if p == "vim"));
    assert!(matches!(opener(None), Opener::SystemDefault));
    let open = Commands::Open { pipeline: named(&["x"]) };
    assert_eq!(open.phases(), vec![Phase::Resolve, Phase::Open]);
    assert_eq!(open.execute(0, PhaseEnd::Failed), Next::Exit(1));
    assert_eq!(open.execute(0, PhaseEnd::Good), Next::Phase(1));
    assert_eq!(open.execute(1, PhaseEnd::Failed), Next::Exit(1));
    assert_eq!(open.execute(1, PhaseEnd::Good), Next::Exit(0));
}

#[test]
fn no_job_is_started_without_secrets() {
    let run = run_command(Some(named(&["build"])), None);
    let phases = run.phases();
    let secrets = phases.iter().position(|p| *p == Phase::Secrets).unwrap();
    let jobs = phases.iter().position(|p| *p == Phase::Jobs).unwrap();
    assert!(secrets < jobs);
    assert_eq!(run.execute(secrets, PhaseEnd::Failed), Next::Exit(1));
}

#[test]
fn every_job_is_there_when_its_turn_comes() {
    let jobs = vec![job(1, &[2, 3]), job(2, &[4]), job(3, &[4]), job(4, &[]), job(5, &[])];
    let mut table = JobTable::new(&jobs);
    let groups = topological_sort(&table.nodes(&jobs)).ok().unwrap();
    let mut places = Vec::new();
    for group in groups {
        for uuid in group {
            let place = table.take(uuid).unwrap();
            assert_eq!(jobs[place].uuid, uuid);
            places.push(place);
        }
    }
    places.sort();
    assert_eq!(places, vec![0, 1, 2, 3, 4]);
}

#[test]
fn a_drive_before_a_first_pipeline() {
    let drive = |windows: bool, name: &str| {
        first_pipeline_file(windows, name)
            .parts
            .iter()
            .map(|part| match part {
                PathPart::Prefix(s) => format!("prefix {s}"),
                PathPart::Name(s) => s.clone(),
                _ => unreachable!(),
            })
            .collect::<Vec<String>>()
    };
    assert_eq!(drive(true, "C:x"), strings(&["prefix C:", "x.ts"]));
    assert_eq!(drive(true, "z:"), strings(&["prefix z:", ".ts"]));
    assert_eq!(drive(false, "C:x"), strings(&[".katoa", "C:x.ts"]));
    assert_eq!(drive(true, "ab:c"), strings(&[".katoa", "ab:c.ts"]));
    assert_eq!(drive(true, "1:c"), strings(&[".katoa", "1:c.ts"]));
    assert_eq!(drive(true, "x"), strings(&[".katoa", "x.ts"]));
    assert_eq!(drive(true, ""), strings(&[".katoa", ".ts"]));
}
