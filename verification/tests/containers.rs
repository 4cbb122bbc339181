use katoa::backend::{runtime_check_command, runtime_checks, OciBackend};
use katoa::bootstrap::{bootstrap_image, build_command, katoa_image_tag, BuildEnd};
use katoa::buildkitd::{
    daemon_after_status, daemon_command, ensure_buildkitd, Daemon, DaemonEvent,
};
use katoa::command::{CommandLine, Outcome};
use katoa::images::{
    image_reference, inspect_command, pull_command, reference_name, reference_or_error,
    with_default_tag, ImageEvent, ImagePlan, ImageReference, Pending,
};

fn strings(list: &[&str]) -> Vec<String> {
    list.iter().map(|s| s.to_string()).collect()
}

fn is_line(line: &CommandLine, program: &str, args: &[&str]) -> bool {
    line.program == program && line.args == strings(args) && line.dir.is_none()
}

fn ended(success: bool, stdout: &str, stderr: &str) -> DaemonEvent {
    DaemonEvent::Ended {
        success,
        stdout: stdout.as_bytes().to_vec(),
        stderr: stderr.to_owned(),
    }
}

#[test]
fn container_programs_are_checked() {
    assert_eq!(OciBackend::Docker.as_str(), "docker");
    assert_eq!(OciBackend::Podman.as_str(), "podman");
    assert!(runtime_check_command(&OciBackend::Docker, true).is_none());
    let line = runtime_check_command(&OciBackend::Podman, false).unwrap();
    assert!(is_line(&line, "podman", &["info", "--format", "{{json .}}"]));
    let check = |b: OciBackend, outcome: Option<Outcome>| {
        runtime_checks(&b, &outcome).err().map(|failure| (failure.message, failure.cause))
    };
    for b in [OciBackend::Docker, OciBackend::Podman] {
        assert_eq!(check(b, None), None);
        assert_eq!(check(b, Some(Outcome::Ended { success: true })), None);
    }
    let broken = || Some(Outcome::Ended { success: false });
    assert_eq!(
        check(OciBackend::Docker, broken()),
        Some(("Docker is not running! Please start it to use Katoa".to_owned(), None))
    );
    assert_eq!(
        check(OciBackend::Podman, broken()),
        Some(("Failed to run podman! Please make sure it is installed and working to use Katoa".to_owned(), None))
    );
    let missing = || Some(Outcome::NotStarted("no such file".to_owned()));
    assert_eq!(
        check(OciBackend::Docker, missing()),
        Some((
            "Katoa requires Docker to run. Please install it using your package manager or from https://docs.docker.com/engine/install".to_owned(),
            Some("no such file".to_owned())
        ))
    );
    assert_eq!(
        check(OciBackend::Podman, missing()),
        Some((
            "Katoa requires Podman to run. Please install it using your package manager or from https://podman.io/getting-started/installation".to_owned(),
            Some("no such file".to_owned())
        ))
    );
}

#[test]
fn bootstrap_images_are_built() {
    let tag = katoa_image_tag("0.1.52");
    assert_eq!(tag, "ghcr.io/katoahq/katoa-bin:0.1.52-dev");
    let line = build_command(&OciBackend::Docker, &tag, "./docker/bin.Dockerfile");
    assert!(is_line(
        &line,
        "docker",
        &["build", "-t", &tag, "-f", "./docker/bin.Dockerfile", "."]
    ));
    let d = OciBackend::Docker;
    assert_eq!(
        bootstrap_image(&d, tag.clone(), &BuildEnd::Ended { success: true }),
        Ok(tag.clone())
    );
    assert_eq!(
        bootstrap_image(&d, tag.clone(), &BuildEnd::Ended { success: false }),
        Err("Unable to build katoa bootstrap image, please check the docker build output".to_owned())
    );
    assert_eq!(
        bootstrap_image(&d, tag.clone(), &BuildEnd::Lost("x".to_owned())),
        Err("Unable to run docker build: x".to_owned())
    );
    assert_eq!(
        bootstrap_image(&d, tag, &BuildEnd::Refused("not found".to_owned())),
        Err("not found".to_owned())
    );
}

#[test]
fn a_running_buildkitd_is_left_alone() {
    let state = ensure_buildkitd(
        Daemon::Inspect,
        ended(true, "{\"State\":{\"Status\":\"running\"}}", ""),
    );
    assert!(matches!(state, Daemon::Ready));
    assert!(daemon_command(&state, &OciBackend::Docker, "0.11.5").is_none());
}

#[test]
fn a_stopped_buildkitd_is_started() {
    for stdout in [
        "{\"State\":{\"Status\":\"exited\"}}",
        "{\"State\":{}}",
        "{\"State\":{\"Status\":7}}",
        "[]",
        "null",
        "{\"Status\":\"running\"}",
    ] {
        let state = ensure_buildkitd(Daemon::Inspect, ended(true, stdout, ""));
        assert!(matches!(state, Daemon::Start), "{stdout}");
        let line = daemon_command(&state, &OciBackend::Docker, "0.11.5").unwrap();
        assert!(is_line(&line, "docker", &["start", "katoa-buildkitd"]));
        assert!(matches!(ensure_buildkitd(state, ended(false, "", "")), Daemon::Ready));
    }
}

#[test]
fn a_missing_buildkitd_is_created() {
    let line = daemon_command(&Daemon::Inspect, &OciBackend::Podman, "0.11.5").unwrap();
    assert!(is_line(
        &line,
        "podman",
        &["inspect", "katoa-buildkitd", "--type", "container", "--format", "{{json .}}"]
    ));
    let state = ensure_buildkitd(Daemon::Inspect, ended(false, "", "no such object"));
    assert!(matches!(state, Daemon::Create));
    let line = daemon_command(&state, &OciBackend::Podman, "0.11.5").unwrap();
    assert!(is_line(
        &line,
        "podman",
        &[
            "run",
            "-d",
            "--name",
            "katoa-buildkitd",
            "--privileged",
            "docker.io/moby/buildkit:v0.11.5"
        ]
    ));
    let failed = ensure_buildkitd(Daemon::Create, ended(false, "", "no space"));
    assert!(matches!(failed, Daemon::Failed(s) if s == "Unable to start buildkitd container: no space"));
    assert!(matches!(ensure_buildkitd(state, ended(true, "", "")), Daemon::Ready));
}

#[test]
fn trouble_with_buildkitd_is_reported() {
    let bad = ensure_buildkitd(Daemon::Inspect, ended(true, "{", ""));
    assert!(matches!(bad, Daemon::Failed(s) if !s.is_empty() && s != "{"));
    for state in [Daemon::Inspect, Daemon::Start, Daemon::Create] {
        let next = ensure_buildkitd(state, DaemonEvent::Refused("denied".to_owned()));
        assert!(matches!(next, Daemon::Failed(s) if s == "denied"));
    }
    assert!(matches!(daemon_after_status(Err("e".to_owned())), Daemon::Failed(s) if s == "e"));
    assert!(matches!(daemon_after_status(Ok(None)), Daemon::Start));
    assert!(matches!(daemon_after_status(Ok(Some("running".to_owned()))), Daemon::Ready));
    assert!(matches!(daemon_after_status(Ok(Some("Running".to_owned()))), Daemon::Start));
}

fn name_of(image: &str) -> Option<String> {
    image_reference(image).ok().map(|r| reference_name(&r))
}

const DIGEST: &str = "sha256:86e0e091d0da6bde2456dbb48306f3956bbeb2eae1b5b9a43045843f69fe4aaa";

#[test]
fn image_names_are_completed() {
    assert_eq!(name_of("ubuntu:22.04"), Some("docker.io/library/ubuntu:22.04".to_owned()));
    assert_eq!(name_of("ubuntu"), Some("docker.io/library/ubuntu:latest".to_owned()));
    assert_eq!(name_of("me/tool"), Some("docker.io/me/tool:latest".to_owned()));
    assert_eq!(name_of("ghcr.io/me/tool:1"), Some("ghcr.io/me/tool:1".to_owned()));
    let pinned = format!("alpine@{DIGEST}");
    assert_eq!(name_of(&pinned), Some(format!("docker.io/library/alpine@{DIGEST}")));
    let r = image_reference("ubuntu").ok().unwrap();
    assert_eq!(r.domain, Some("docker.io".to_owned()));
    assert_eq!(r.path, Some("library/ubuntu".to_owned()));
    assert_eq!(r.tag, Some("latest".to_owned()));
    assert_eq!(r.digest, None);
}

#[test]
fn bad_image_names_are_reported() {
    let e = image_reference("me/Tool").err().unwrap();
    assert_eq!(e.message, "Unable to parse image name: \u{1b}[1mme/Tool\u{1b}[0m");
    assert_eq!(e.cause, Some("repository name must be lowercase".to_owned()));
    let e = reference_or_error("x", Err("because".to_owned())).err().unwrap();
    assert_eq!(e.message, "Unable to parse image name: \u{1b}[1mx\u{1b}[0m");
    assert_eq!(e.cause, Some("because".to_owned()));
}

fn reference(tag: Option<&str>, digest: Option<&str>) -> ImageReference {
    ImageReference {
        domain: None,
        path: Some("a".to_owned()),
        tag: tag.map(|s| s.to_owned()),
        digest: digest.map(|s| s.to_owned()),
    }
}

#[test]
fn the_default_tag_is_for_names_without_version() {
    assert_eq!(with_default_tag(reference(None, None)).tag, Some("latest".to_owned()));
    assert_eq!(with_default_tag(reference(Some("1"), None)).tag, Some("1".to_owned()));
    assert_eq!(with_default_tag(reference(None, Some("d"))).tag, None);
    let twice = with_default_tag(with_default_tag(reference(None, None)));
    assert_eq!(twice.tag, Some("latest".to_owned()));
    assert_eq!(reference_name(&reference(Some("1"), Some("d"))), "docker.io/library/a:1@d");
    let elsewhere = ImageReference { domain: Some("r.io".to_owned()), ..reference(None, None) };
    assert_eq!(reference_name(&elsewhere), "r.io/a");
    let bare = ImageReference { path: None, ..reference(None, None) };
    assert_eq!(reference_name(&bare), "docker.io");
}

#[test]
fn images_are_pulled_and_inspected_with_these_commands() {
    let line = pull_command(&OciBackend::Docker, "docker.io/library/a:1", "linux/amd64");
    assert!(is_line(
        &line,
        "docker",
        &["pull", "docker.io/library/a:1", "--platform", "linux/amd64"]
    ));
    let line = inspect_command(&OciBackend::Docker, "docker.io/library/a:1");
    assert!(is_line(
        &line,
        "docker",
        &["inspect", "docker.io/library/a:1", "--type", "image", "--format", "{{json .}}"]
    ));
}

#[test]
fn each_image_is_pulled_once() {
    let mut plan = ImagePlan::new(strings(&["ubuntu", "alpine:3", "docker.io/library/ubuntu:latest", "alpine:3"]));
    let mut pulled = Vec::new();
    let mut commands = 0;
    loop {
        match plan.pending() {
            Pending::Pull(r) => pulled.push(reference_name(r)),
            Pending::Inspect(_) => {}
            Pending::Done => break,
            Pending::Failed(e) => panic!("{}", e.message),
        }
        plan = plan.step(ImageEvent::Good);
        commands += 1;
    }
    assert_eq!(commands, 4);
    assert_eq!(pulled, strings(&["docker.io/library/ubuntu:latest", "docker.io/library/alpine:3"]));
    let infos: Vec<usize> = plan.resolved().iter().map(|r| r.info).collect();
    assert_eq!(infos, vec![0, 1, 0, 1]);
    assert_eq!(reference_name(&plan.resolved()[2].reference), "docker.io/library/ubuntu:latest");
}

fn failure(plan: &ImagePlan) -> (String, Option<String>) {
    match plan.pending() {
        Pending::Failed(e) => (e.message.clone(), e.cause.clone()),
        _ => panic!("no failure"),
    }
}

#[test]
fn trouble_with_images_is_reported() {
    let start = || ImagePlan::new(strings(&["ubuntu"]));
    let bold = "\u{1b}[1mdocker.io/library/ubuntu:latest\u{1b}[0m";
    let p = start().step(ImageEvent::Unsuccessful);
    assert_eq!(failure(&p), (format!("Unable to pull image: {bold}"), None));
    let p = start().step(ImageEvent::Refused("denied".to_owned()));
    assert_eq!(failure(&p), ("denied".to_owned(), None));
    let p = start().step(ImageEvent::Good).step(ImageEvent::Unsuccessful);
    assert_eq!(failure(&p), (format!("Unable to inspect image: {bold}"), None));
    let p = start().step(ImageEvent::Good).step(ImageEvent::Unreadable("eof".to_owned()));
    assert_eq!(
        failure(&p),
        ("Unable to deserialize image info".to_owned(), Some("eof".to_owned()))
    );
    let p = p.step(ImageEvent::Good);
    assert_eq!(failure(&p).0, "Unable to deserialize image info");
    let p = ImagePlan::new(strings(&["ubuntu", "me/Tool"]));
    let p = p.step(ImageEvent::Good).step(ImageEvent::Good);
    assert!(failure(&p).0.starts_with("Unable to parse image name: "));
    assert_eq!(p.resolved().len(), 1);
    let none = ImagePlan::new(strings(&[]));
    assert!(matches!(none.pending(), Pending::Done));
}
