//! Seeing to it that the buildkitd container runs.

use vstd::prelude::*;
use crate::backend::{OciBackend, backend_name};
use crate::command::{CommandLine, CommandView};
use crate::text::{concat2, opt_text, same_text};

verus! {

/// The text that stands in a JSON document under two keys: what `from_slice`, indexing and
/// `as_str` of serde_json give, or the message of the error where the bytes are no document.
pub uninterp spec fn json_text_at(bytes: Seq<u8>, outer: Seq<char>, inner: Seq<char>) -> Result<
    Option<Seq<char>>,
    Seq<char>,
>;

/// A parsed status, with its texts.
pub open spec fn status_view(status: Result<Option<String>, String>) -> Result<
    Option<Seq<char>>,
    Seq<char>,
> {
    match status {
        Ok(s) => Ok(opt_text(s)),
        Err(s) => Err(s@),
    }
}

/// `serde_json::from_slice` into a `Value`, which is then indexed by `outer` and by `inner`, and
/// `Value::as_str`: the string that stands there, none where anything else or nothing does, or the
/// text of the error where the bytes do not parse. The result is a function of the three
/// arguments; which bytes parse is not said.
#[verifier::external_body]
fn json_string_at(bytes: &Vec<u8>, outer: &str, inner: &str) -> (found: Result<
    Option<String>,
    String,
>)
    ensures
        status_view(found) == json_text_at(bytes@, outer@, inner@),
{
    match serde_json::from_slice::<serde_json::Value>(bytes) {
        Ok(value) => Ok(value[outer][inner].as_str().map(|s| s.to_owned())),
        Err(error) => Err(error.to_string()),
    }
}

/// The way to a running buildkitd.
pub enum Daemon {
    /// The container is to be inspected.
    Inspect,
    /// The container is there and is to be started.
    Start,
    /// The container is to be made.
    Create,
    /// The container runs.
    Ready,
    /// It cannot be had.
    Failed(String),
}

/// A state of the way, with its text.
pub enum DaemonView {
    Inspect,
    Start,
    Create,
    Ready,
    Failed(Seq<char>),
}

impl View for Daemon {
    type V = DaemonView;

    open spec fn view(&self) -> DaemonView {
        match self {
            Daemon::Inspect => DaemonView::Inspect,
            Daemon::Start => DaemonView::Start,
            Daemon::Create => DaemonView::Create,
            Daemon::Ready => DaemonView::Ready,
            Daemon::Failed(s) => DaemonView::Failed(s@),
        }
    }
}

/// What became of the command of a state.
pub enum DaemonEvent {
    /// It could not be run, for the reason given.
    Refused(String),
    /// It ended.
    Ended { success: bool, stdout: Vec<u8>, stderr: String },
}

/// What became of a command, with what it wrote.
pub enum DaemonEventView {
    Refused(Seq<char>),
    Ended { success: bool, stdout: Seq<u8>, stderr: Seq<char> },
}

impl View for DaemonEvent {
    type V = DaemonEventView;

    open spec fn view(&self) -> DaemonEventView {
        match self {
            DaemonEvent::Refused(s) => DaemonEventView::Refused(s@),
            DaemonEvent::Ended { success, stdout, stderr } => DaemonEventView::Ended {
                success: *success,
                stdout: stdout@,
                stderr: stderr@,
            },
        }
    }
}

/// Where an inspection leads that found the container: to its start, unless it runs.
pub open spec fn after_status(status: Result<Option<Seq<char>>, Seq<char>>) -> DaemonView {
    match status {
        Err(message) => DaemonView::Failed(message),
        Ok(text) => if text == Some("running"@) {
            DaemonView::Ready
        } else {
            DaemonView::Start
        },
    }
}

/// Where the end of a state's command leads.
pub open spec fn daemon_step(state: DaemonView, event: DaemonEventView) -> DaemonView {
    match (state, event) {
        (DaemonView::Ready, _) | (DaemonView::Failed(_), _) => state,
        (_, DaemonEventView::Refused(message)) => DaemonView::Failed(message),
        (DaemonView::Inspect, DaemonEventView::Ended { success, stdout, stderr }) => if success {
            after_status(json_text_at(stdout, "State"@, "Status"@))
        } else {
            DaemonView::Create
        },
        (DaemonView::Start, DaemonEventView::Ended { success, stdout, stderr }) => DaemonView::Ready,
        (DaemonView::Create, DaemonEventView::Ended { success, stdout, stderr }) => if success {
            DaemonView::Ready
        } else {
            DaemonView::Failed("Unable to start buildkitd container: "@ + stderr)
        },
    }
}

/// The command of a state, where it has one.
pub open spec fn daemon_command_view(
    state: DaemonView,
    backend: OciBackend,
    version: Seq<char>,
) -> Option<CommandView> {
    match state {
        DaemonView::Inspect => Some(
            CommandView {
                program: backend_name(backend),
                args: seq![
                    "inspect"@,
                    "katoa-buildkitd"@,
                    "--type"@,
                    "container"@,
                    "--format"@,
                    "{{json .}}"@,
                ],
                dir: None,
            },
        ),
        DaemonView::Start => Some(
            CommandView {
                program: backend_name(backend),
                args: seq!["start"@, "katoa-buildkitd"@],
                dir: None,
            },
        ),
        DaemonView::Create => Some(
            CommandView {
                program: backend_name(backend),
                args: seq![
                    "run"@,
                    "-d"@,
                    "--name"@,
                    "katoa-buildkitd"@,
                    "--privileged"@,
                    "docker.io/moby/buildkit:v"@ + version,
                ],
                dir: None,
            },
        ),
        _ => None,
    }
}

/// The command that a state asks for. `version` is the version of buildkit that is wanted.
pub fn daemon_command(state: &Daemon, backend: &OciBackend, version: &str) -> (line: Option<
    CommandLine,
>)
    ensures
        match daemon_command_view(state@, *backend, version@) {
            Some(view) => line matches Some(l) && l@ == view,
            None => line is None,
        },
{
    match state {
        Daemon::Inspect => {
            let line = CommandLine::new(backend.as_str()).arg("inspect").arg("katoa-buildkitd").arg(
                "--type",
            ).arg("container").arg("--format").arg("{{json .}}");
            assert(line@ =~= daemon_command_view(state@, *backend, version@)->0);
            Some(line)
        },
        Daemon::Start => {
            let line = CommandLine::new(backend.as_str()).arg("start").arg("katoa-buildkitd");
            assert(line@ =~= daemon_command_view(state@, *backend, version@)->0);
            Some(line)
        },
        Daemon::Create => {
            let line = CommandLine::new(backend.as_str()).arg("run").arg("-d").arg("--name").arg(
                "katoa-buildkitd",
            ).arg("--privileged").arg(concat2("docker.io/moby/buildkit:v", version).as_str());
            assert(line@ =~= daemon_command_view(state@, *backend, version@)->0);
            Some(line)
        },
        _ => None,
    }
}

/// Where an inspection leads, by the status that it found.
pub fn daemon_after_status(status: Result<Option<String>, String>) -> (next: Daemon)
    ensures
        next@ == after_status(status_view(status)),
{
    match status {
        Err(message) => Daemon::Failed(message),
        Ok(Some(text)) => {
            if same_text(text.as_str(), "running") {
                Daemon::Ready
            } else {
                Daemon::Start
            }
        },
        Ok(None) => Daemon::Start,
    }
}

/// One step on the way to a running buildkitd, which starts at `Inspect`.
pub fn ensure_buildkitd(state: Daemon, event: DaemonEvent) -> (next: Daemon)
    ensures
        next@ == daemon_step(state@, event@),
{
    match (state, event) {
        (Daemon::Ready, _) => Daemon::Ready,
        (Daemon::Failed(message), _) => Daemon::Failed(message),
        (_, DaemonEvent::Refused(message)) => Daemon::Failed(message),
        (Daemon::Inspect, DaemonEvent::Ended { success, stdout, stderr: _ }) => {
            if success {
                daemon_after_status(json_string_at(&stdout, "State", "Status"))
            } else {
                Daemon::Create
            }
        },
        (Daemon::Start, DaemonEvent::Ended { .. }) => Daemon::Ready,
        (Daemon::Create, DaemonEvent::Ended { success, stdout: _, stderr }) => {
            if success {
                Daemon::Ready
            } else {
                Daemon::Failed(
                    concat2("Unable to start buildkitd container: ", stderr.as_str()),
                )
            }
        },
    }
}

/// Two commands are enough: after the second the container runs or cannot be had. A container is
/// made only where none was found, and one that runs is left alone.
pub proof fn law_two_commands_are_enough(
    first: DaemonEventView,
    second: DaemonEventView,
    backend: OciBackend,
    version: Seq<char>,
)
    ensures
        ({
            let once = daemon_step(DaemonView::Inspect, first);
            let twice = daemon_step(once, second);
            &&& twice is Ready || twice is Failed
            &&& daemon_command_view(twice, backend, version) is None
            &&& once is Create <==> (first is Ended && !first->success)
            &&& once is Ready ==> json_text_at(first->stdout, "State"@, "Status"@) == Ok::<
                Option<Seq<char>>,
                Seq<char>,
            >(Some("running"@))
        }),
{
}

/// The way to a running buildkitd, step by step. A command that could not be run ends it with the
/// reason. A container that was found is left alone if it says that it runs, started if it says
/// anything else or nothing, and given up if what it says is no JSON. One that was not found is
/// made. After a start the way is at its end, however that went; after a making only if it
/// succeeded, and otherwise what the program wrote is passed on.
pub proof fn law_way_to_buildkitd(
    success: bool,
    stdout: Seq<u8>,
    stderr: Seq<char>,
    reason: Seq<char>,
    status: Seq<char>,
)
    ensures
        daemon_step(DaemonView::Inspect, DaemonEventView::Refused(reason)) == DaemonView::Failed(
            reason,
        ),
        daemon_step(DaemonView::Start, DaemonEventView::Refused(reason)) == DaemonView::Failed(
            reason,
        ),
        daemon_step(DaemonView::Create, DaemonEventView::Refused(reason)) == DaemonView::Failed(
            reason,
        ),
        daemon_step(
            DaemonView::Inspect,
            DaemonEventView::Ended { success: false, stdout, stderr },
        ) is Create,
        daemon_step(DaemonView::Inspect, DaemonEventView::Ended { success: true, stdout, stderr })
            == match json_text_at(stdout, "State"@, "Status"@) {
            Err(message) => DaemonView::Failed(message),
            Ok(None) => DaemonView::Start,
            Ok(Some(text)) => if text == "running"@ {
                DaemonView::Ready
            } else {
                DaemonView::Start
            },
        },
        daemon_step(DaemonView::Start, DaemonEventView::Ended { success, stdout, stderr }) is Ready,
        daemon_step(
            DaemonView::Create,
            DaemonEventView::Ended { success: true, stdout, stderr },
        ) is Ready,
        daemon_step(DaemonView::Create, DaemonEventView::Ended { success: false, stdout, stderr })
            == DaemonView::Failed("Unable to start buildkitd container: "@ + stderr),
        after_status(Ok(Some(status))) is Ready <==> status == "running"@,
        after_status(Ok(None)) is Start,
        after_status(Err(reason)) == DaemonView::Failed(reason),
{
}

/// The commands on that way, all of them for the container program in use.
pub proof fn law_buildkitd_commands(backend: OciBackend, version: Seq<char>, reason: Seq<char>)
    ensures
        daemon_command_view(DaemonView::Inspect, backend, version) == Some(
            CommandView {
                program: backend_name(backend),
                args: seq![
                    "inspect"@,
                    "katoa-buildkitd"@,
                    "--type"@,
                    "container"@,
                    "--format"@,
                    "{{json .}}"@,
                ],
                dir: None,
            },
        ),
        daemon_command_view(DaemonView::Start, backend, version) == Some(
            CommandView {
                program: backend_name(backend),
                args: seq!["start"@, "katoa-buildkitd"@],
                dir: None,
            },
        ),
        daemon_command_view(DaemonView::Create, backend, version) == Some(
            CommandView {
                program: backend_name(backend),
                args: seq![
                    "run"@,
                    "-d"@,
                    "--name"@,
                    "katoa-buildkitd"@,
                    "--privileged"@,
                    "docker.io/moby/buildkit:v"@ + version,
                ],
                dir: None,
            },
        ),
        daemon_command_view(DaemonView::Ready, backend, version) is None,
        daemon_command_view(DaemonView::Failed(reason), backend, version) is None,
{
}

/// The states of the way and what became of its commands are seen as they are, with their texts.
pub proof fn law_way_is_seen(
    text: String,
    success: bool,
    stdout: Vec<u8>,
    status: Result<Option<String>, String>,
)
    ensures
        Daemon::Inspect@ == DaemonView::Inspect,
        Daemon::Start@ == DaemonView::Start,
        Daemon::Create@ == DaemonView::Create,
        Daemon::Ready@ == DaemonView::Ready,
        Daemon::Failed(text)@ == DaemonView::Failed(text@),
        DaemonEvent::Refused(text)@ == DaemonEventView::Refused(text@),
        (DaemonEvent::Ended { success, stdout, stderr: text })@ == (DaemonEventView::Ended {
            success,
            stdout: stdout@,
            stderr: text@,
        }),
        status matches Ok(Some(s)) ==> status_view(status) == Ok::<Option<Seq<char>>, Seq<char>>(
            Some(s@),
        ),
        status matches Ok(None) ==> status_view(status) == Ok::<Option<Seq<char>>, Seq<char>>(None),
        status matches Err(s) ==> status_view(status) == Err::<Option<Seq<char>>, Seq<char>>(s@),
{
}

} // verus!
