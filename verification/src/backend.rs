//! The container program that pipelines run with.

use vstd::prelude::*;
use crate::command::{CommandLine, CommandView, Outcome};
use crate::failure::{Failure, FailureView, caused_failure, plain_failure};

verus! {

/// A program that runs containers.
#[derive(Clone, Copy, PartialEq, Eq, Debug, Structural)]
pub enum OciBackend {
    Docker,
    Podman,
}

/// The name of the program.
pub open spec fn backend_name(backend: OciBackend) -> Seq<char> {
    match backend {
        OciBackend::Docker => "docker"@,
        OciBackend::Podman => "podman"@,
    }
}

/// What is said when the program is there and does not work.
pub open spec fn not_running_message(backend: OciBackend) -> Seq<char> {
    match backend {
        OciBackend::Docker => "Docker is not running! Please start it to use Katoa"@,
        OciBackend::Podman => "Failed to run podman! Please make sure it is installed and working to use Katoa"@,
    }
}

/// What is said when the program is not there.
pub open spec fn not_installed_message(backend: OciBackend) -> Seq<char> {
    match backend {
        OciBackend::Docker => "Katoa requires Docker to run. Please install it using your package manager or from https://docs.docker.com/engine/install"@,
        OciBackend::Podman => "Katoa requires Podman to run. Please install it using your package manager or from https://podman.io/getting-started/installation"@,
    }
}

impl OciBackend {
    /// The name of the program.
    pub fn as_str(&self) -> (name: &'static str)
        ensures
            name@ == backend_name(*self),
    {
        match self {
            OciBackend::Docker => "docker",
            OciBackend::Podman => "podman",
        }
    }
}

/// The command that shows whether the container program works; none where checks are skipped.
pub open spec fn check_line(backend: OciBackend, skip_checks: bool) -> Option<CommandView> {
    if skip_checks {
        None
    } else {
        Some(
            CommandView {
                program: backend_name(backend),
                args: seq!["info"@, "--format"@, "{{json .}}"@],
                dir: None,
            },
        )
    }
}

/// What is said of a container program that is not fit for use, by what became of the command that
/// checks it; nothing where it is, or where no command was run.
pub open spec fn check_trouble(backend: OciBackend, outcome: Option<Outcome>) -> Option<
    FailureView,
> {
    match outcome {
        None => None,
        Some(Outcome::NotStarted(cause)) => Some(
            caused_failure(not_installed_message(backend), cause@),
        ),
        Some(Outcome::Ended { success }) => if success {
            None
        } else {
            Some(plain_failure(not_running_message(backend)))
        },
    }
}

/// The command that shows whether the container program works; none where checks are skipped.
pub fn runtime_check_command(backend: &OciBackend, skip_checks: bool) -> (line: Option<CommandLine>)
    ensures
        match check_line(*backend, skip_checks) {
            Some(view) => line matches Some(l) && l@ == view,
            None => line is None,
        },
{
    if skip_checks {
        None
    } else {
        let line = CommandLine::new(backend.as_str()).arg("info").arg("--format").arg("{{json .}}");
        assert(line@ =~= check_line(*backend, skip_checks)->0);
        Some(line)
    }
}

/// Whether the container program is fit for use, by what became of the command that checks it. A
/// program that no command was run for, because checks are skipped, passes.
pub fn runtime_checks(backend: &OciBackend, outcome: &Option<Outcome>) -> (checked: Result<
    (),
    Failure,
>)
    ensures
        match check_trouble(*backend, *outcome) {
            Some(failure) => checked matches Err(e) && e@ == failure,
            None => checked is Ok,
        },
{
    match outcome {
        None => Ok(()),
        Some(Outcome::NotStarted(cause)) => {
            let message = match backend {
                OciBackend::Docker => "Katoa requires Docker to run. Please install it using your package manager or from https://docs.docker.com/engine/install",
                OciBackend::Podman => "Katoa requires Podman to run. Please install it using your package manager or from https://podman.io/getting-started/installation",
            };
            Err(Failure::caused(message.to_owned(), cause.clone()))
        },
        Some(Outcome::Ended { success }) => {
            if *success {
                Ok(())
            } else {
                let message = match backend {
                    OciBackend::Docker => "Docker is not running! Please start it to use Katoa",
                    OciBackend::Podman => "Failed to run podman! Please make sure it is installed and working to use Katoa",
                };
                Err(Failure::plain(message.to_owned()))
            }
        },
    }
}

/// Where checks are skipped no command is run, and every container program passes; otherwise the
/// command is run, and a program passes exactly if it ends with success.
pub proof fn law_skipped_checks_pass(backend: OciBackend, outcome: Outcome)
    ensures
        check_line(backend, true) is None,
        check_trouble(backend, None) is None,
        check_line(backend, false) is Some,
        check_trouble(backend, Some(outcome)) is None <==> outcome == (Outcome::Ended {
            success: true,
        }),
{
}

/// The two container programs go by their own names, and each has its own words for what is wrong
/// with it; behind a program that could not be started stands the reason.
pub proof fn law_programs_and_messages(backend: OciBackend, cause: String)
    ensures
        backend_name(OciBackend::Docker) == "docker"@,
        backend_name(OciBackend::Podman) == "podman"@,
        check_trouble(backend, Some(Outcome::NotStarted(cause))) matches Some(failure)
            && failure.cause == Some(cause@) && failure.message == match backend {
            OciBackend::Docker => "Katoa requires Docker to run. Please install it using your package manager or from https://docs.docker.com/engine/install"@,
            OciBackend::Podman => "Katoa requires Podman to run. Please install it using your package manager or from https://podman.io/getting-started/installation"@,
        },
        check_trouble(backend, Some(Outcome::Ended { success: false })) matches Some(failure)
            && failure.cause is None && failure.message == match backend {
            OciBackend::Docker => "Docker is not running! Please start it to use Katoa"@,
            OciBackend::Podman => "Failed to run podman! Please make sure it is installed and working to use Katoa"@,
        },
        check_line(backend, false) == Some(
            CommandView {
                program: backend_name(backend),
                args: seq!["info"@, "--format"@, "{{json .}}"@],
                dir: None,
            },
        ),
{
}

} // verus!
