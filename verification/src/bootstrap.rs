//! The image that brings `katoa` itself into a job's container.

use vstd::prelude::*;
use crate::backend::{OciBackend, backend_name};
use crate::command::{CommandLine, CommandView};
use crate::text::{concat2, concat3};

verus! {

/// The tag of an image that is built here.
pub open spec fn dev_tag(version: Seq<char>) -> Seq<char> {
    "ghcr.io/katoahq/katoa-bin:"@ + version + "-dev"@
}

/// The tag of an image that is built here, for a version of `katoa`.
pub fn katoa_image_tag(version: &str) -> (tag: String)
    ensures
        tag@ == dev_tag(version@),
{
    concat3("ghcr.io/katoahq/katoa-bin:", version, "-dev")
}

/// The command that builds the image from a dockerfile.
pub fn build_command(backend: &OciBackend, tag: &str, dockerfile: &str) -> (line: CommandLine)
    ensures
        line@ == (CommandView {
            program: backend_name(*backend),
            args: seq!["build"@, "-t"@, tag@, "-f"@, dockerfile@, "."@],
            dir: None,
        }),
{
    CommandLine::new(backend.as_str()).arg("build").arg("-t").arg(tag).arg("-f").arg(dockerfile).arg(
        ".",
    )
}

/// What became of the build.
pub enum BuildEnd {
    /// It could not be started, for the reason given.
    Refused(String),
    /// It could not be waited for, for the reason given.
    Lost(String),
    /// It ended, with success or without.
    Ended { success: bool },
}

/// What is said of a build that did not end with success; nothing where it did.
pub open spec fn build_trouble(backend: OciBackend, end: BuildEnd) -> Option<Seq<char>> {
    match end {
        BuildEnd::Refused(reason) => Some(reason@),
        BuildEnd::Lost(reason) => Some(
            "Unable to run "@ + backend_name(backend) + " build: "@ + reason@,
        ),
        BuildEnd::Ended { success } => if success {
            None
        } else {
            Some(
                "Unable to build katoa bootstrap image, please check the "@ + backend_name(backend)
                    + " build output"@,
            )
        },
    }
}

/// The image that jobs are to use, by what became of its build.
pub fn bootstrap_image(backend: &OciBackend, tag: String, end: &BuildEnd) -> (image: Result<
    String,
    String,
>)
    ensures
        match build_trouble(*backend, *end) {
            Some(message) => image matches Err(s) && s@ == message,
            None => image == Ok::<String, String>(tag),
        },
{
    match end {
        BuildEnd::Refused(reason) => Err(reason.clone()),
        BuildEnd::Lost(reason) => Err(
            concat2(
                concat3("Unable to run ", backend.as_str(), " build: ").as_str(),
                reason.as_str(),
            ),
        ),
        BuildEnd::Ended { success } => {
            if *success {
                Ok(tag)
            } else {
                Err(
                    concat3(
                        "Unable to build katoa bootstrap image, please check the ",
                        backend.as_str(),
                        " build output",
                    ),
                )
            }
        },
    }
}

/// The tag names the version and says that the image was built here. A build that could not be
/// started is complained of with the reason alone; one that was lost or failed, with the name of the
/// program that ran it; and one that succeeded not at all.
pub proof fn law_build_messages(backend: OciBackend, reason: String, version: Seq<char>)
    ensures
        dev_tag(version) == "ghcr.io/katoahq/katoa-bin:"@ + version + "-dev"@,
        build_trouble(backend, BuildEnd::Refused(reason)) == Some(reason@),
        build_trouble(backend, BuildEnd::Lost(reason)) == Some(
            "Unable to run "@ + backend_name(backend) + " build: "@ + reason@,
        ),
        build_trouble(backend, BuildEnd::Ended { success: false }) == Some(
            "Unable to build katoa bootstrap image, please check the "@ + backend_name(backend)
                + " build output"@,
        ),
        build_trouble(backend, BuildEnd::Ended { success: true }) is None,
{
}

} // verus!
