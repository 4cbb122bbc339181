//! Running scripts with deno.

use vstd::prelude::*;
use crate::command::{CommandLine, CommandView};
use crate::failure::{Failure, FailureView, caused_failure, plain_failure};
use crate::paths::{FilePath, child};
use crate::text::{concat2, decimal, decimal_text, opt_text, texts};

verus! {

/// What became of a script that was handed to deno.
pub enum ScriptOutcome {
    /// Deno could not be started, for the reason given.
    NotStarted(String),
    /// The script could not be written to its input, for the reason given.
    NotWritten(String),
    /// Deno could not be waited for, for the reason given.
    NotAwaited(String),
    /// Deno ended, with success or without.
    Ended { success: bool },
}

/// What is said of a script that deno did not get or did not end; nothing where it ended.
pub open spec fn script_trouble(outcome: ScriptOutcome) -> Option<FailureView> {
    match outcome {
        ScriptOutcome::NotStarted(cause) => Some(caused_failure("Failed to spawn deno"@, cause@)),
        ScriptOutcome::NotWritten(cause) => Some(
            caused_failure("Failed to write to deno stdin"@, cause@),
        ),
        ScriptOutcome::NotAwaited(cause) => Some(
            caused_failure("Failed to wait for deno"@, cause@),
        ),
        ScriptOutcome::Ended { success } => None,
    }
}

/// The command that runs a script, which deno reads from its input, with all permissions.
pub fn run_deno_command(args: &Vec<String>) -> (line: CommandLine)
    ensures
        line@ == (CommandView {
            program: "deno"@,
            args: seq!["run"@, "-A"@, "-"@] + texts(args@),
            dir: None,
        }),
{
    CommandLine::new("deno").arg("run").arg("-A").arg("-").args(args)
}

/// Whether a script was run. How it ended is the script's own affair.
pub fn run_deno(outcome: &ScriptOutcome) -> (ran: Result<(), Failure>)
    ensures
        match script_trouble(*outcome) {
            Some(failure) => ran matches Err(e) && e@ == failure,
            None => ran is Ok,
        },
{
    match outcome {
        ScriptOutcome::NotStarted(cause) => Err(
            Failure::caused("Failed to spawn deno".to_owned(), cause.clone()),
        ),
        ScriptOutcome::NotWritten(cause) => Err(
            Failure::caused("Failed to write to deno stdin".to_owned(), cause.clone()),
        ),
        ScriptOutcome::NotAwaited(cause) => Err(
            Failure::caused("Failed to wait for deno".to_owned(), cause.clone()),
        ),
        ScriptOutcome::Ended { .. } => Ok(()),
    }
}

/// The command that runs one step of a workflow.
pub fn step_command(workflow: usize, step: usize) -> (line: CommandLine)
    ensures
        line@ == (CommandView {
            program: "deno"@,
            args: seq!["run"@, "-A"@, "-"@, decimal(workflow as nat), decimal(step as nat)],
            dir: None,
        }),
{
    let mut args: Vec<String> = Vec::new();
    args.push(decimal_text(workflow));
    args.push(decimal_text(step));
    let line = run_deno_command(&args);
    assert(line@.args =~= seq![
        "run"@,
        "-A"@,
        "-"@,
        decimal(workflow as nat),
        decimal(step as nat),
    ]);
    line
}

/// Where the configuration of deno stands in a project.
pub fn deno_config(project: &FilePath) -> (path: FilePath)
    ensures
        path@ == child(project@, "deno.json"@),
{
    project.child("deno.json")
}

/// The arguments that come before the script's own when a pipeline is built: it may read the
/// project, write its output file, use the network and see one variable of the environment. A
/// project without a configuration of its own gets none.
pub open spec fn builder_args(proj_path: Seq<char>, out_path: Seq<char>, has_config: bool) -> Seq<
    Seq<char>,
> {
    seq![
        "run"@,
        "--allow-read="@ + proj_path,
        "--allow-write="@ + out_path,
        "--allow-net"@,
        "--allow-env=KATOA_JOB"@,
    ] + (if has_config {
        Seq::empty()
    } else {
        seq!["--no-config"@]
    }) + seq!["-"@]
}

/// The command that builds a pipeline, which is started in the project.
pub fn run_deno_builder_command(
    deno_exe: &str,
    args: &Vec<String>,
    proj_path: &str,
    out_path: &str,
    has_config: bool,
) -> (line: CommandLine)
    ensures
        line@ == (CommandView {
            program: deno_exe@,
            args: builder_args(proj_path@, out_path@, has_config) + texts(args@),
            dir: Some(proj_path@),
        }),
{
    let mut line = CommandLine::new(deno_exe).arg("run").arg(
        concat2("--allow-read=", proj_path).as_str(),
    ).arg(concat2("--allow-write=", out_path).as_str()).arg("--allow-net").arg(
        "--allow-env=KATOA_JOB",
    );
    if !has_config {
        line = line.arg("--no-config");
    }
    line = line.arg("-");
    assert(line@.args =~= builder_args(proj_path@, out_path@, has_config));
    line.args(args).in_dir(proj_path)
}

/// What is said of a pipeline that was not built; nothing where it was.
pub open spec fn builder_trouble(outcome: ScriptOutcome) -> Option<FailureView> {
    match outcome {
        ScriptOutcome::Ended { success } => if success {
            None
        } else {
            Some(plain_failure("Failed to run deno script"@))
        },
        _ => script_trouble(outcome),
    }
}

/// Whether a pipeline was built: deno must have ended with success.
pub fn run_deno_builder(outcome: &ScriptOutcome) -> (built: Result<(), Failure>)
    ensures
        match builder_trouble(*outcome) {
            Some(failure) => built matches Err(e) && e@ == failure,
            None => built is Ok,
        },
{
    match outcome {
        ScriptOutcome::Ended { success: false } => Err(
            Failure::plain("Failed to run deno script".to_owned()),
        ),
        _ => run_deno(outcome),
    }
}

/// An absolute path of names that a URL takes as they are: letters, digits, `-`, `_`, `.` and `/`,
/// where no name is empty or a single dot.
pub open spec fn url_safe_path(path: Seq<char>) -> bool {
    &&& path.len() > 0 && path[0] == '/'
    &&& forall|i: int|
        0 <= i < path.len() ==> {
            ||| 'a' <= #[trigger] path[i] <= 'z'
            ||| 'A' <= path[i] <= 'Z'
            ||| '0' <= path[i] <= '9'
            ||| path[i] == '-'
            ||| path[i] == '_'
            ||| path[i] == '.'
            ||| path[i] == '/'
        }
    &&& forall|i: int| 0 <= i < path.len() && #[trigger] path[i] == '/' ==> name_starts(path, i + 1)
}

/// A name that is no single dot starts at `at`.
pub open spec fn name_starts(path: Seq<char>, at: int) -> bool {
    &&& at < path.len()
    &&& path[at] != '/'
    &&& path[at] == '.' ==> at + 1 < path.len() && path[at + 1] != '/'
}

/// A path that starts at no root and no volume, on any system.
pub open spec fn clearly_relative(path: Seq<char>) -> bool {
    &&& path.len() > 0 ==> path[0] != '/' && path[0] != '\\'
    &&& !path.contains(':')
}

/// The `file` URL of a path: what `Url::from_file_path` of url gives, as text.
pub uninterp spec fn file_url(path: Seq<char>) -> Option<Seq<char>>;

/// `Url::from_file_path` of url, and the text of what it gives. The result is a function of the
/// path, on the system that the crate is built for: none where the path is not absolute, and
/// otherwise `file://` with the names of the path behind it, percent-encoded. Of that encoding it
/// is said only that it keeps letters, digits, `-`, `_` and `.` as they are.
#[verifier::external_body]
fn url_from_file_path(path: &str) -> (url: Option<String>)
    ensures
        opt_text(url) == file_url(path@),
        clearly_relative(path@) ==> url is None,
        url_safe_path(path@) && url is Some ==> url->0@ == "file://"@ + path@,
{
    url::Url::from_file_path(path).ok().map(|u| u.to_string())
}

/// The URL under which deno gets a pipeline's file.
pub fn pipeline_url(path: &str) -> (url: Result<String, String>)
    ensures
        match file_url(path@) {
            Some(text) => url matches Ok(u) && u@ == text,
            None => url matches Err(s) && s@ == "Unable to convert pipeline path to URL"@,
        },
        clearly_relative(path@) ==> url is Err,
        url_safe_path(path@) && url is Ok ==> url->Ok_0@ == "file://"@ + path@,
{
    url_or_message(url_from_file_path(path))
}

/// The URL of a path, or what is said where there is none.
pub fn url_or_message(url: Option<String>) -> (r: Result<String, String>)
    ensures
        match url {
            Some(u) => r == Ok::<String, String>(u),
            None => r matches Err(s) && s@ == "Unable to convert pipeline path to URL"@,
        },
{
    match url {
        Some(u) => Ok(u),
        None => Err("Unable to convert pipeline path to URL".to_owned()),
    }
}

/// The arguments of the script that builds a pipeline: the pipeline's URL, and the file for what it
/// has to say.
pub fn serialize_args(url: &str, out_path: &str) -> (args: Vec<String>)
    ensures
        texts(args@) == seq![url@, out_path@],
{
    let mut args: Vec<String> = Vec::new();
    args.push(url.to_owned());
    args.push(out_path.to_owned());
    assert(texts(args@) =~= seq![url@, out_path@]);
    args
}

/// A project's own configuration is the only thing that decides whether deno runs without one.
pub proof fn law_config_decides(proj_path: Seq<char>, out_path: Seq<char>, has_config: bool)
    ensures
        builder_args(proj_path, out_path, has_config).contains("--no-config"@) == !has_config,
        builder_args(proj_path, out_path, has_config).last() == "-"@,
{
    reveal_strlit("run");
    reveal_strlit("--allow-read=");
    reveal_strlit("--allow-write=");
    reveal_strlit("--allow-net");
    reveal_strlit("--allow-env=KATOA_JOB");
    reveal_strlit("--no-config");
    reveal_strlit("-");
    let args = builder_args(proj_path, out_path, has_config);
    if has_config {
        assert(args.len() == 6);
        assert(args[0] == "run"@);
        assert(args[1][2] == 'a');
        assert(args[2][2] == 'a');
        assert(args[3][2] == 'a');
        assert(args[4][2] == 'a');
        assert(args[5].len() == 1);
        assert("--no-config"@[2] == 'n');
    } else {
        assert(args[5] == "--no-config"@);
    }
}

/// The arguments of a build, one by one.
pub proof fn law_builder_args(proj_path: Seq<char>, out_path: Seq<char>)
    ensures
        builder_args(proj_path, out_path, true) == seq![
            "run"@,
            "--allow-read="@ + proj_path,
            "--allow-write="@ + out_path,
            "--allow-net"@,
            "--allow-env=KATOA_JOB"@,
            "-"@,
        ],
        builder_args(proj_path, out_path, false) == seq![
            "run"@,
            "--allow-read="@ + proj_path,
            "--allow-write="@ + out_path,
            "--allow-net"@,
            "--allow-env=KATOA_JOB"@,
            "--no-config"@,
            "-"@,
        ],
{
    assert(builder_args(proj_path, out_path, true) =~= seq![
        "run"@,
        "--allow-read="@ + proj_path,
        "--allow-write="@ + out_path,
        "--allow-net"@,
        "--allow-env=KATOA_JOB"@,
        "-"@,
    ]);
    assert(builder_args(proj_path, out_path, false) =~= seq![
        "run"@,
        "--allow-read="@ + proj_path,
        "--allow-write="@ + out_path,
        "--allow-net"@,
        "--allow-env=KATOA_JOB"@,
        "--no-config"@,
        "-"@,
    ]);
}

/// What is said of a script that was not run is the same whether or not it builds a pipeline, and has
/// the reason behind it. How a script ended counts only where it builds a pipeline.
pub proof fn law_script_messages(cause: String, success: bool)
    ensures
        script_trouble(ScriptOutcome::NotStarted(cause)) == Some(
            caused_failure("Failed to spawn deno"@, cause@),
        ),
        script_trouble(ScriptOutcome::NotWritten(cause)) == Some(
            caused_failure("Failed to write to deno stdin"@, cause@),
        ),
        script_trouble(ScriptOutcome::NotAwaited(cause)) == Some(
            caused_failure("Failed to wait for deno"@, cause@),
        ),
        script_trouble(ScriptOutcome::Ended { success }) is None,
        builder_trouble(ScriptOutcome::NotStarted(cause)) == script_trouble(
            ScriptOutcome::NotStarted(cause),
        ),
        builder_trouble(ScriptOutcome::NotWritten(cause)) == script_trouble(
            ScriptOutcome::NotWritten(cause),
        ),
        builder_trouble(ScriptOutcome::NotAwaited(cause)) == script_trouble(
            ScriptOutcome::NotAwaited(cause),
        ),
        builder_trouble(ScriptOutcome::Ended { success: true }) is None,
        builder_trouble(ScriptOutcome::Ended { success: false }) == Some(
            plain_failure("Failed to run deno script"@),
        ),
{
}

} // verus!
