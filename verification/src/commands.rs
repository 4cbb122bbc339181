//! The commands of the command line, and the phases that each is carried out in.

use vstd::prelude::*;
use crate::backend::OciBackend;
use crate::jobs::{JobEndView, RunState, group_stops, law_exit_code, run_from};
use crate::paths::FilePath;
use crate::pipeline::{Trigger, TriggerDecision, decision};

verus! {

/// A command, with its options.
pub enum Commands {
    /// Run a pipeline.
    Run {
        /// The pipeline; the user is asked where none is given.
        pipeline: Option<FilePath>,
        /// The secrets that come from the environment.
        secret: Vec<String>,
        /// Whether `.env` files are left alone.
        no_dotenv: bool,
        /// The `.env` file to load in place of the nearest one.
        dotenv: Option<String>,
        /// The JSON file with further secrets.
        secrets_json: Option<String>,
        /// The dockerfile that the image with `katoa` is built from.
        katoa_dockerfile: Option<String>,
        /// The container program.
        backend: OciBackend,
        /// Whether nothing is cached.
        no_cache: bool,
        /// Whether the cache of GitHub actions is used.
        gh_action_cache: bool,
        /// The platform that images are pulled for.
        platform: String,
    },
    /// Run a step of a workflow.
    Step { workflow: usize, step: usize },
    /// Set up a project.
    Init { pipeline: Option<String> },
    /// Add a pipeline.
    New { pipeline: String },
    /// Update `katoa`.
    Update,
    /// Print completions for a shell.
    Completions { shell: String },
    /// Print completions for fig.
    FigCompletion,
    /// Open a pipeline in the editor.
    Open { pipeline: FilePath },
    /// Check for common problems.
    Doctor { backend: OciBackend },
    /// A command for debugging.
    Debug,
}

/// The name of a command.
pub open spec fn subcommand_name(command: Commands) -> Seq<char> {
    match command {
        Commands::Run { .. } => "run"@,
        Commands::Step { .. } => "step"@,
        Commands::Init { .. } => "init"@,
        Commands::New { .. } => "new"@,
        Commands::Update => "update"@,
        Commands::Completions { .. } => "completions"@,
        Commands::FigCompletion => "fig-completion"@,
        Commands::Open { .. } => "open"@,
        Commands::Doctor { .. } => "doctor"@,
        Commands::Debug => "debug"@,
    }
}

/// A part of the work of a command.
#[derive(Clone, Copy, PartialEq, Eq, Debug, Structural)]
pub enum Phase {
    /// The container program is checked.
    Checks,
    /// The user chooses a pipeline.
    Choose,
    /// The programs that do the work are found.
    Tools,
    /// The image with `katoa` is built.
    Bootstrap,
    /// The file of the pipeline is found.
    Resolve,
    /// The pipeline is built from its file.
    Build,
    /// The git event is held against what starts the pipeline.
    Trigger,
    /// Buildkitd is started.
    Buildkitd,
    /// The images of the jobs are pulled.
    Images,
    /// The secrets are collected.
    Secrets,
    /// The jobs are ordered.
    Order,
    /// The jobs are run.
    Jobs,
    /// The step is run.
    Step,
    /// The project is set up.
    Init,
    /// The pipeline is added.
    New,
    /// `katoa` is updated.
    Update,
    /// Completions are printed.
    Completions,
    /// The editor is opened.
    Open,
    /// The command for debugging is run.
    Debug,
}

/// One phase, or none.
pub open spec fn only_if(wanted: bool, phase: Phase) -> Seq<Phase> {
    if wanted {
        seq![phase]
    } else {
        Seq::empty()
    }
}

/// The phases of a command, in order.
pub open spec fn phases_of(command: Commands) -> Seq<Phase> {
    match command {
        Commands::Run { pipeline, katoa_dockerfile, .. } => seq![Phase::Checks] + only_if(
            pipeline is None,
            Phase::Choose,
        ) + seq![Phase::Tools] + only_if(katoa_dockerfile is Some, Phase::Bootstrap) + seq![
            Phase::Resolve,
            Phase::Build,
            Phase::Trigger,
            Phase::Buildkitd,
            Phase::Images,
            Phase::Secrets,
            Phase::Order,
            Phase::Jobs,
        ],
        Commands::Step { .. } => seq![Phase::Step],
        Commands::Init { .. } => seq![Phase::Init],
        Commands::New { .. } => seq![Phase::New],
        Commands::Update => seq![Phase::Update],
        Commands::Completions { .. } => seq![Phase::Completions],
        Commands::FigCompletion => seq![Phase::Completions],
        Commands::Open { .. } => seq![Phase::Resolve, Phase::Open],
        Commands::Doctor { .. } => seq![Phase::Checks],
        Commands::Debug => seq![Phase::Debug],
    }
}

/// How a phase ended.
#[derive(Clone, Copy, PartialEq, Eq, Debug, Structural)]
pub enum PhaseEnd {
    /// The work goes on.
    Good,
    /// Something went wrong.
    Failed,
    /// The git event does not start the pipeline.
    Skipped,
}

/// What comes next.
#[derive(Clone, Copy, PartialEq, Eq, Debug, Structural)]
pub enum Next {
    /// The phase at this place.
    Phase(usize),
    /// The end, with the code that the program leaves behind.
    Exit(u8),
}

/// What comes after the phase at `place`, of `count` phases, ended.
pub open spec fn after_phase(count: int, place: int, end: PhaseEnd) -> Next {
    match end {
        PhaseEnd::Failed => Next::Exit(1),
        PhaseEnd::Skipped => Next::Exit(2),
        PhaseEnd::Good => if place + 1 < count {
            Next::Phase((place + 1) as usize)
        } else {
            Next::Exit(0)
        },
    }
}

impl Commands {
    /// The phases that the command is carried out in.
    pub fn phases(&self) -> (phases: Vec<Phase>)
        ensures
            phases@ == phases_of(*self),
    {
        let mut out: Vec<Phase> = Vec::new();
        match self {
            Commands::Run { pipeline, katoa_dockerfile, .. } => {
                out.push(Phase::Checks);
                if pipeline.is_none() {
                    out.push(Phase::Choose);
                }
                out.push(Phase::Tools);
                if katoa_dockerfile.is_some() {
                    out.push(Phase::Bootstrap);
                }
                out.push(Phase::Resolve);
                out.push(Phase::Build);
                out.push(Phase::Trigger);
                out.push(Phase::Buildkitd);
                out.push(Phase::Images);
                out.push(Phase::Secrets);
                out.push(Phase::Order);
                out.push(Phase::Jobs);
            },
            Commands::Step { .. } => out.push(Phase::Step),
            Commands::Init { .. } => out.push(Phase::Init),
            Commands::New { .. } => out.push(Phase::New),
            Commands::Update => out.push(Phase::Update),
            Commands::Completions { .. } => out.push(Phase::Completions),
            Commands::FigCompletion => out.push(Phase::Completions),
            Commands::Open { .. } => {
                out.push(Phase::Resolve);
                out.push(Phase::Open);
            },
            Commands::Doctor { .. } => out.push(Phase::Checks),
            Commands::Debug => out.push(Phase::Debug),
        }
        assert(out@ =~= phases_of(*self));
        out
    }

    /// Takes the command on once the phase at `place` ended: to the next phase, or to the end of the
    /// program.
    pub fn execute(&self, place: usize, end: PhaseEnd) -> (next: Next)
        requires
            place < phases_of(*self).len(),
        ensures
            next == after_phase(phases_of(*self).len() as int, place as int, end),
    {
        match end {
            PhaseEnd::Failed => Next::Exit(1),
            PhaseEnd::Skipped => Next::Exit(2),
            PhaseEnd::Good => {
                if place + 1 < self.phases().len() {
                    Next::Phase(place + 1)
                } else {
                    Next::Exit(0)
                }
            },
        }
    }

    /// The name of the command.
    pub fn subcommand(&self) -> (name: &'static str)
        ensures
            name@ == subcommand_name(*self),
    {
        match self {
            Commands::Run { .. } => "run",
            Commands::Step { .. } => "step",
            Commands::Init { .. } => "init",
            Commands::New { .. } => "new",
            Commands::Update => "update",
            Commands::Completions { .. } => "completions",
            Commands::FigCompletion => "fig-completion",
            Commands::Open { .. } => "open",
            Commands::Doctor { .. } => "doctor",
            Commands::Debug => "debug",
        }
    }
}

/// How the phase ends that holds the git event against what starts the pipeline.
pub open spec fn end_of_trigger(d: TriggerDecision) -> PhaseEnd {
    match d {
        TriggerDecision::Run => PhaseEnd::Good,
        TriggerDecision::Skip => PhaseEnd::Skipped,
        TriggerDecision::SetTogether => PhaseEnd::Failed,
        TriggerDecision::Unimplemented => PhaseEnd::Failed,
    }
}

/// How the phase ends that decides whether a pipeline is run.
pub fn trigger_end(d: &TriggerDecision) -> (end: PhaseEnd)
    ensures
        end == end_of_trigger(*d),
{
    match d {
        TriggerDecision::Run => PhaseEnd::Good,
        TriggerDecision::Skip => PhaseEnd::Skipped,
        TriggerDecision::SetTogether => PhaseEnd::Failed,
        TriggerDecision::Unimplemented => PhaseEnd::Failed,
    }
}

/// How the phase ends that runs the jobs, by the code that their run came to.
pub open spec fn end_of_jobs(code: u8) -> PhaseEnd {
    if code == 0 {
        PhaseEnd::Good
    } else {
        PhaseEnd::Failed
    }
}

/// How the phase ends that runs the jobs.
pub fn jobs_end(code: u8) -> (end: PhaseEnd)
    ensures
        end == end_of_jobs(code),
{
    if code == 0 {
        PhaseEnd::Good
    } else {
        PhaseEnd::Failed
    }
}

/// The code that a command leaves behind which goes on with the phase at `place`, where `ends` says
/// how each phase would end.
pub open spec fn exit_from(ends: Seq<PhaseEnd>, place: int) -> u8
    decreases ends.len() - place,
{
    if 0 <= place < ends.len() {
        match after_phase(ends.len() as int, place, ends[place]) {
            Next::Phase(next) => exit_from(ends, place + 1),
            Next::Exit(code) => code,
        }
    } else {
        0
    }
}

/// A command succeeds exactly if every phase does; otherwise the first phase that does not settles
/// how it ends.
pub proof fn law_first_trouble_settles(ends: Seq<PhaseEnd>, place: int)
    requires
        0 <= place <= ends.len(),
    ensures
        exit_from(ends, place) == 0 <==> forall|i: int|
            place <= i < ends.len() ==> #[trigger] ends[i] == PhaseEnd::Good,
        forall|i: int|
            place <= i < ends.len() && #[trigger] ends[i] != PhaseEnd::Good && (forall|j: int|
                place <= j < i ==> #[trigger] ends[j] == PhaseEnd::Good) ==> exit_from(ends, place)
                == (if ends[i] == PhaseEnd::Failed {
                1u8
            } else {
                2u8
            }),
    decreases ends.len() - place,
{
    if place < ends.len() && ends[place] == PhaseEnd::Good {
        law_first_trouble_settles(ends, place + 1);
    }
}

/// How many phases are carried out: those up to the first that does not end well.
pub open spec fn phases_run(ends: Seq<PhaseEnd>, place: int) -> int
    decreases ends.len() - place,
{
    if 0 <= place < ends.len() {
        match after_phase(ends.len() as int, place, ends[place]) {
            Next::Phase(next) => phases_run(ends, place + 1),
            Next::Exit(code) => place + 1,
        }
    } else {
        place
    }
}

/// No phase is carried out after one that does not end well, and all are carried out if each does.
/// So no job is started where the secrets could not be loaded, and nothing is opened where the
/// pipeline was not found.
pub proof fn law_no_phase_after_trouble(ends: Seq<PhaseEnd>, place: int)
    requires
        0 <= place <= ends.len(),
    ensures
        place <= phases_run(ends, place) <= ends.len(),
        forall|i: int|
            place <= i < ends.len() && #[trigger] ends[i] != PhaseEnd::Good ==> phases_run(
                ends,
                place,
            ) <= i + 1,
        (forall|i: int| place <= i < ends.len() ==> #[trigger] ends[i] == PhaseEnd::Good)
            ==> phases_run(ends, place) == ends.len(),
    decreases ends.len() - place,
{
    if place < ends.len() && ends[place] == PhaseEnd::Good {
        law_no_phase_after_trouble(ends, place + 1);
    }
}

/// A pipeline is opened in one phase, which comes right behind the one that looks it up.
pub proof fn law_open_follows_lookup(pipeline: FilePath)
    ensures
        phases_of(Commands::Open { pipeline }) == seq![Phase::Resolve, Phase::Open],
        after_phase(2, 0, PhaseEnd::Failed) == Next::Exit(1),
        after_phase(2, 1, PhaseEnd::Failed) == Next::Exit(1),
        after_phase(2, 1, PhaseEnd::Good) == Next::Exit(0),
{
}

/// What opens a pipeline.
pub enum Opener {
    /// The program that the user has set.
    Program(String),
    /// Whatever the system opens such a file with.
    SystemDefault,
}

/// What opens a pipeline: the editor that the environment names, or else the system's own choice.
pub fn opener(editor: Option<String>) -> (with: Opener)
    ensures
        match editor {
            Some(program) => with == Opener::Program(program),
            None => with is SystemDefault,
        },
{
    match editor {
        Some(program) => Opener::Program(program),
        None => Opener::SystemDefault,
    }
}

/// Nothing is started for a pipeline before it is known that the git event starts it: the phases
/// that start buildkitd, pull images and run jobs all come after the one that decides.
pub proof fn law_trigger_comes_first(command: Commands, i: int)
    requires
        command is Run,
        0 <= i < phases_of(command).len(),
        phases_of(command)[i] == Phase::Buildkitd || phases_of(command)[i] == Phase::Images
            || phases_of(command)[i] == Phase::Secrets || phases_of(command)[i] == Phase::Jobs,
    ensures
        phases_of(command).take(i).contains(Phase::Trigger),
{
    let phases = phases_of(command);
    let t = phases.len() - 6;
    assert(phases[t] == Phase::Trigger);
    assert(t < i);
    assert(phases.take(i)[t] == Phase::Trigger);
}

/// The secrets are loaded before any job is started.
pub proof fn law_secrets_come_before_jobs(command: Commands, i: int)
    requires
        command is Run,
        0 <= i < phases_of(command).len(),
        phases_of(command)[i] == Phase::Jobs,
    ensures
        phases_of(command).take(i).contains(Phase::Secrets),
{
    let phases = phases_of(command);
    let s = phases.len() - 3;
    assert(phases[s] == Phase::Secrets);
    assert(phases.take(i)[s] == Phase::Secrets);
}

/// A run leaves 2 behind if all goes well up to the git event and that does not start the pipeline,
/// whatever the later phases would have come to.
pub proof fn law_skipped_run(
    command: Commands,
    ends: Seq<PhaseEnd>,
    t: int,
    on: Option<Trigger>,
    git_event: Option<Seq<char>>,
    base_ref: Option<Seq<char>>,
)
    requires
        command is Run,
        ends.len() == phases_of(command).len(),
        0 <= t < ends.len(),
        phases_of(command)[t] == Phase::Trigger,
        forall|i: int| 0 <= i < t ==> #[trigger] ends[i] == PhaseEnd::Good,
        ends[t] == end_of_trigger(decision(on, git_event, base_ref)),
        decision(on, git_event, base_ref) is Skip,
    ensures
        exit_from(ends, 0) == 2,
{
    law_first_trouble_settles(ends, 0);
    assert(ends[t] != PhaseEnd::Good);
}

/// A run whose other phases go well leaves 1 behind if some job stops the pipeline, and 0 if none
/// does.
pub proof fn law_jobs_settle_run(
    command: Commands,
    ends: Seq<PhaseEnd>,
    jobs: Seq<Seq<JobEndView>>,
)
    requires
        command is Run,
        ends.len() == phases_of(command).len(),
        forall|i: int| 0 <= i < ends.len() - 1 ==> #[trigger] ends[i] == PhaseEnd::Good,
        ends.last() == end_of_jobs(run_from(jobs, 0)->Exit_0),
    ensures
        phases_of(command).last() == Phase::Jobs,
        exit_from(ends, 0) == (if exists|g: int|
            0 <= g < jobs.len() && group_stops(#[trigger] jobs[g]) {
            1u8
        } else {
            0u8
        }),
{
    law_exit_code(jobs, 0);
    law_first_trouble_settles(ends, 0);
    assert(ends[ends.len() - 1] == ends.last());
    assert(run_from(jobs, 0) == RunState::Exit(0) || run_from(jobs, 0) == RunState::Exit(1));
}

/// The phases of a run, for each of its options: the user is asked exactly where no pipeline is given,
/// right behind the checks, and the image is built exactly where a dockerfile is given, right behind
/// the tools.
pub proof fn law_phases_of_run(command: Commands)
    requires
        command is Run,
    ensures
        command matches Commands::Run { pipeline, katoa_dockerfile, .. } ==> ({
            let rest = seq![
                Phase::Resolve,
                Phase::Build,
                Phase::Trigger,
                Phase::Buildkitd,
                Phase::Images,
                Phase::Secrets,
                Phase::Order,
                Phase::Jobs,
            ];
            &&& pipeline is Some && katoa_dockerfile is None ==> phases_of(command) == seq![
                Phase::Checks,
                Phase::Tools,
            ] + rest
            &&& pipeline is None && katoa_dockerfile is None ==> phases_of(command) == seq![
                Phase::Checks,
                Phase::Choose,
                Phase::Tools,
            ] + rest
            &&& pipeline is Some && katoa_dockerfile is Some ==> phases_of(command) == seq![
                Phase::Checks,
                Phase::Tools,
                Phase::Bootstrap,
            ] + rest
            &&& pipeline is None && katoa_dockerfile is Some ==> phases_of(command) == seq![
                Phase::Checks,
                Phase::Choose,
                Phase::Tools,
                Phase::Bootstrap,
            ] + rest
        }),
{
    let rest = seq![
        Phase::Resolve,
        Phase::Build,
        Phase::Trigger,
        Phase::Buildkitd,
        Phase::Images,
        Phase::Secrets,
        Phase::Order,
        Phase::Jobs,
    ];
    if let Commands::Run { pipeline, katoa_dockerfile, .. } = command {
        let all = phases_of(command);
        if pipeline is Some && katoa_dockerfile is None {
            assert(all =~= seq![Phase::Checks, Phase::Tools] + rest);
        } else if pipeline is None && katoa_dockerfile is None {
            assert(all =~= seq![Phase::Checks, Phase::Choose, Phase::Tools] + rest);
        } else if pipeline is Some {
            assert(all =~= seq![Phase::Checks, Phase::Tools, Phase::Bootstrap] + rest);
        } else {
            assert(all =~= seq![Phase::Checks, Phase::Choose, Phase::Tools, Phase::Bootstrap]
                + rest);
        }
    }
}

/// The phases of the other commands: one each, but for the two of opening a pipeline.
pub proof fn law_phases_of_others(command: Commands)
    requires
        !(command is Run),
    ensures
        phases_of(command) == match command {
            Commands::Open { pipeline } => seq![Phase::Resolve, Phase::Open],
            Commands::Step { workflow, step } => seq![Phase::Step],
            Commands::Init { pipeline } => seq![Phase::Init],
            Commands::New { pipeline } => seq![Phase::New],
            Commands::Update => seq![Phase::Update],
            Commands::Completions { shell } => seq![Phase::Completions],
            Commands::FigCompletion => seq![Phase::Completions],
            Commands::Doctor { backend } => seq![Phase::Checks],
            _ => seq![Phase::Debug],
        },
{
}

/// A phase that ends well leads to the one right behind it, and the last one to a good end; one that
/// fails ends the command with 1, and one that finds nothing to run with 2, wherever it stands.
pub proof fn law_after_a_phase(count: int, place: int)
    requires
        0 <= place < count <= usize::MAX,
    ensures
        after_phase(count, place, PhaseEnd::Failed) == Next::Exit(1),
        after_phase(count, place, PhaseEnd::Skipped) == Next::Exit(2),
        place + 1 < count ==> after_phase(count, place, PhaseEnd::Good) == Next::Phase(
            (place + 1) as usize,
        ),
        place + 1 == count ==> after_phase(count, place, PhaseEnd::Good) == Next::Exit(0),
{
}

/// The phase of the trigger ends well exactly if the pipeline is run, and as skipped exactly if it is
/// skipped; the phase of the jobs ends well exactly if their run came to 0, and fails otherwise.
pub proof fn law_ends_of_phases(d: TriggerDecision, code: u8)
    ensures
        end_of_trigger(d) == PhaseEnd::Good <==> d is Run,
        end_of_trigger(d) == PhaseEnd::Skipped <==> d is Skip,
        end_of_jobs(code) == PhaseEnd::Good <==> code == 0,
        end_of_jobs(code) == PhaseEnd::Failed <==> code != 0,
{
}

} // verus!
