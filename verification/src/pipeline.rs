//! Pipelines, and the git events that start them.

use vstd::prelude::*;
use crate::style::{bold, bold_text};
use crate::text::{concat3, list_has, opt_text, same_text, texts};

verus! {

/// What a failing job means for the rest of its pipeline.
#[derive(Clone, Copy, PartialEq, Eq, Debug, Structural)]
pub enum OnFail {
    /// The pipeline goes on.
    Ignore,
    /// The pipeline stops.
    Stop,
}

/// A job of a pipeline.
pub struct Job {
    /// What other jobs call it by.
    pub uuid: u128,
    /// The image that its container is made from.
    pub image: String,
    /// The jobs that must have run before it.
    pub depends_on: Vec<u128>,
    /// What its failure means.
    pub on_fail: Option<OnFail>,
}

/// The events of one kind that start a pipeline.
pub enum TriggerOn {
    /// Those on one of these branches.
    Branches { branches: Vec<String> },
}

/// When a pipeline is started.
pub enum Trigger {
    /// By a push, and by a pull request. A kind without a limit is always let through.
    Options { push: Option<TriggerOn>, pull_request: Option<TriggerOn> },
    /// By what a function of the pipeline says.
    DenoFunction,
}

/// The jobs of a pipeline, and when it is started.
pub struct Pipeline {
    pub jobs: Vec<Job>,
    pub on: Option<Trigger>,
}

/// What a pipeline's file exports.
pub enum KatoaType {
    Pipeline(Pipeline),
    Image(Job),
}

/// The pipeline that a file stands for: a job alone is a pipeline of one job, started by any event.
pub fn into_pipeline(exported: KatoaType) -> (pipeline: Pipeline)
    ensures
        match exported {
            KatoaType::Pipeline(p) => pipeline == p,
            KatoaType::Image(job) => pipeline.jobs@ == seq![job] && pipeline.on is None,
        },
{
    match exported {
        KatoaType::Pipeline(p) => p,
        KatoaType::Image(job) => {
            let mut jobs: Vec<Job> = Vec::new();
            jobs.push(job);
            assert(jobs@ =~= seq![job]);
            Pipeline { jobs, on: None }
        },
    }
}

/// Whether a pipeline is run.
pub enum TriggerDecision {
    /// It is.
    Run,
    /// The branch is not one of those that the event is limited to.
    Skip,
    /// Only one of the two variables that tell of a git event is set.
    SetTogether,
    /// Functions that decide are not there yet.
    Unimplemented,
}

/// The branches that a trigger limits an event to, where it does.
pub open spec fn branch_limit(
    push: Option<TriggerOn>,
    pull_request: Option<TriggerOn>,
    event: Seq<char>,
) -> Option<Seq<Seq<char>>> {
    let on = if event == "pull_request"@ {
        pull_request
    } else if event == "push"@ {
        push
    } else {
        None
    };
    match on {
        Some(TriggerOn::Branches { branches }) => Some(texts(branches@)),
        None => None,
    }
}

/// Whether a pipeline is run on a git event against the branch `base`.
pub open spec fn on_event(on: Option<Trigger>, event: Seq<char>, base: Seq<char>) -> TriggerDecision {
    match on {
        None => TriggerDecision::Run,
        Some(Trigger::DenoFunction) => TriggerDecision::Unimplemented,
        Some(Trigger::Options { push, pull_request }) => match branch_limit(
            push,
            pull_request,
            event,
        ) {
            Some(branches) => if branches.contains(base) {
                TriggerDecision::Run
            } else {
                TriggerDecision::Skip
            },
            None => TriggerDecision::Run,
        },
    }
}

/// Whether a pipeline is run, by what the environment says of a git event.
pub open spec fn decision(
    on: Option<Trigger>,
    git_event: Option<Seq<char>>,
    base_ref: Option<Seq<char>>,
) -> TriggerDecision {
    match (git_event, base_ref) {
        (Some(event), Some(base)) => on_event(on, event, base),
        (None, None) => TriggerDecision::Run,
        _ => TriggerDecision::SetTogether,
    }
}

/// Whether the branch is one of those that the limit names, if there is one.
fn let_through(limit: &Option<TriggerOn>, base: &str) -> (through: bool)
    ensures
        match *limit {
            Some(TriggerOn::Branches { branches }) => through == texts(branches@).contains(base@),
            None => through,
        },
{
    match limit {
        Some(TriggerOn::Branches { branches }) => list_has(branches, base),
        None => true,
    }
}

/// The limit is on branches, and the branch is none of them.
pub open spec fn shuts_out(limit: Option<TriggerOn>, base: Seq<char>) -> bool {
    limit matches Some(TriggerOn::Branches { branches }) && forall|i: int|
        0 <= i < branches@.len() ==> (#[trigger] branches@[i])@ != base
}

/// The branches of a limit, said of the list itself.
proof fn lemma_shuts_out(limit: Option<TriggerOn>, base: Seq<char>)
    ensures
        shuts_out(limit, base) <==> (limit matches Some(TriggerOn::Branches { branches })
            && !texts(branches@).contains(base)),
{
    if let Some(TriggerOn::Branches { branches }) = limit {
        let all = texts(branches@);
        if all.contains(base) {
            let i = choose|i: int| 0 <= i < all.len() && all[i] == base;
            assert(branches@[i]@ == base);
        } else {
            assert forall|i: int| 0 <= i < branches@.len() implies (#[trigger] branches@[i])@
                != base by {
                assert(all[i] == branches@[i]@);
            }
        }
    }
}

/// A push is no pull request.
pub proof fn law_two_events()
    ensures
        "push"@ != "pull_request"@,
{
    reveal_strlit("push");
    reveal_strlit("pull_request");
    assert("push"@.len() == 4);
    assert("pull_request"@.len() == 12);
}

/// Decides whether a pipeline is run. `git_event` and `base_ref` are what the environment says of
/// the event, where it says anything.
pub fn check_trigger(
    on: &Option<Trigger>,
    git_event: &Option<String>,
    base_ref: &Option<String>,
) -> (d: TriggerDecision)
    ensures
        d == decision(*on, opt_text(*git_event), opt_text(*base_ref)),
        d is SetTogether <==> (git_event is Some) != (base_ref is Some),
        d is Unimplemented <==> git_event is Some && base_ref is Some && (*on matches Some(
            Trigger::DenoFunction,
        )),
        d is Skip <==> (*on matches Some(Trigger::Options { push, pull_request }) && (
        *git_event matches Some(event) && (*base_ref matches Some(base) && (event@
            == "pull_request"@ && shuts_out(pull_request, base@) || event@ == "push"@ && shuts_out(
            push,
            base@,
        ))))),
{
    proof {
        law_two_events();
        assert forall|limit: Option<TriggerOn>, base: Seq<char>| #[trigger]
            shuts_out(limit, base) <==> (limit matches Some(TriggerOn::Branches { branches })
                && !texts(branches@).contains(base)) by {
            lemma_shuts_out(limit, base);
        }
    }
    match (git_event, base_ref) {
        (Some(event), Some(base)) => {
            match on {
                None => TriggerDecision::Run,
                Some(Trigger::DenoFunction) => TriggerDecision::Unimplemented,
                Some(Trigger::Options { push, pull_request }) => {
                    let through = if same_text(event.as_str(), "pull_request") {
                        let_through(pull_request, base.as_str())
                    } else if same_text(event.as_str(), "push") {
                        let_through(push, base.as_str())
                    } else {
                        true
                    };
                    if through {
                        TriggerDecision::Run
                    } else {
                        TriggerDecision::Skip
                    }
                },
            }
        },
        (None, None) => TriggerDecision::Run,
        _ => TriggerDecision::SetTogether,
    }
}

/// What is said where a pipeline is refused.
pub open spec fn refusal(d: TriggerDecision) -> Option<Seq<char>> {
    match d {
        TriggerDecision::SetTogether => Some(
            "KATOA_GIT_EVENT and KATOA_BASE_REF must be set together"@,
        ),
        TriggerDecision::Unimplemented => Some("TypeScript trigger functions are unimplemented"@),
        _ => None,
    }
}

impl TriggerDecision {
    /// What is said where a pipeline is refused; nothing where it is run or skipped.
    pub fn message(&self) -> (s: Option<String>)
        ensures
            opt_text(s) == refusal(*self),
    {
        match self {
            TriggerDecision::SetTogether => Some(
                "KATOA_GIT_EVENT and KATOA_BASE_REF must be set together".to_owned(),
            ),
            TriggerDecision::Unimplemented => Some(
                "TypeScript trigger functions are unimplemented".to_owned(),
            ),
            _ => None,
        }
    }
}

/// How a list of texts is shown: what `{:?}` of std makes of it.
pub uninterp spec fn shown_list(list: Seq<Seq<char>>) -> Seq<char>;

/// The `Debug` of a list of strings of std, formatted with `{:?}`. The result is a function of the
/// texts; how they are quoted is not said.
#[verifier::external_body]
fn show_list(list: &Vec<String>) -> (s: String)
    ensures
        s@ == shown_list(texts(list@)),
{
    format!("{:?}", list)
}

/// What is said of a pipeline that is skipped, where `branches` shows the branches that the event is
/// limited to.
pub open spec fn skip_text(base: Seq<char>, event: Seq<char>, branches: Seq<char>) -> Seq<char> {
    "Skipping pipeline because branch "@ + bold_text(base) + " is not in "@ + bold_text(event)
        + ": Some(Branches { branches: "@ + branches + " })"@
}

/// What is said of a pipeline that is skipped, where `branches` shows the branches that the event is
/// limited to.
pub fn skip_message(base: &str, event: &str, branches: &str) -> (s: String)
    ensures
        s@ == skip_text(base@, event@, branches@),
{
    let start = concat3("Skipping pipeline because branch ", bold(base).as_str(), " is not in ");
    let middle = concat3(start.as_str(), bold(event).as_str(), ": Some(Branches { branches: ");
    concat3(middle.as_str(), branches, " })")
}

/// What is said where a git event does not start a pipeline; nothing where it does.
pub open spec fn skip_notice_text(
    on: Option<Trigger>,
    git_event: Option<Seq<char>>,
    base_ref: Option<Seq<char>>,
) -> Option<Seq<char>> {
    match (on, git_event, base_ref) {
        (
            Some(Trigger::Options { push, pull_request }),
            Some(event),
            Some(base),
        ) => match branch_limit(push, pull_request, event) {
            Some(branches) => if branches.contains(base) {
                None
            } else {
                Some(skip_text(base, event, shown_list(branches)))
            },
            None => None,
        },
        _ => None,
    }
}

/// What is said where a git event does not start a pipeline, which is skipped then.
pub fn skip_notice(
    on: &Option<Trigger>,
    git_event: &Option<String>,
    base_ref: &Option<String>,
) -> (s: Option<String>)
    ensures
        opt_text(s) == skip_notice_text(*on, opt_text(*git_event), opt_text(*base_ref)),
        s is Some <==> decision(*on, opt_text(*git_event), opt_text(*base_ref)) is Skip,
{
    match (on, git_event, base_ref) {
        (Some(Trigger::Options { push, pull_request }), Some(event), Some(base)) => {
            let limit = if same_text(event.as_str(), "pull_request") {
                pull_request
            } else if same_text(event.as_str(), "push") {
                push
            } else {
                &None
            };
            match limit {
                Some(TriggerOn::Branches { branches }) => {
                    if list_has(branches, base.as_str()) {
                        None
                    } else {
                        Some(
                            skip_message(
                                base.as_str(),
                                event.as_str(),
                                show_list(branches).as_str(),
                            ),
                        )
                    }
                },
                None => None,
            }
        },
        _ => None,
    }
}

/// A pipeline is skipped only on a push or a pull request, and only where it limits that event to
/// branches that the event's branch is not one of.
pub proof fn law_skip_needs_a_limit(
    on: Option<Trigger>,
    git_event: Option<Seq<char>>,
    base_ref: Option<Seq<char>>,
)
    ensures
        decision(on, git_event, base_ref) is Skip <==> (git_event is Some && base_ref is Some && (
        on matches Some(Trigger::Options { push, pull_request }) && (branch_limit(
            push,
            pull_request,
            git_event->0,
        ) matches Some(branches) && !branches.contains(base_ref->0)))),
        decision(on, git_event, base_ref) is Skip ==> git_event == Some("push"@) || git_event
            == Some("pull_request"@),
{
}

/// Each kind of event goes by its own limit and by nothing else. A pull request is skipped exactly if
/// pull requests are limited to branches that the base branch is none of, whatever holds of pushes;
/// a push likewise; and an event of any other kind never is. What is not skipped is run.
pub proof fn law_each_event_has_its_own_limit(
    push: Option<TriggerOn>,
    pull_request: Option<TriggerOn>,
    event: Seq<char>,
    base: Seq<char>,
)
    ensures
        ({
            let on = Some(Trigger::Options { push, pull_request });
            let asked = decision(on, Some("pull_request"@), Some(base));
            let pushed = decision(on, Some("push"@), Some(base));
            &&& asked is Skip || asked is Run
            &&& pushed is Skip || pushed is Run
            &&& pull_request is None ==> asked is Run
            &&& push is None ==> pushed is Run
            &&& pull_request matches Some(TriggerOn::Branches { branches }) ==> (asked is Run
                <==> exists|i: int| 0 <= i < branches@.len() && (#[trigger] branches@[i])@ == base)
            &&& push matches Some(TriggerOn::Branches { branches }) ==> (pushed is Run
                <==> exists|i: int| 0 <= i < branches@.len() && (#[trigger] branches@[i])@ == base)
            &&& event != "push"@ && event != "pull_request"@ ==> decision(
                on,
                Some(event),
                Some(base),
            ) is Run
        }),
{
    law_two_events();
    lemma_shuts_out(push, base);
    lemma_shuts_out(pull_request, base);
}

/// The two variables that tell of an event come together or not at all, whatever the trigger; and a
/// trigger that is a function is refused on every event.
pub proof fn law_variables_come_together(on: Option<Trigger>, event: Seq<char>, base: Seq<char>)
    ensures
        decision(on, Some(event), None) is SetTogether,
        decision(on, None, Some(base)) is SetTogether,
        decision(on, None, None) is Run,
        decision(None, Some(event), Some(base)) is Run,
        decision(Some(Trigger::DenoFunction), Some(event), Some(base)) is Unimplemented,
{
}

/// What is said of a pipeline that is skipped names the branch, the event, and the branches of the
/// limit on that event.
pub proof fn law_skip_is_explained(
    push: Option<TriggerOn>,
    pull_request: Option<TriggerOn>,
    event: Seq<char>,
    base: Seq<char>,
)
    ensures
        ({
            let on = Some(Trigger::Options { push, pull_request });
            let said = skip_notice_text(on, Some(event), Some(base));
            &&& said is Some <==> decision(on, Some(event), Some(base)) is Skip
            &&& event == "push"@ ==> (said matches Some(text) ==> (push matches Some(
                TriggerOn::Branches { branches },
            ) && text == "Skipping pipeline because branch "@ + bold_text(base) + " is not in "@
                + bold_text("push"@) + ": Some(Branches { branches: "@ + shown_list(
                texts(branches@),
            ) + " })"@))
            &&& event == "pull_request"@ ==> (said matches Some(text) ==> (pull_request matches Some(
                TriggerOn::Branches { branches },
            ) && text == "Skipping pipeline because branch "@ + bold_text(base) + " is not in "@
                + bold_text("pull_request"@) + ": Some(Branches { branches: "@ + shown_list(
                texts(branches@),
            ) + " })"@))
        }),
{
    law_two_events();
}

/// Outside of a git event every pipeline is run, and so is one that names no trigger.
pub proof fn law_no_event_runs(
    on: Option<Trigger>,
    git_event: Option<Seq<char>>,
    base_ref: Option<Seq<char>>,
)
    ensures
        decision(on, None, None) is Run,
        git_event is Some == base_ref is Some ==> decision(None, git_event, base_ref) is Run,
{
}

} // verus!
