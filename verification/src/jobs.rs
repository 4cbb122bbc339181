//! Running the jobs of a pipeline, group by group.

use vstd::prelude::*;
use crate::dag::{
    Node, NodeView, law_dependencies_come_first, law_each_job_runs_once, run_groups,
};
use crate::pipeline::{Job, OnFail};
use crate::text::{concat2, concat3};

verus! {

/// What a map of jobs holds: for each job's name its place in the pipeline.
pub uninterp spec fn places_of(places: ahash::HashMap<u128, usize>) -> Map<u128, usize>;

/// `HashMapExt::new` of ahash, for a map of jobs: a map that holds nothing.
#[verifier::external_body]
fn places_new() -> (places: ahash::HashMap<u128, usize>)
    ensures
        forall|uuid: u128| !places_of(places).contains_key(uuid),
{
    ahash::HashMapExt::new()
}

/// `insert` of a map of ahash: the map holds the place under the name, in the stead of any that it
/// held there, and what it held under other names.
#[verifier::external_body]
fn places_insert(places: &mut ahash::HashMap<u128, usize>, uuid: u128, place: usize)
    ensures
        places_of(*final(places)) == places_of(*old(places)).insert(uuid, place),
{
    places.insert(uuid, place);
}

/// `remove` of a map of ahash: what the map held under a name, if anything, which it then no
/// longer does; what it held under other names stays.
#[verifier::external_body]
fn places_remove(places: &mut ahash::HashMap<u128, usize>, uuid: u128) -> (place: Option<usize>)
    ensures
        places_of(*final(places)) == places_of(*old(places)).remove(uuid),
        place is Some == places_of(*old(places)).contains_key(uuid),
        place is Some ==> place == Some(places_of(*old(places))[uuid]),
{
    places.remove(&uuid)
}

/// The names in `uuids` are those of the map, each once, and `list` holds their places in the same
/// order.
pub open spec fn walks(places: Map<u128, usize>, uuids: Seq<u128>, list: Seq<usize>) -> bool {
    &&& uuids.len() == list.len()
    &&& uuids.no_duplicates()
    &&& forall|uuid: u128| #[trigger] places.contains_key(uuid) <==> uuids.contains(uuid)
    &&& forall|i: int| 0 <= i < list.len() ==> #[trigger] list[i] == places[uuids[i]]
}

/// `values` of a map of ahash: the places that the map holds, one for each name, in an order of
/// which nothing is said.
#[verifier::external_body]
fn places_values(places: &ahash::HashMap<u128, usize>) -> (list: Vec<usize>)
    ensures
        exists|uuids: Seq<u128>| walks(places_of(*places), uuids, list@),
{
    places.values().copied().collect()
}

/// For each name the place of the job that bears it, the last one where several do.
pub open spec fn job_places(jobs: Seq<Job>) -> Map<u128, usize>
    decreases jobs.len(),
{
    if jobs.len() == 0 {
        Map::empty()
    } else {
        job_places(jobs.drop_last()).insert(jobs.last().uuid, (jobs.len() - 1) as usize)
    }
}

/// The jobs that have not been started, by name.
pub struct JobTable {
    places: ahash::HashMap<u128, usize>,
}

impl View for JobTable {
    type V = Map<u128, usize>;

    closed spec fn view(&self) -> Map<u128, usize> {
        places_of(self.places)
    }
}

/// Each name leads to a job that bears it.
pub open spec fn table_inv(table: Map<u128, usize>, jobs: Seq<Job>) -> bool {
    forall|uuid: u128| #[trigger]
        table.contains_key(uuid) ==> table[uuid] < jobs.len() && jobs[table[uuid] as int].uuid
            == uuid
}

/// The table of all jobs leads from each job's name to the last job that bears it, and knows no
/// other name. A name that no other job bears leads to the very job.
pub proof fn law_table_of_jobs(jobs: Seq<Job>)
    requires
        jobs.len() <= usize::MAX,
    ensures
        table_inv(job_places(jobs), jobs),
        forall|uuid: u128| #[trigger]
            job_places(jobs).contains_key(uuid) ==> job_places(jobs)[uuid] < jobs.len()
                && jobs[job_places(jobs)[uuid] as int].uuid == uuid && (forall|j: int|
                job_places(jobs)[uuid] < j < jobs.len() ==> (#[trigger] jobs[j]).uuid != uuid),
        forall|i: int| 0 <= i < jobs.len() ==> job_places(jobs).contains_key((#[trigger] jobs[i]).uuid),
        forall|i: int|
            0 <= i < jobs.len() && (forall|j: int|
                0 <= j < jobs.len() && j != i ==> (#[trigger] jobs[j]).uuid != jobs[i].uuid)
                ==> job_places(jobs)[(#[trigger] jobs[i]).uuid] == i,
    decreases jobs.len(),
{
    if jobs.len() > 0 {
        let less = jobs.drop_last();
        law_table_of_jobs(less);
        assert forall|uuid: u128| #[trigger] job_places(jobs).contains_key(uuid) implies job_places(
            jobs,
        )[uuid] < jobs.len() && jobs[job_places(jobs)[uuid] as int].uuid == uuid && (forall|j: int|
            job_places(jobs)[uuid] < j < jobs.len() ==> (#[trigger] jobs[j]).uuid != uuid) by {
            if uuid != jobs.last().uuid {
                assert(job_places(less).contains_key(uuid));
                assert forall|j: int| job_places(jobs)[uuid] < j < jobs.len() implies (
                #[trigger] jobs[j]).uuid != uuid by {
                    if j < less.len() {
                        assert(less[j] == jobs[j]);
                    }
                }
            }
        }
        assert forall|i: int| 0 <= i < jobs.len() implies job_places(jobs).contains_key(
            (#[trigger] jobs[i]).uuid,
        ) by {
            if i < less.len() {
                assert(less[i] == jobs[i]);
            }
        }
        assert forall|i: int|
            0 <= i < jobs.len() && (forall|j: int|
                0 <= j < jobs.len() && j != i ==> (#[trigger] jobs[j]).uuid
                    != jobs[i].uuid) implies job_places(jobs)[(#[trigger] jobs[i]).uuid] == i by {
            if i < less.len() {
                assert(less[i] == jobs[i]);
                assert(jobs[jobs.len() - 1].uuid != jobs[i].uuid);
                assert forall|j: int| 0 <= j < less.len() && j != i implies (
                #[trigger] less[j]).uuid != less[i].uuid by {
                    assert(less[j] == jobs[j]);
                }
            }
        }
    }
}

/// The node of a job.
pub open spec fn job_node(job: Job) -> NodeView {
    NodeView { uuid: job.uuid, depends_on: job.depends_on@ }
}

/// A list of numbers, copied.
fn copy_uuids(list: &Vec<u128>) -> (copy: Vec<u128>)
    ensures
        copy@ == list@,
{
    let mut out: Vec<u128> = Vec::new();
    let mut i: usize = 0;
    while i < list.len()
        invariant
            i <= list@.len(),
            out@ == list@.take(i as int),
        decreases list@.len() - i,
    {
        out.push(list[i]);
        assert(list@.take(i + 1) =~= list@.take(i as int).push(list@[i as int]));
        i += 1;
    }
    assert(list@.take(list@.len() as int) =~= list@);
    out
}

/// One job more adds its place.
proof fn lemma_one_more_place(jobs: Seq<Job>, i: int)
    requires
        0 <= i < jobs.len(),
    ensures
        job_places(jobs.take(i + 1)) == job_places(jobs.take(i)).insert(jobs[i].uuid, i as usize),
{
    assert(jobs.take(i + 1).drop_last() =~= jobs.take(i));
    assert(jobs.take(i + 1).last() == jobs[i]);
}

/// The map of all jobs of a pipeline.
#[verifier::spinoff_prover]
fn all_places(jobs: &Vec<Job>) -> (places: ahash::HashMap<u128, usize>)
    ensures
        jobs@.len() <= usize::MAX,
        places_of(places) == job_places(jobs@),
{
    let mut places = places_new();
    let mut i: usize = 0;
    assert(places_of(places) =~= job_places(jobs@.take(0)));
    while i < jobs.len()
        invariant
            i <= jobs@.len(),
            places_of(places) == job_places(jobs@.take(i as int)),
        decreases jobs@.len() - i,
    {
        proof {
            lemma_one_more_place(jobs@, i as int);
        }
        places_insert(&mut places, jobs[i].uuid, i);
        i += 1;
    }
    assert(jobs@.take(jobs@.len() as int) =~= jobs@);
    places
}

impl JobTable {
    /// The table of all jobs of a pipeline.
    #[verifier::spinoff_prover]
    pub fn new(jobs: &Vec<Job>) -> (table: JobTable)
        ensures
            table@ == job_places(jobs@),
            table_inv(table@, jobs@),
    {
        let places = all_places(jobs);
        proof {
            law_table_of_jobs(jobs@);
        }
        JobTable { places }
    }

    /// The nodes of the jobs in the table: one for each name, in any order.
    pub fn nodes(&self, jobs: &Vec<Job>) -> (nodes: Vec<Node>)
        requires
            table_inv(self@, jobs@),
        ensures
            forall|i: int|
                0 <= i < nodes@.len() ==> self@.contains_key((#[trigger] nodes@[i]).uuid)
                    && nodes@[i]@ == job_node(jobs@[self@[nodes@[i].uuid] as int]),
            forall|i: int|
                0 <= i < nodes@.len() ==> (#[trigger] nodes@[i]).depends_on@
                    == jobs@[self@[nodes@[i].uuid] as int].depends_on@
                    && jobs@[self@[nodes@[i].uuid] as int].uuid == nodes@[i].uuid,
            forall|uuid: u128| #[trigger]
                self@.contains_key(uuid) ==> exists|i: int|
                    0 <= i < nodes@.len() && (#[trigger] nodes@[i]).uuid == uuid,
            forall|a: int, b: int|
                0 <= a < b < nodes@.len() ==> (#[trigger] nodes@[a]).uuid != (
                #[trigger] nodes@[b]).uuid,
    {
        let list = places_values(&self.places);
        let ghost uuids = choose|uuids: Seq<u128>| walks(places_of(self.places), uuids, list@);
        let mut out: Vec<Node> = Vec::new();
        let mut i: usize = 0;
        while i < list.len()
            invariant
                i <= list@.len(),
                table_inv(self@, jobs@),
                self@ == places_of(self.places),
                walks(self@, uuids, list@),
                out@.len() == i,
                forall|k: int|
                    0 <= k < i ==> (#[trigger] out@[k]).uuid == uuids[k] && out@[k]@ == job_node(
                        jobs@[self@[uuids[k]] as int],
                    ),
            decreases list@.len() - i,
        {
            assert(list@[i as int] == self@[uuids[i as int]]);
            assert(uuids.contains(uuids[i as int]));
            assert(self@.contains_key(uuids[i as int]));
            let job = &jobs[list[i]];
            let node = Node { uuid: job.uuid, depends_on: copy_uuids(&job.depends_on) };
            out.push(node);
            i += 1;
        }
        proof {
            assert forall|k: int| 0 <= k < out@.len() implies self@.contains_key(
                (#[trigger] out@[k]).uuid,
            ) && out@[k]@ == job_node(jobs@[self@[out@[k].uuid] as int]) by {
                assert(uuids.contains(uuids[k]));
            }
            assert forall|uuid: u128| #[trigger] self@.contains_key(uuid) implies exists|k: int|
                0 <= k < out@.len() && (#[trigger] out@[k]).uuid == uuid by {
                assert(uuids.contains(uuid));
                let k = choose|k: int| 0 <= k < uuids.len() && uuids[k] == uuid;
                assert(out@[k].uuid == uuid);
            }
            assert forall|a: int, b: int| 0 <= a < b < out@.len() implies (#[trigger] out@[a]).uuid
                != (#[trigger] out@[b]).uuid by {
                assert(out@[a].uuid == uuids[a]);
                assert(out@[b].uuid == uuids[b]);
            }
        }
        out
    }

    /// The place of the job of this name, which leaves the table.
    pub fn take(&mut self, uuid: u128) -> (place: Option<usize>)
        ensures
            final(self)@ == old(self)@.remove(uuid),
            match place {
                Some(p) => old(self)@.contains_key(uuid) && p == old(self)@[uuid],
                None => !old(self)@.contains_key(uuid),
            },
    {
        places_remove(&mut self.places, uuid)
    }
}

/// How a job ended.
pub enum JobEnd {
    /// It was carried out, with success or without.
    Finished { long_name: String, status: String, success: bool, on_fail: Option<OnFail> },
    /// It could not be carried out, for the reason given.
    Broken(String),
}

/// How a job ended, with its texts.
pub enum JobEndView {
    Finished { long_name: Seq<char>, status: Seq<char>, success: bool, on_fail: Option<OnFail> },
    Broken(Seq<char>),
}

impl View for JobEnd {
    type V = JobEndView;

    open spec fn view(&self) -> JobEndView {
        match self {
            JobEnd::Finished { long_name, status, success, on_fail } => JobEndView::Finished {
                long_name: long_name@,
                status: status@,
                success: *success,
                on_fail: *on_fail,
            },
            JobEnd::Broken(s) => JobEndView::Broken(s@),
        }
    }
}

/// How loud a report is.
#[derive(Clone, Copy, PartialEq, Eq, Debug, Structural)]
pub enum Level {
    Info,
    Warn,
    Error,
}

/// What is said of a job that ended.
pub struct Report {
    pub level: Level,
    pub message: String,
}

/// What is said of a job, with its text.
pub struct ReportView {
    pub level: Level,
    pub message: Seq<char>,
}

impl View for Report {
    type V = ReportView;

    open spec fn view(&self) -> ReportView {
        ReportView { level: self.level, message: self.message@ }
    }
}

/// The end of a job stops the pipeline: it could not be carried out, or it failed and its failure
/// is not to be ignored.
pub open spec fn stops(end: JobEndView) -> bool {
    match end {
        JobEndView::Finished { long_name, status, success, on_fail } => !success && on_fail != Some(
            OnFail::Ignore,
        ),
        JobEndView::Broken(_) => true,
    }
}

/// What is said of the end of a job.
pub open spec fn report_of(end: JobEndView) -> ReportView {
    match end {
        JobEndView::Broken(message) => ReportView { level: Level::Error, message },
        JobEndView::Finished { long_name, status, success, on_fail } => if success {
            ReportView { level: Level::Info, message: long_name + " finished with status "@ + status }
        } else if on_fail == Some(OnFail::Ignore) {
            ReportView {
                level: Level::Warn,
                message: long_name + " failed with status "@ + status + " but was ignored"@,
            }
        } else {
            ReportView {
                level: Level::Error,
                message: "Build failed for "@ + long_name + " with status "@ + status,
            }
        },
    }
}

/// What is said of the end of a job, and whether it stops the pipeline.
pub fn judge(end: &JobEnd) -> (r: (Report, bool))
    ensures
        r.0@ == report_of(end@),
        r.1 == stops(end@),
        r.1 <==> match *end {
            JobEnd::Broken(_) => true,
            JobEnd::Finished { long_name, status, success, on_fail } => !success && on_fail != Some(
                OnFail::Ignore,
            ),
        },
        r.0.level == Level::Error <==> r.1,
{
    match end {
        JobEnd::Broken(message) => (Report { level: Level::Error, message: message.clone() }, true),
        JobEnd::Finished { long_name, status, success, on_fail } => {
            if *success {
                (
                    Report {
                        level: Level::Info,
                        message: concat3(
                            long_name.as_str(),
                            " finished with status ",
                            status.as_str(),
                        ),
                    },
                    false,
                )
            } else {
                match on_fail {
                    Some(OnFail::Ignore) => (
                        Report {
                            level: Level::Warn,
                            message: concat2(
                                concat3(
                                    long_name.as_str(),
                                    " failed with status ",
                                    status.as_str(),
                                ).as_str(),
                                " but was ignored",
                            ),
                        },
                        false,
                    ),
                    _ => (
                        Report {
                            level: Level::Error,
                            message: concat2(
                                concat3(
                                    "Build failed for ",
                                    long_name.as_str(),
                                    " with status ",
                                ).as_str(),
                                status.as_str(),
                            ),
                        },
                        true,
                    ),
                }
            }
        },
    }
}

/// The ends of the jobs of a group.
pub open spec fn ends_view(ends: Seq<JobEnd>) -> Seq<JobEndView> {
    ends.map_values(|e: JobEnd| e@)
}

/// The reports of a list.
pub open spec fn reports_view(reports: Seq<Report>) -> Seq<ReportView> {
    reports.map_values(|r: Report| r@)
}

/// How many of the jobs that ended are looked at: those up to the first that stops the pipeline.
pub open spec fn looked_at(ends: Seq<JobEndView>) -> nat
    decreases ends.len(),
{
    if ends.len() == 0 {
        0
    } else if stops(ends[0]) {
        1
    } else {
        1 + looked_at(ends.skip(1))
    }
}

/// Some job of the group stops the pipeline.
pub open spec fn group_stops(ends: Seq<JobEndView>) -> bool {
    exists|i: int| 0 <= i < ends.len() && stops(#[trigger] ends[i])
}

/// What is said of the end of a job, and whether it stops the pipeline: one that could not be carried
/// out does, with its reason as an error; one that succeeded does not, whatever its failure would
/// mean; one that failed does, as an error, unless its failure is ignored, which is a warning.
pub proof fn law_verdict(
    reason: Seq<char>,
    name: Seq<char>,
    status: Seq<char>,
    on_fail: Option<OnFail>,
)
    ensures
        stops(JobEndView::Broken(reason)),
        report_of(JobEndView::Broken(reason)).level == Level::Error,
        report_of(JobEndView::Broken(reason)).message == reason,
        ({
            let good = JobEndView::Finished { long_name: name, status, success: true, on_fail };
            let bad = JobEndView::Finished { long_name: name, status, success: false, on_fail };
            &&& !stops(good)
            &&& report_of(good).level == Level::Info
            &&& report_of(good).message == name + " finished with status "@ + status
            &&& stops(bad) <==> on_fail is None || on_fail == Some(OnFail::Stop)
            &&& on_fail == Some(OnFail::Ignore) ==> report_of(bad).level == Level::Warn
                && report_of(bad).message == name + " failed with status "@ + status
                + " but was ignored"@
            &&& on_fail != Some(OnFail::Ignore) ==> report_of(bad).level == Level::Error
                && report_of(bad).message == "Build failed for "@ + name + " with status "@ + status
        }),
{
    match on_fail {
        None => {},
        Some(OnFail::Ignore) => {},
        Some(OnFail::Stop) => {},
    }
}

/// A group stops the pipeline exactly if one of its jobs, be it the first or the last, could not be
/// carried out, or failed and its failure is not ignored. Two groups put together stop it exactly if
/// one of them does.
pub proof fn law_group_verdict(ends: Seq<JobEndView>, more: Seq<JobEndView>)
    ensures
        group_stops(ends) <==> exists|i: int|
            0 <= i < ends.len() && match #[trigger] ends[i] {
                JobEndView::Broken(_) => true,
                JobEndView::Finished { long_name, status, success, on_fail } => !success && on_fail
                    != Some(OnFail::Ignore),
            },
        group_stops(ends + more) <==> group_stops(ends) || group_stops(more),
        forall|end: JobEndView| group_stops(seq![end]) == #[trigger] stops(end),
{
    if group_stops(ends) {
        let i = choose|i: int| 0 <= i < ends.len() && stops(#[trigger] ends[i]);
        assert((ends + more)[i] == ends[i]);
    }
    if group_stops(more) {
        let i = choose|i: int| 0 <= i < more.len() && stops(#[trigger] more[i]);
        assert((ends + more)[ends.len() + i] == more[i]);
    }
    if group_stops(ends + more) {
        let i = choose|i: int| 0 <= i < (ends + more).len() && stops(#[trigger] (ends + more)[i]);
        if i < ends.len() {
            assert(stops(ends[i]));
        } else {
            assert(stops(more[i - ends.len()]));
        }
    }
    assert forall|end: JobEndView| group_stops(seq![end]) == #[trigger] stops(end) by {
        assert(seq![end][0] == end);
    }
}

/// A group is reported on job by job, in order, up to and with the first one that stops the pipeline,
/// and to its end where none does.
pub proof fn law_group_is_reported(ends: Seq<JobEndView>, n: int)
    requires
        0 <= n < ends.len(),
        forall|i: int| 0 <= i < n ==> !stops(#[trigger] ends[i]),
    ensures
        group_reports(ends).len() > n,
        group_reports(ends)[n] == report_of(ends[n]),
        stops(ends[n]) ==> group_reports(ends).len() == n + 1,
        n + 1 == ends.len() ==> group_reports(ends).len() == n + 1,
{
    law_looked_at(ends);
    if looked_at(ends) <= n {
        if group_stops(ends) {
            assert(stops(ends[looked_at(ends) - 1]));
        }
    }
    if stops(ends[n]) && looked_at(ends) > n + 1 {
        assert(!stops(ends[n]));
    }
}

/// The jobs that are looked at: all of them, unless one stops the pipeline; then that one is the
/// last.
pub proof fn law_looked_at(ends: Seq<JobEndView>)
    ensures
        looked_at(ends) <= ends.len(),
        forall|i: int| 0 <= i < looked_at(ends) - 1 ==> !stops(#[trigger] ends[i]),
        group_stops(ends) ==> looked_at(ends) > 0 && stops(ends[looked_at(ends) - 1]),
        !group_stops(ends) ==> looked_at(ends) == ends.len(),
    decreases ends.len(),
{
    if ends.len() > 0 && !stops(ends[0]) {
        let rest = ends.skip(1);
        law_looked_at(rest);
        assert forall|i: int| 0 <= i < looked_at(ends) - 1 implies !stops(#[trigger] ends[i]) by {
            if i > 0 {
                assert(rest[i - 1] == ends[i]);
            }
        }
        if group_stops(ends) {
            let i = choose|i: int| 0 <= i < ends.len() && stops(#[trigger] ends[i]);
            assert(rest[i - 1] == ends[i]);
            assert(group_stops(rest));
            assert(rest[looked_at(rest) - 1] == ends[looked_at(ends) - 1]);
        } else {
            if group_stops(rest) {
                let i = choose|i: int| 0 <= i < rest.len() && stops(#[trigger] rest[i]);
                assert(ends[i + 1] == rest[i]);
            }
        }
    }
}

/// The reports on the jobs that are looked at.
pub open spec fn group_reports(ends: Seq<JobEndView>) -> Seq<ReportView> {
    Seq::new(looked_at(ends), |i: int| report_of(ends[i]))
}

/// Looks at the jobs of a group, in order, up to the first that stops the pipeline: what is said of
/// them, and whether one does.
pub fn settle_group(ends: &Vec<JobEnd>) -> (r: (Vec<Report>, bool))
    ensures
        reports_view(r.0@) == group_reports(ends_view(ends@)),
        r.1 == group_stops(ends_view(ends@)),
        r.1 <==> exists|i: int|
            0 <= i < ends@.len() && match #[trigger] ends@[i] {
                JobEnd::Broken(_) => true,
                JobEnd::Finished { long_name, status, success, on_fail } => !success && on_fail
                    != Some(OnFail::Ignore),
            },
        !r.1 ==> r.0@.len() == ends@.len(),
{
    let ghost all = ends_view(ends@);
    let mut reports: Vec<Report> = Vec::new();
    let mut i: usize = 0;
    proof {
        law_looked_at(all);
        assert(all.skip(0) =~= all);
    }
    while i < ends.len()
        invariant
            i <= ends@.len(),
            all == ends_view(ends@),
            reports@.len() == i,
            forall|k: int| 0 <= k < i ==> (#[trigger] reports@[k])@ == report_of(all[k]),
            forall|k: int| 0 <= k < i ==> !stops(#[trigger] all[k]),
            looked_at(all) == i + looked_at(all.skip(i as int)),
        decreases ends@.len() - i,
    {
        assert(all[i as int] == ends@[i as int]@);
        assert(all.skip(i as int)[0] == all[i as int]);
        assert(all.skip(i as int).skip(1) =~= all.skip(i + 1));
        let (report, stop) = judge(&ends[i]);
        reports.push(report);
        if stop {
            assert(stops(all[i as int]));
            assert(reports_view(reports@) =~= group_reports(all));
            assert(group_stops(all));
            return (reports, true);
        }
        i += 1;
    }
    assert(reports_view(reports@) =~= group_reports(all));
    assert(forall|k: int| 0 <= k < ends@.len() ==> all[k] == (#[trigger] ends@[k])@);
    (reports, false)
}

/// Where the run of a pipeline stands.
pub enum RunState {
    /// The group at this place is to be run.
    Group(usize),
    /// The run is over, with this code.
    Exit(u8),
}

/// The run of a pipeline of `groups` groups, before any was run.
pub fn first_group(groups: usize) -> (state: RunState)
    ensures
        state == if groups > 0 {
            RunState::Group(0)
        } else {
            RunState::Exit(0)
        },
{
    if groups > 0 {
        RunState::Group(0)
    } else {
        RunState::Exit(0)
    }
}

/// Where the run goes once the group at `place` was run.
pub open spec fn after_group(groups: int, place: int, stop: bool) -> RunState {
    if stop {
        RunState::Exit(1)
    } else if place + 1 < groups {
        RunState::Group((place + 1) as usize)
    } else {
        RunState::Exit(0)
    }
}

/// Where the run of a pipeline goes once the group at `place` was run: to the next group, or to
/// the end, which is a failure if a job stopped the pipeline.
pub fn next_group(groups: usize, place: usize, stop: bool) -> (state: RunState)
    requires
        place < groups,
    ensures
        state == after_group(groups as int, place as int, stop),
{
    if stop {
        RunState::Exit(1)
    } else if place + 1 < groups {
        RunState::Group(place + 1)
    } else {
        RunState::Exit(0)
    }
}

/// How the run ends that goes on with the group at `place`, where `ends` are the ends of the jobs
/// of each group.
pub open spec fn run_from(ends: Seq<Seq<JobEndView>>, place: int) -> RunState
    decreases ends.len() - place,
{
    if 0 <= place < ends.len() {
        match after_group(ends.len() as int, place, group_stops(ends[place])) {
            RunState::Group(next) => run_from(ends, place + 1),
            RunState::Exit(code) => RunState::Exit(code),
        }
    } else {
        RunState::Exit(0)
    }
}

/// A run ends well if no job stops the pipeline, and ends badly otherwise.
pub proof fn law_exit_code(ends: Seq<Seq<JobEndView>>, place: int)
    requires
        0 <= place <= ends.len(),
    ensures
        run_from(ends, place) == RunState::Exit(1) <==> exists|g: int|
            place <= g < ends.len() && group_stops(#[trigger] ends[g]),
        run_from(ends, place) == RunState::Exit(0) || run_from(ends, place) == RunState::Exit(1),
    decreases ends.len() - place,
{
    if place < ends.len() && !group_stops(ends[place]) {
        law_exit_code(ends, place + 1);
    }
}

/// A run of some groups goes from each to the one right behind it, ends with 1 as soon as one stops
/// the pipeline, be it the last one, and ends with 0 behind the last one otherwise.
pub proof fn law_next_group(groups: int, place: int)
    requires
        0 <= place < groups <= usize::MAX,
    ensures
        after_group(groups, place, true) == RunState::Exit(1),
        place + 1 < groups ==> after_group(groups, place, false) == RunState::Group(
            (place + 1) as usize,
        ),
        place + 1 == groups ==> after_group(groups, place, false) == RunState::Exit(0),
{
}

/// A run leaves 1 behind exactly if some job of some group could not be carried out, or failed and
/// its failure is not ignored; otherwise it leaves 0 behind.
pub proof fn law_run_fails_with_a_job(ends: Seq<Seq<JobEndView>>)
    ensures
        run_from(ends, 0) == RunState::Exit(1) <==> exists|g: int, i: int|
            0 <= g < ends.len() && 0 <= i < ends[g].len() && match #[trigger] ends[g][i] {
                JobEndView::Broken(_) => true,
                JobEndView::Finished { long_name, status, success, on_fail } => !success && on_fail
                    != Some(OnFail::Ignore),
            },
        run_from(ends, 0) == RunState::Exit(0) || run_from(ends, 0) == RunState::Exit(1),
{
    law_exit_code(ends, 0);
    if exists|g: int| 0 <= g < ends.len() && group_stops(#[trigger] ends[g]) {
        let g = choose|g: int| 0 <= g < ends.len() && group_stops(#[trigger] ends[g]);
        let i = choose|i: int| 0 <= i < ends[g].len() && stops(#[trigger] ends[g][i]);
        assert(stops(ends[g][i]));
    }
    if exists|g: int, i: int|
        0 <= g < ends.len() && 0 <= i < ends[g].len() && match #[trigger] ends[g][i] {
            JobEndView::Broken(_) => true,
            JobEndView::Finished { long_name, status, success, on_fail } => !success && on_fail
                != Some(OnFail::Ignore),
        } {
        let (g, i) = choose|g: int, i: int|
            0 <= g < ends.len() && 0 <= i < ends[g].len() && match #[trigger] ends[g][i] {
                JobEndView::Broken(_) => true,
                JobEndView::Finished { long_name, status, success, on_fail } => !success && on_fail
                    != Some(OnFail::Ignore),
            };
        assert(stops(ends[g][i]));
        assert(group_stops(ends[g]));
    }
}

/// How many groups are run: those up to the first that stops the pipeline.
pub open spec fn groups_run(ends: Seq<Seq<JobEndView>>, place: int) -> int
    decreases ends.len() - place,
{
    if 0 <= place < ends.len() {
        match after_group(ends.len() as int, place, group_stops(ends[place])) {
            RunState::Group(next) => groups_run(ends, place + 1),
            RunState::Exit(code) => place + 1,
        }
    } else {
        place
    }
}

/// No group is run after one that stops the pipeline, and all are run if none does.
pub proof fn law_no_group_after_a_stop(ends: Seq<Seq<JobEndView>>, place: int)
    requires
        0 <= place <= ends.len(),
    ensures
        place <= groups_run(ends, place) <= ends.len(),
        forall|g: int| place <= g < groups_run(ends, place) - 1 ==> !group_stops(#[trigger] ends[g]),
        groups_run(ends, place) < ends.len() ==> groups_run(ends, place) > place && group_stops(
            ends[groups_run(ends, place) - 1],
        ),
    decreases ends.len() - place,
{
    if place < ends.len() && !group_stops(ends[place]) {
        law_no_group_after_a_stop(ends, place + 1);
    }
}

/// Every job that the order of a table's jobs names is in the table, so that it can be started.
pub proof fn law_ordered_jobs_are_known(
    table: Map<u128, usize>,
    nodes: Seq<NodeView>,
    groups: Seq<Seq<u128>>,
    g: int,
    j: int,
)
    requires
        forall|i: int| 0 <= i < nodes.len() ==> table.contains_key((#[trigger] nodes[i]).uuid),
        run_groups(nodes, groups),
        0 <= g < groups.len(),
        0 <= j < groups[g].len(),
    ensures
        table.contains_key(groups[g][j]),
{
    law_dependencies_come_first(nodes, groups, g, j);
}

/// A table from which the jobs of a list were taken, one after the other.
pub open spec fn taken(table: Map<u128, usize>, list: Seq<u128>) -> Map<u128, usize>
    decreases list.len(),
{
    if list.len() == 0 {
        table
    } else {
        taken(table, list.drop_last()).remove(list.last())
    }
}

/// The jobs of the first `g` groups, in order.
pub open spec fn jobs_of(groups: Seq<Seq<u128>>, g: int) -> Seq<u128>
    decreases g,
{
    if g <= 0 {
        Seq::empty()
    } else {
        jobs_of(groups, g - 1) + groups[g - 1]
    }
}

/// A table from which jobs were taken has the others, where they were.
proof fn lemma_taken(table: Map<u128, usize>, list: Seq<u128>, uuid: u128)
    requires
        table.contains_key(uuid),
        !list.contains(uuid),
    ensures
        taken(table, list).contains_key(uuid),
        taken(table, list)[uuid] == table[uuid],
    decreases list.len(),
{
    if list.len() > 0 {
        assert(list[list.len() - 1] == list.last());
        assert(!list.drop_last().contains(uuid)) by {
            if list.drop_last().contains(uuid) {
                let k = choose|k: int|
                    0 <= k < list.drop_last().len() && list.drop_last()[k] == uuid;
                assert(list[k] == uuid);
            }
        }
        lemma_taken(table, list.drop_last(), uuid);
    }
}

/// A job of the first groups stands in one of them.
proof fn lemma_jobs_of(groups: Seq<Seq<u128>>, g: int, p: int)
    requires
        0 <= g <= groups.len(),
        0 <= p < jobs_of(groups, g).len(),
    ensures
        exists|h: int, k: int|
            0 <= h < g && 0 <= k < groups[h].len() && #[trigger] groups[h][k] == jobs_of(
                groups,
                g,
            )[p],
    decreases g,
{
    if g > 0 {
        let less = jobs_of(groups, g - 1);
        if p < less.len() {
            lemma_jobs_of(groups, g - 1, p);
            let (h, k) = choose|h: int, k: int|
                0 <= h < g - 1 && 0 <= k < groups[h].len() && #[trigger] groups[h][k] == less[p];
            assert(groups[h][k] == jobs_of(groups, g)[p]);
        } else {
            assert(groups[g - 1][p - less.len()] == jobs_of(groups, g)[p]);
        }
    }
}

/// A table from which jobs were taken has exactly the others, where they were.
pub proof fn law_taken_jobs_are_gone(table: Map<u128, usize>, list: Seq<u128>, uuid: u128)
    ensures
        taken(table, list).contains_key(uuid) <==> table.contains_key(uuid) && !list.contains(uuid),
        taken(table, list).contains_key(uuid) ==> taken(table, list)[uuid] == table[uuid],
    decreases list.len(),
{
    if list.len() > 0 {
        let less = list.drop_last();
        law_taken_jobs_are_gone(table, less, uuid);
        assert(list[list.len() - 1] == list.last());
        if list.contains(uuid) && uuid != list.last() {
            let k = choose|k: int| 0 <= k < list.len() && list[k] == uuid;
            assert(less[k] == uuid);
        }
        if less.contains(uuid) {
            let k = choose|k: int| 0 <= k < less.len() && less[k] == uuid;
            assert(list[k] == uuid);
        }
    }
}

/// While the groups are run one after the other, and the jobs of each are taken from the table in
/// order, every job is still there when its turn comes, at the place where it always was.
pub proof fn law_each_job_is_still_there(
    table: Map<u128, usize>,
    nodes: Seq<NodeView>,
    groups: Seq<Seq<u128>>,
    g: int,
    j: int,
)
    requires
        forall|i: int| 0 <= i < nodes.len() ==> table.contains_key((#[trigger] nodes[i]).uuid),
        forall|a: int, b: int|
            0 <= a < b < nodes.len() ==> (#[trigger] nodes[a]).uuid != (#[trigger] nodes[b]).uuid,
        run_groups(nodes, groups),
        0 <= g < groups.len(),
        0 <= j < groups[g].len(),
    ensures
        taken(table, jobs_of(groups, g) + groups[g].take(j)).contains_key(groups[g][j]),
        taken(table, jobs_of(groups, g) + groups[g].take(j))[groups[g][j]] == table[groups[g][j]],
{
    let uuid = groups[g][j];
    let earlier = jobs_of(groups, g);
    let before = earlier + groups[g].take(j);
    law_ordered_jobs_are_known(table, nodes, groups, g, j);
    if before.contains(uuid) {
        let p = choose|p: int| 0 <= p < before.len() && before[p] == uuid;
        if p < earlier.len() {
            lemma_jobs_of(groups, g, p);
            let (h, k) = choose|h: int, k: int|
                0 <= h < g && 0 <= k < groups[h].len() && #[trigger] groups[h][k] == earlier[p];
            law_each_job_runs_once(nodes, groups, h, k, g, j);
        } else {
            let k = p - earlier.len();
            assert(groups[g].take(j)[k] == groups[g][k]);
            law_each_job_runs_once(nodes, groups, g, k, g, j);
        }
    }
    lemma_taken(table, before, uuid);
}

/// The ends of jobs and the reports on them are seen as they are, in order, with their texts.
pub proof fn law_ends_are_seen(
    long_name: String,
    status: String,
    success: bool,
    on_fail: Option<OnFail>,
    ends: Seq<JobEnd>,
    reports: Seq<Report>,
)
    ensures
        JobEnd::Broken(status)@ == JobEndView::Broken(status@),
        (JobEnd::Finished { long_name, status, success, on_fail })@ == (JobEndView::Finished {
            long_name: long_name@,
            status: status@,
            success,
            on_fail,
        }),
        ends_view(ends).len() == ends.len(),
        forall|i: int| 0 <= i < ends.len() ==> #[trigger] ends_view(ends)[i] == ends[i]@,
        reports_view(reports).len() == reports.len(),
        forall|i: int|
            0 <= i < reports.len() ==> (#[trigger] reports_view(reports)[i]).level
                == reports[i].level && reports_view(reports)[i].message == reports[i].message@,
{
}

} // verus!
