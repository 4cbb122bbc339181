//! Finding the `.katoa` directory of a project, and the file of a pipeline.
//!
//! Both searches ask about the file system and go by the answers. A search is a value that says
//! what it waits for; the answer takes it to the next one.

use vstd::prelude::*;
use crate::paths::{FilePath, PartView, PathView, child, joined, name_of, parent_of, with_ext};

verus! {

/// The entry of a directory that makes it a project.
pub open spec fn katoa_dir_of(at: PathView) -> PathView {
    child(at, ".katoa"@)
}

/// The search for the `.katoa` directory.
pub enum DirSearch {
    /// Does this directory have an entry `.katoa`?
    Probe(FilePath),
    /// The `.katoa` directory.
    Found(FilePath),
    /// No directory up to the root has one.
    Missing,
}

/// A state of the search, with the paths that it holds.
pub enum SearchView {
    Probe(PathView),
    Found(PathView),
    Missing,
}

impl View for DirSearch {
    type V = SearchView;

    open spec fn view(&self) -> SearchView {
        match self {
            DirSearch::Probe(p) => SearchView::Probe(p@),
            DirSearch::Found(p) => SearchView::Found(p@),
            DirSearch::Missing => SearchView::Missing,
        }
    }
}

/// Where the search goes once it is known whether the directory `at` has a `.katoa`: to the end, or
/// one directory up.
pub open spec fn search_step(at: PathView, present: bool) -> SearchView {
    if present {
        SearchView::Found(katoa_dir_of(at))
    } else {
        match parent_of(at) {
            Some(up) => SearchView::Probe(up),
            None => SearchView::Missing,
        }
    }
}

/// The path that the search asks about while it stands at a directory.
pub fn katoa_dir_in(at: &FilePath) -> (path: FilePath)
    ensures
        path@ == katoa_dir_of(at@),
{
    at.child(".katoa")
}

/// One step of the search for the `.katoa` directory, which starts at the current directory:
/// `present` says whether the directory `at` has an entry of that name.
pub fn resolve_katoa_dir(at: FilePath, present: bool) -> (next: DirSearch)
    ensures
        next@ == search_step(at@, present),
{
    if present {
        return DirSearch::Found(katoa_dir_in(&at));
    }
    match at.parent() {
        Some(up) => DirSearch::Probe(up),
        None => DirSearch::Missing,
    }
}

/// What the whole search from `at` finds, where `present` says which paths exist.
pub open spec fn search(at: PathView, present: spec_fn(PathView) -> bool) -> Option<PathView>
    decreases at.len(),
{
    match search_step(at, present(katoa_dir_of(at))) {
        SearchView::Found(dir) => Some(dir),
        SearchView::Probe(up) => if up.len() < at.len() {
            search(up, present)
        } else {
            None
        },
        SearchView::Missing => None,
    }
}

/// The directory `levels` above `at`.
pub open spec fn ancestor(at: PathView, levels: nat) -> Option<PathView>
    decreases levels,
{
    if levels == 0 {
        Some(at)
    } else {
        match parent_of(at) {
            Some(up) => ancestor(up, (levels - 1) as nat),
            None => None,
        }
    }
}

/// The directory `levels` above `at` exists and has a `.katoa`.
pub open spec fn is_project(
    at: PathView,
    levels: nat,
    present: spec_fn(PathView) -> bool,
) -> bool {
    ancestor(at, levels) matches Some(dir) && present(katoa_dir_of(dir))
}

/// The search finds the `.katoa` of the nearest directory that has one, going up from `at`; it
/// finds none only if no directory above has one.
pub proof fn law_search_finds_nearest(at: PathView, present: spec_fn(PathView) -> bool)
    ensures
        match search(at, present) {
            Some(dir) => exists|levels: nat| #[trigger]
                is_project(at, levels, present) && dir == katoa_dir_of(ancestor(at, levels)->0) && (
                forall|nearer: nat| nearer < levels ==> !#[trigger] is_project(at, nearer, present)),
            None => forall|levels: nat| !#[trigger] is_project(at, levels, present),
        },
    decreases at.len(),
{
    if present(katoa_dir_of(at)) {
        assert(is_project(at, 0, present));
    } else {
        match parent_of(at) {
            Some(up) => {
                law_search_finds_nearest(up, present);
                assert forall|levels: nat| levels > 0 implies #[trigger] is_project(
                    at,
                    levels,
                    present,
                ) == is_project(up, (levels - 1) as nat, present) by {
                    assert(ancestor(at, levels) == ancestor(up, (levels - 1) as nat));
                }
                match search(up, present) {
                    Some(dir) => {
                        let levels = choose|levels: nat| #[trigger]
                            is_project(up, levels, present) && dir == katoa_dir_of(
                                ancestor(up, levels)->0,
                            ) && (forall|nearer: nat|
                                nearer < levels ==> !#[trigger] is_project(up, nearer, present));
                        assert(is_project(at, levels + 1, present));
                        assert(ancestor(at, levels + 1) == ancestor(up, levels));
                    },
                    None => {},
                }
            },
            None => {
                assert forall|levels: nat| !#[trigger] is_project(at, levels, present) by {
                    if levels > 0 {
                        assert(ancestor(at, levels) is None);
                    }
                }
            },
        }
    }
}

/// Why a pipeline was not found.
pub enum LookupError {
    /// The file is in no `.katoa` directory.
    OutsideKatoaDir,
    /// There is no `.katoa` directory.
    NoKatoaDir,
    /// The `.katoa` directory has no such pipeline.
    NoPipeline,
    /// The file system refused to answer, with its message.
    Io(String),
}

/// An error of a lookup, with its text.
pub enum LookupErrorView {
    OutsideKatoaDir,
    NoKatoaDir,
    NoPipeline,
    Io(Seq<char>),
}

impl View for LookupError {
    type V = LookupErrorView;

    open spec fn view(&self) -> LookupErrorView {
        match self {
            LookupError::OutsideKatoaDir => LookupErrorView::OutsideKatoaDir,
            LookupError::NoKatoaDir => LookupErrorView::NoKatoaDir,
            LookupError::NoPipeline => LookupErrorView::NoPipeline,
            LookupError::Io(s) => LookupErrorView::Io(s@),
        }
    }
}

/// What the user is told.
pub open spec fn lookup_message(error: LookupErrorView) -> Seq<char> {
    match error {
        LookupErrorView::OutsideKatoaDir => "Pipeline must be in the .katoa directory"@,
        LookupErrorView::NoKatoaDir => "Could not find .katoa directory"@,
        LookupErrorView::NoPipeline => "Could not find pipeline"@,
        LookupErrorView::Io(s) => s,
    }
}

impl LookupError {
    /// What the user is told.
    pub fn message(&self) -> (s: String)
        ensures
            s@ == lookup_message(self@),
    {
        match self {
            LookupError::OutsideKatoaDir => "Pipeline must be in the .katoa directory".to_owned(),
            LookupError::NoKatoaDir => "Could not find .katoa directory".to_owned(),
            LookupError::NoPipeline => "Could not find pipeline".to_owned(),
            LookupError::Io(s) => s.clone(),
        }
    }
}

/// The search for the `.katoa` directory, before any step: it starts at the current directory, and
/// cannot start where the system does not name that.
pub fn start_search(current_dir: Result<FilePath, String>) -> (start: Result<DirSearch, LookupError>)
    ensures
        match current_dir {
            Ok(at) => start matches Ok(s) && s@ == SearchView::Probe(at@),
            Err(reason) => start matches Err(e) && e@ == LookupErrorView::Io(reason@),
        },
{
    match current_dir {
        Ok(at) => Ok(DirSearch::Probe(at)),
        Err(reason) => Err(LookupError::Io(reason)),
    }
}

/// The lookup of a pipeline.
pub enum PipelineLookup {
    /// Is this path a file?
    IsFile(FilePath),
    /// What is the canonical form of this path?
    Canonical(FilePath),
    /// What is the current directory? The pipeline is kept for later.
    CurrentDir(FilePath),
    /// Does the directory `at` have an entry `.katoa`?
    Search { pipeline: FilePath, at: FilePath },
    /// Does this path exist?
    Exists(FilePath),
    /// The file of the pipeline.
    Done(FilePath),
    /// There is none.
    Failed(LookupError),
}

/// A state of the lookup, with the paths that it holds.
pub enum LookupView {
    IsFile(PathView),
    Canonical(PathView),
    CurrentDir(PathView),
    Search { pipeline: PathView, at: PathView },
    Exists(PathView),
    Done(PathView),
    Failed(LookupErrorView),
}

impl View for PipelineLookup {
    type V = LookupView;

    open spec fn view(&self) -> LookupView {
        match self {
            PipelineLookup::IsFile(p) => LookupView::IsFile(p@),
            PipelineLookup::Canonical(p) => LookupView::Canonical(p@),
            PipelineLookup::CurrentDir(p) => LookupView::CurrentDir(p@),
            PipelineLookup::Search { pipeline, at } => LookupView::Search {
                pipeline: pipeline@,
                at: at@,
            },
            PipelineLookup::Exists(p) => LookupView::Exists(p@),
            PipelineLookup::Done(p) => LookupView::Done(p@),
            PipelineLookup::Failed(e) => LookupView::Failed(e@),
        }
    }
}

/// An answer of the file system.
pub enum LookupEvent {
    /// Yes or no.
    Answer(bool),
    /// The path that was asked for.
    Path(FilePath),
    /// The question could not be answered, for the reason given.
    Refused(String),
}

/// An answer, with the path or the text that it holds.
pub enum EventView {
    Answer(bool),
    Path(PathView),
    Refused(Seq<char>),
}

impl View for LookupEvent {
    type V = EventView;

    open spec fn view(&self) -> EventView {
        match self {
            LookupEvent::Answer(b) => EventView::Answer(*b),
            LookupEvent::Path(p) => EventView::Path(p@),
            LookupEvent::Refused(s) => EventView::Refused(s@),
        }
    }
}

/// The event answers what the state asks. A path that is a file has a parent.
pub open spec fn answers(state: LookupView, event: EventView) -> bool {
    match state {
        LookupView::IsFile(p) => event matches EventView::Answer(yes) && (yes ==> parent_of(
            p,
        ) is Some),
        LookupView::Canonical(_) => !(event is Answer),
        LookupView::CurrentDir(_) => !(event is Answer),
        LookupView::Search { pipeline, at } => event is Answer,
        LookupView::Exists(_) => event is Answer,
        LookupView::Done(_) => false,
        LookupView::Failed(_) => false,
    }
}

/// The file that a pipeline's name stands for, in a `.katoa` directory.
pub open spec fn pipeline_file(dir: PathView, pipeline: PathView) -> PathView {
    with_ext(joined(dir, pipeline), "ts"@)
}

/// Where an answer takes the lookup.
pub open spec fn lookup_step(state: LookupView, event: EventView) -> LookupView {
    match (state, event) {
        (LookupView::IsFile(p), EventView::Answer(true)) => if name_of(parent_of(p)->0) == Some(
            ".katoa"@,
        ) {
            LookupView::Canonical(p)
        } else {
            LookupView::Failed(LookupErrorView::OutsideKatoaDir)
        },
        (LookupView::IsFile(p), EventView::Answer(false)) => LookupView::CurrentDir(p),
        (LookupView::Canonical(_), EventView::Path(q)) => LookupView::Done(q),
        (LookupView::CurrentDir(p), EventView::Path(at)) => LookupView::Search { pipeline: p, at },
        (LookupView::Search { pipeline, at }, EventView::Answer(present)) => match search_step(
            at,
            present,
        ) {
            SearchView::Found(dir) => LookupView::Exists(pipeline_file(dir, pipeline)),
            SearchView::Probe(up) => LookupView::Search { pipeline, at: up },
            SearchView::Missing => LookupView::Failed(LookupErrorView::NoKatoaDir),
        },
        (LookupView::Exists(p), EventView::Answer(true)) => LookupView::Done(p),
        (LookupView::Exists(p), EventView::Answer(false)) => LookupView::Failed(
            LookupErrorView::NoPipeline,
        ),
        (_, EventView::Refused(s)) => LookupView::Failed(LookupErrorView::Io(s)),
        _ => state,
    }
}

/// One step of the lookup of a pipeline, which starts at `IsFile` with what the user gave: a file
/// in a `.katoa` directory, or the name of a pipeline in the nearest one.
pub fn resolve_pipeline(state: PipelineLookup, event: LookupEvent) -> (next: PipelineLookup)
    requires
        answers(state@, event@),
    ensures
        next@ == lookup_step(state@, event@),
{
    match (state, event) {
        (PipelineLookup::IsFile(p), LookupEvent::Answer(true)) => {
            match p.parent() {
                Some(dir) => {
                    if dir.ends_with(".katoa") {
                        PipelineLookup::Canonical(p)
                    } else {
                        PipelineLookup::Failed(LookupError::OutsideKatoaDir)
                    }
                },
                None => PipelineLookup::Failed(LookupError::OutsideKatoaDir),
            }
        },
        (PipelineLookup::IsFile(p), LookupEvent::Answer(false)) => PipelineLookup::CurrentDir(p),
        (PipelineLookup::Canonical(_), LookupEvent::Path(q)) => PipelineLookup::Done(q),
        (PipelineLookup::CurrentDir(p), LookupEvent::Path(at)) => PipelineLookup::Search {
            pipeline: p,
            at,
        },
        (PipelineLookup::Search { pipeline, at }, LookupEvent::Answer(present)) => {
            match resolve_katoa_dir(at, present) {
                DirSearch::Found(dir) => PipelineLookup::Exists(
                    dir.join(&pipeline).with_extension("ts"),
                ),
                DirSearch::Probe(up) => PipelineLookup::Search { pipeline, at: up },
                DirSearch::Missing => PipelineLookup::Failed(LookupError::NoKatoaDir),
            }
        },
        (PipelineLookup::Exists(p), LookupEvent::Answer(true)) => PipelineLookup::Done(p),
        (PipelineLookup::Exists(_), LookupEvent::Answer(false)) => PipelineLookup::Failed(
            LookupError::NoPipeline,
        ),
        (_, LookupEvent::Refused(s)) => PipelineLookup::Failed(LookupError::Io(s)),
        (state, _) => state,
    }
}

/// A file system that stays as it is while a lookup goes on: its answers.
pub struct Disk {
    pub is_file: spec_fn(PathView) -> bool,
    pub exists: spec_fn(PathView) -> bool,
    pub canonical: spec_fn(PathView) -> Result<PathView, Seq<char>>,
    pub current_dir: Result<PathView, Seq<char>>,
}

/// A path as an answer, or the reason why there is none.
pub open spec fn path_event(r: Result<PathView, Seq<char>>) -> EventView {
    match r {
        Ok(p) => EventView::Path(p),
        Err(s) => EventView::Refused(s),
    }
}

/// What a file system answers in a state of the lookup.
pub open spec fn disk_answer(state: LookupView, disk: Disk) -> EventView {
    match state {
        LookupView::IsFile(p) => EventView::Answer((disk.is_file)(p)),
        LookupView::Canonical(p) => path_event((disk.canonical)(p)),
        LookupView::CurrentDir(_) => path_event(disk.current_dir),
        LookupView::Search { pipeline, at } => EventView::Answer((disk.exists)(katoa_dir_of(at))),
        LookupView::Exists(p) => EventView::Answer((disk.exists)(p)),
        _ => EventView::Answer(false),
    }
}

/// The state `steps` answers after `state`.
pub open spec fn lookup_run(state: LookupView, disk: Disk, steps: nat) -> LookupView
    decreases steps,
{
    if steps == 0 || state is Done || state is Failed {
        state
    } else {
        lookup_run(lookup_step(state, disk_answer(state, disk)), disk, (steps - 1) as nat)
    }
}

/// How the lookup of `pipeline` ends.
pub open spec fn lookup_end(pipeline: PathView, disk: Disk) -> LookupView {
    if (disk.is_file)(pipeline) {
        if name_of(parent_of(pipeline)->0) != Some(".katoa"@) {
            LookupView::Failed(LookupErrorView::OutsideKatoaDir)
        } else {
            match (disk.canonical)(pipeline) {
                Ok(p) => LookupView::Done(p),
                Err(s) => LookupView::Failed(LookupErrorView::Io(s)),
            }
        }
    } else {
        match disk.current_dir {
            Err(s) => LookupView::Failed(LookupErrorView::Io(s)),
            Ok(at) => search_end(pipeline, at, disk),
        }
    }
}

/// How the lookup of `pipeline` ends once it looks for the `.katoa` directory from `at` on.
pub open spec fn search_end(pipeline: PathView, at: PathView, disk: Disk) -> LookupView {
    match search(at, disk.exists) {
        None => LookupView::Failed(LookupErrorView::NoKatoaDir),
        Some(dir) => if (disk.exists)(pipeline_file(dir, pipeline)) {
            LookupView::Done(pipeline_file(dir, pipeline))
        } else {
            LookupView::Failed(LookupErrorView::NoPipeline)
        },
    }
}

/// The part of a lookup that goes up from `at`.
proof fn lemma_search_run(pipeline: PathView, at: PathView, disk: Disk, steps: nat)
    requires
        steps >= at.len() + 2,
    ensures
        lookup_run(LookupView::Search { pipeline, at }, disk, steps) == search_end(
            pipeline,
            at,
            disk,
        ),
    decreases at.len(),
{
    let state = LookupView::Search { pipeline, at };
    reveal_with_fuel(lookup_run, 3);
    match search_step(at, (disk.exists)(katoa_dir_of(at))) {
        SearchView::Probe(up) => {
            lemma_search_run(pipeline, up, disk, (steps - 1) as nat);
        },
        _ => {},
    }
}

/// A lookup ends, and in what it says: a file of a `.katoa` directory is found as its canonical
/// path, a file elsewhere is refused, and anything else is looked for, with the extension `ts`, in
/// the nearest `.katoa` directory above the current one.
pub proof fn law_lookup_ends(pipeline: PathView, disk: Disk, steps: nat)
    requires
        (disk.is_file)(pipeline) ==> parent_of(pipeline) is Some,
        steps >= 4 + (if disk.current_dir is Ok {
            disk.current_dir->Ok_0.len()
        } else {
            0
        }),
    ensures
        lookup_run(LookupView::IsFile(pipeline), disk, steps) == lookup_end(pipeline, disk),
{
    reveal_with_fuel(lookup_run, 4);
    if !(disk.is_file)(pipeline) {
        match disk.current_dir {
            Ok(at) => {
                lemma_search_run(pipeline, at, disk, (steps - 2) as nat);
            },
            Err(_) => {},
        }
    }
}

/// The search goes up the components of a path: it finds the `.katoa` of the longest start of the path
/// that has one, where all that follows can be taken away.
pub proof fn law_search_goes_up(at: PathView, present: spec_fn(PathView) -> bool, n: int)
    requires
        0 <= n <= at.len(),
        forall|k: int|
            n <= k < at.len() ==> (#[trigger] at[k] is Name || at[k] is Up || at[k] is Current),
        present(at.take(n).push(PartView::Name(".katoa"@))),
        forall|m: int|
            n < m <= at.len() ==> !present(#[trigger] at.take(m).push(PartView::Name(".katoa"@))),
    ensures
        search(at, present) == Some(at.take(n).push(PartView::Name(".katoa"@))),
    decreases at.len(),
{
    assert(at.take(at.len() as int) =~= at);
    if n < at.len() {
        assert(!present(at.take(at.len() as int).push(PartView::Name(".katoa"@))));
        let up = at.drop_last();
        assert(at[at.len() - 1] == at.last());
        assert forall|k: int| n <= k < up.len() implies (#[trigger] up[k] is Name || up[k] is Up
            || up[k] is Current) by {
            assert(up[k] == at[k]);
        }
        assert forall|m: int| n < m <= up.len() implies !present(
            #[trigger] up.take(m).push(PartView::Name(".katoa"@)),
        ) by {
            assert(up.take(m) =~= at.take(m));
            assert(!present(at.take(m).push(PartView::Name(".katoa"@))));
        }
        assert(up.take(n) =~= at.take(n));
        law_search_goes_up(up, present, n);
    }
}

/// The search finds nothing where no start of the path has a `.katoa`, and what it finds is there.
pub proof fn law_search_finds_what_is_there(at: PathView, present: spec_fn(PathView) -> bool)
    ensures
        search(at, present) matches Some(dir) ==> present(dir) && dir.len() > 0 && dir.last()
            == PartView::Name(".katoa"@) && dir.drop_last().is_prefix_of(at),
        (forall|m: int|
            0 <= m <= at.len() ==> !present(#[trigger] at.take(m).push(PartView::Name(".katoa"@))))
            ==> search(at, present) is None,
    decreases at.len(),
{
    assert(at.take(at.len() as int) =~= at);
    let here = at.push(PartView::Name(".katoa"@));
    assert(here.drop_last() =~= at);
    if !present(here) {
        if let Some(up) = parent_of(at) {
            law_search_finds_what_is_there(up, present);
            if forall|m: int|
                0 <= m <= at.len() ==> !present(
                    #[trigger] at.take(m).push(PartView::Name(".katoa"@)),
                ) {
                assert forall|m: int| 0 <= m <= up.len() implies !present(
                    #[trigger] up.take(m).push(PartView::Name(".katoa"@)),
                ) by {
                    assert(up.take(m) =~= at.take(m));
                    assert(!present(at.take(m).push(PartView::Name(".katoa"@))));
                }
            }
        }
    }
}

/// How a lookup ends. What is a file is taken as it is, in its canonical form, if the directory that
/// it is in is called `.katoa`, and refused otherwise. What is no file is looked for, with `ts` as
/// its extension, in the `.katoa` directory that the search from the current directory finds.
pub proof fn law_lookup_outcome(pipeline: PathView, disk: Disk, steps: nat)
    requires
        (disk.is_file)(pipeline) ==> parent_of(pipeline) is Some,
        steps >= 4 + (if disk.current_dir is Ok {
            disk.current_dir->Ok_0.len()
        } else {
            0
        }),
    ensures
        ({
            let end = lookup_run(LookupView::IsFile(pipeline), disk, steps);
            let home = parent_of(pipeline)->0;
            let inside = home.len() > 0 && home.last() == PartView::Name(".katoa"@);
            &&& (disk.is_file)(pipeline) && !inside ==> end == LookupView::Failed(
                LookupErrorView::OutsideKatoaDir,
            )
            &&& (disk.is_file)(pipeline) && inside ==> end == match (disk.canonical)(pipeline) {
                Ok(p) => LookupView::Done(p),
                Err(s) => LookupView::Failed(LookupErrorView::Io(s)),
            }
            &&& !(disk.is_file)(pipeline) ==> (disk.current_dir matches Err(s) ==> end
                == LookupView::Failed(LookupErrorView::Io(s)))
            &&& !(disk.is_file)(pipeline) ==> (disk.current_dir matches Ok(at) ==> match search(
                at,
                disk.exists,
            ) {
                None => end == LookupView::Failed(LookupErrorView::NoKatoaDir),
                Some(dir) => {
                    let file = with_ext(joined(dir, pipeline), "ts"@);
                    end == if (disk.exists)(file) {
                        LookupView::Done(file)
                    } else {
                        LookupView::Failed(LookupErrorView::NoPipeline)
                    }
                },
            })
        }),
{
    law_lookup_ends(pipeline, disk, steps);
}

/// What the user is told of a lookup that failed.
pub proof fn law_lookup_messages(reason: Seq<char>)
    ensures
        lookup_message(LookupErrorView::OutsideKatoaDir)
            == "Pipeline must be in the .katoa directory"@,
        lookup_message(LookupErrorView::NoKatoaDir) == "Could not find .katoa directory"@,
        lookup_message(LookupErrorView::NoPipeline) == "Could not find pipeline"@,
        lookup_message(LookupErrorView::Io(reason)) == reason,
{
}

/// The states, questions and answers of the searches are seen as they are, with their paths and texts.
pub proof fn law_searches_are_seen(path: FilePath, other: FilePath, text: String, yes: bool, e: LookupError)
    ensures
        DirSearch::Probe(path)@ == SearchView::Probe(path@),
        DirSearch::Found(path)@ == SearchView::Found(path@),
        DirSearch::Missing@ == SearchView::Missing,
        LookupError::OutsideKatoaDir@ == LookupErrorView::OutsideKatoaDir,
        LookupError::NoKatoaDir@ == LookupErrorView::NoKatoaDir,
        LookupError::NoPipeline@ == LookupErrorView::NoPipeline,
        LookupError::Io(text)@ == LookupErrorView::Io(text@),
        PipelineLookup::IsFile(path)@ == LookupView::IsFile(path@),
        PipelineLookup::Canonical(path)@ == LookupView::Canonical(path@),
        PipelineLookup::CurrentDir(path)@ == LookupView::CurrentDir(path@),
        (PipelineLookup::Search { pipeline: path, at: other })@ == (LookupView::Search {
            pipeline: path@,
            at: other@,
        }),
        PipelineLookup::Exists(path)@ == LookupView::Exists(path@),
        PipelineLookup::Done(path)@ == LookupView::Done(path@),
        PipelineLookup::Failed(e)@ == LookupView::Failed(e@),
        LookupEvent::Answer(yes)@ == EventView::Answer(yes),
        LookupEvent::Path(path)@ == EventView::Path(path@),
        LookupEvent::Refused(text)@ == EventView::Refused(text@),
{
}

/// Every question of a lookup can be answered either way, and those for a path can be refused; only
/// a path that is a file must have a parent.
pub proof fn law_lookup_takes_answers(path: PathView, at: PathView, yes: bool, reason: Seq<char>)
    ensures
        answers(LookupView::IsFile(path), EventView::Answer(false)),
        parent_of(path) is Some ==> answers(LookupView::IsFile(path), EventView::Answer(true)),
        answers(LookupView::Canonical(path), EventView::Path(at)),
        answers(LookupView::Canonical(path), EventView::Refused(reason)),
        answers(LookupView::CurrentDir(path), EventView::Path(at)),
        answers(LookupView::CurrentDir(path), EventView::Refused(reason)),
        answers(LookupView::Search { pipeline: path, at }, EventView::Answer(yes)),
        answers(LookupView::Exists(path), EventView::Answer(yes)),
{
}

} // verus!
