//! The images of a pipeline's jobs: which are meant, and which still have to be pulled.

use vstd::prelude::*;
use crate::backend::{OciBackend, backend_name};
use crate::command::{CommandLine, CommandView};
use crate::failure::{Failure, FailureView, caused_failure, plain_failure};
use crate::style::{bold, bold_text};
use crate::text::{concat2, lemma_texts_push, opt_text, texts};

verus! {

/// A reference to an image.
pub struct ImageReference {
    /// The registry (`docker.io`).
    pub domain: Option<String>,
    /// The path of the repository (`library/alpine`).
    pub path: Option<String>,
    pub tag: Option<String>,
    pub digest: Option<String>,
}

/// The texts of a reference.
pub struct RefView {
    pub domain: Option<Seq<char>>,
    pub path: Option<Seq<char>>,
    pub tag: Option<Seq<char>>,
    pub digest: Option<Seq<char>>,
}

impl View for ImageReference {
    type V = RefView;

    open spec fn view(&self) -> RefView {
        RefView {
            domain: opt_text(self.domain),
            path: opt_text(self.path),
            tag: opt_text(self.tag),
            digest: opt_text(self.digest),
        }
    }
}

/// The reference that an image name stands for: what `Reference::parse_normalized_named` of
/// buildkit-rs-reference gives, or the message of its error.
pub uninterp spec fn parsed_reference(image: Seq<char>) -> Result<RefView, Seq<char>>;

/// A parsed reference or a message, with their texts.
pub open spec fn parse_view(r: Result<ImageReference, String>) -> Result<RefView, Seq<char>> {
    match r {
        Ok(r) => Ok(r@),
        Err(s) => Err(s@),
    }
}

/// `Reference::parse_normalized_named` of buildkit-rs-reference, with the parts of what it gives
/// taken over one by one, or the text of its error. The result is a function of the name; which
/// names it takes and how it splits them is not said.
#[verifier::external_body]
fn parse_normalized_named(image: &str) -> (reference: Result<ImageReference, String>)
    ensures
        parse_view(reference) == parsed_reference(image@),
{
    match buildkit_rs_reference::Reference::parse_normalized_named(image) {
        Ok(r) => Ok(
            ImageReference {
                domain: r.repository.domain,
                path: r.repository.path,
                tag: r.tag,
                digest: r.digest,
            },
        ),
        Err(error) => Err(error.to_string()),
    }
}

/// A registry whose images of one name belong to its official repository.
pub open spec fn official(domain: Option<Seq<char>>) -> bool {
    domain is None || domain == Some("docker.io"@) || domain == Some("index.docker.io"@)
}

/// An optional text behind a sign, or nothing.
pub open spec fn marked(sign: Seq<char>, s: Option<Seq<char>>) -> Seq<char> {
    match s {
        Some(t) => sign + t,
        None => Seq::empty(),
    }
}

/// The path of a reference, as it is written out.
pub open spec fn full_path(r: RefView) -> Option<Seq<char>> {
    match r.path {
        Some(path) => if official(r.domain) && !path.contains('/') {
            Some("library/"@ + path)
        } else {
            Some(path)
        },
        None => None,
    }
}

/// A reference, written out.
pub open spec fn reference_text(r: RefView) -> Seq<char> {
    (match r.domain {
        Some(domain) => domain,
        None => "docker.io"@,
    }) + marked("/"@, full_path(r)) + marked(":"@, r.tag) + marked("@"@, r.digest)
}

/// The `Display` of `Reference` of buildkit-rs-reference: the registry, or `docker.io` where none
/// is named; the path, with `library/` before a path of one name in docker's own registry; the
/// tag behind a `:`; the digest behind an `@`.
#[verifier::external_body]
fn reference_to_string(r: &ImageReference) -> (s: String)
    ensures
        s@ == reference_text(r@),
{
    buildkit_rs_reference::Reference {
        repository: buildkit_rs_reference::Repository {
            domain: r.domain.clone(),
            path: r.path.clone(),
        },
        tag: r.tag.clone(),
        digest: r.digest.clone(),
    }.to_string()
}

/// A reference that names no tag and no digest means the tag `latest`.
pub open spec fn tagged(r: RefView) -> RefView {
    if r.tag is None && r.digest is None {
        RefView { tag: Some("latest"@), ..r }
    } else {
        r
    }
}

/// The reference with the tag that it means.
pub fn with_default_tag(r: ImageReference) -> (t: ImageReference)
    ensures
        t@ == tagged(r@),
{
    if r.tag.is_none() && r.digest.is_none() {
        ImageReference {
            domain: r.domain,
            path: r.path,
            tag: Some("latest".to_owned()),
            digest: r.digest,
        }
    } else {
        r
    }
}

/// The error for an image name that stands for no image.
pub open spec fn bad_image(image: Seq<char>, cause: Seq<char>) -> FailureView {
    caused_failure("Unable to parse image name: "@ + bold_text(image), cause)
}

/// The reference that an image name stands for, by what became of its parse.
pub fn reference_or_error(image: &str, parsed: Result<ImageReference, String>) -> (r: Result<
    ImageReference,
    Failure,
>)
    ensures
        match parsed {
            Ok(p) => r matches Ok(t) && t@ == tagged(p@),
            Err(cause) => r matches Err(e) && e@ == bad_image(image@, cause@),
        },
{
    match parsed {
        Ok(p) => Ok(with_default_tag(p)),
        Err(cause) => Err(
            Failure::caused(concat2("Unable to parse image name: ", bold(image).as_str()), cause),
        ),
    }
}

/// The reference that a job's image name stands for.
pub fn image_reference(image: &str) -> (r: Result<ImageReference, Failure>)
    ensures
        match parsed_reference(image@) {
            Ok(p) => r matches Ok(t) && t@ == tagged(p),
            Err(cause) => r matches Err(e) && e@ == bad_image(image@, cause),
        },
{
    reference_or_error(image, parse_normalized_named(image))
}

/// A reference, written out.
pub fn reference_name(r: &ImageReference) -> (s: String)
    ensures
        s@ == reference_text(r@),
{
    reference_to_string(r)
}

/// The command that pulls an image for a platform.
pub fn pull_command(backend: &OciBackend, reference: &str, platform: &str) -> (line: CommandLine)
    ensures
        line@ == (CommandView {
            program: backend_name(*backend),
            args: seq!["pull"@, reference@, "--platform"@, platform@],
            dir: None,
        }),
{
    CommandLine::new(backend.as_str()).arg("pull").arg(reference).arg("--platform").arg(platform)
}

/// The command that describes an image.
pub fn inspect_command(backend: &OciBackend, reference: &str) -> (line: CommandLine)
    ensures
        line@ == (CommandView {
            program: backend_name(*backend),
            args: seq!["inspect"@, reference@, "--type"@, "image"@, "--format"@, "{{json .}}"@],
            dir: None,
        }),
{
    CommandLine::new(backend.as_str()).arg("inspect").arg(reference).arg("--type").arg("image").arg(
        "--format",
    ).arg("{{json .}}")
}

/// The reference that is pulled for a job always says which version of the image is meant, and
/// nothing else of it is changed.
pub proof fn law_version_is_named(r: RefView)
    ensures
        tagged(r).tag is Some || tagged(r).digest is Some,
        tagged(tagged(r)) == tagged(r),
        tagged(r).domain == r.domain,
        tagged(r).path == r.path,
        tagged(r).digest == r.digest,
        r.tag is Some ==> tagged(r) == r,
{
}

/// `RandomState` of ahash, which seeds the hashing of a map. Nothing is said of it.
#[verifier::external_type_specification]
#[verifier::external_body]
pub struct ExRandomState(ahash::RandomState);

/// What a map of image references holds: for each reference a number.
pub uninterp spec fn slots_of(slots: ahash::HashMap<String, usize>) -> Map<Seq<char>, usize>;

/// `HashMapExt::new` of ahash: a map that holds nothing.
#[verifier::external_body]
fn slots_new() -> (slots: ahash::HashMap<String, usize>)
    ensures
        forall|key: Seq<char>| !slots_of(slots).contains_key(key),
{
    ahash::HashMapExt::new()
}

/// `get` of a map of ahash: what the map holds under a key, if anything.
#[verifier::external_body]
fn slots_get(slots: &ahash::HashMap<String, usize>, key: &str) -> (slot: Option<usize>)
    ensures
        slot is Some == slots_of(*slots).contains_key(key@),
        slot is Some ==> slot == Some(slots_of(*slots)[key@]),
{
    slots.get(key).copied()
}

/// `insert` of a map of ahash: the map holds the value under the key, and what it held under
/// other keys.
#[verifier::external_body]
fn slots_insert(slots: &mut ahash::HashMap<String, usize>, key: String, slot: usize)
    ensures
        slots_of(*final(slots)) == slots_of(*old(slots)).insert(key@, slot),
{
    slots.insert(key, slot);
}

/// The image of a job: which one it is, and its place among those that were pulled.
pub struct ResolvedImage {
    pub reference: ImageReference,
    pub info: usize,
}

/// What the plan waits for.
pub enum Pending {
    /// This image is to be pulled.
    Pull(ImageReference),
    /// This image is to be described.
    Inspect(ImageReference),
    /// Every job has its image.
    Done,
    /// Some job cannot have its image.
    Failed(Failure),
}

/// What the plan waits for, with its texts.
pub enum PendingView {
    Pull(RefView),
    Inspect(RefView),
    Done,
    Failed(FailureView),
}

impl View for Pending {
    type V = PendingView;

    open spec fn view(&self) -> PendingView {
        match self {
            Pending::Pull(r) => PendingView::Pull(r@),
            Pending::Inspect(r) => PendingView::Inspect(r@),
            Pending::Done => PendingView::Done,
            Pending::Failed(e) => PendingView::Failed(e@),
        }
    }
}

/// What became of the command that was waited for.
pub enum ImageEvent {
    /// It could not be run, for the reason given.
    Refused(String),
    /// It ended without success.
    Unsuccessful,
    /// It ended with success, and its description of the image is not understood.
    Unreadable(String),
    /// It ended with success, and whatever it said is understood.
    Good,
}

/// What became of a command, with its text.
pub enum ImageEventView {
    Refused(Seq<char>),
    Unsuccessful,
    Unreadable(Seq<char>),
    Good,
}

impl View for ImageEvent {
    type V = ImageEventView;

    open spec fn view(&self) -> ImageEventView {
        match self {
            ImageEvent::Refused(s) => ImageEventView::Refused(s@),
            ImageEvent::Unsuccessful => ImageEventView::Unsuccessful,
            ImageEvent::Unreadable(s) => ImageEventView::Unreadable(s@),
            ImageEvent::Good => ImageEventView::Good,
        }
    }
}

/// The jobs' images, as far as they are settled.
pub struct ImagePlan {
    /// The image names of the jobs, in order.
    images: Vec<String>,
    /// The images of the first jobs.
    resolved: Vec<ResolvedImage>,
    /// The references that were pulled, in order.
    pulled: Vec<String>,
    /// The place of each reference among those that were pulled.
    slots: ahash::HashMap<String, usize>,
    /// What comes next.
    pending: Pending,
}

/// The jobs' images, with their texts.
#[verifier::ext_equal]
pub struct PlanView {
    pub images: Seq<Seq<char>>,
    pub resolved: Seq<(RefView, int)>,
    pub pulled: Seq<Seq<char>>,
    pub pending: PendingView,
}

/// The plan goes on to the next job whose image was not pulled yet, if there is one.
pub open spec fn advanced(plan: PlanView) -> PlanView
    decreases plan.images.len() - plan.resolved.len(),
{
    if plan.resolved.len() >= plan.images.len() {
        PlanView { pending: PendingView::Done, ..plan }
    } else {
        let image = plan.images[plan.resolved.len() as int];
        match parsed_reference(image) {
            Err(cause) => PlanView { pending: PendingView::Failed(bad_image(image, cause)), ..plan },
            Ok(parsed) => {
                let r = tagged(parsed);
                if plan.pulled.contains(reference_text(r)) {
                    advanced(
                        PlanView {
                            resolved: plan.resolved.push(
                                (r, plan.pulled.index_of(reference_text(r))),
                            ),
                            ..plan
                        },
                    )
                } else {
                    PlanView { pending: PendingView::Pull(r), ..plan }
                }
            },
        }
    }
}

/// The plan before anything was pulled.
pub open spec fn first_plan(images: Seq<Seq<char>>) -> PlanView {
    advanced(
        PlanView {
            images,
            resolved: Seq::empty(),
            pulled: Seq::empty(),
            pending: PendingView::Done,
        },
    )
}

/// The plan with the image `r` of the next job pulled and described.
pub open spec fn pulled_plan(plan: PlanView, r: RefView) -> PlanView {
    PlanView {
        images: plan.images,
        resolved: plan.resolved.push((r, plan.pulled.len() as int)),
        pulled: plan.pulled.push(reference_text(r)),
        pending: PendingView::Done,
    }
}

/// Where the end of a command takes the plan.
pub open spec fn plan_step(plan: PlanView, event: ImageEventView) -> PlanView {
    match (plan.pending, event) {
        (PendingView::Done, _) | (PendingView::Failed(_), _) => plan,
        (_, ImageEventView::Refused(message)) => PlanView {
            pending: PendingView::Failed(plain_failure(message)),
            ..plan
        },
        (PendingView::Pull(r), ImageEventView::Unsuccessful) => PlanView {
            pending: PendingView::Failed(
                plain_failure("Unable to pull image: "@ + bold_text(reference_text(r))),
            ),
            ..plan
        },
        (PendingView::Pull(r), _) => PlanView { pending: PendingView::Inspect(r), ..plan },
        (PendingView::Inspect(r), ImageEventView::Unsuccessful) => PlanView {
            pending: PendingView::Failed(
                plain_failure("Unable to inspect image: "@ + bold_text(reference_text(r))),
            ),
            ..plan
        },
        (PendingView::Inspect(_), ImageEventView::Unreadable(cause)) => PlanView {
            pending: PendingView::Failed(
                caused_failure("Unable to deserialize image info"@, cause),
            ),
            ..plan
        },
        (PendingView::Inspect(r), ImageEventView::Good) => advanced(pulled_plan(plan, r)),
    }
}

/// The images of the first jobs, with their texts.
pub open spec fn resolved_view(resolved: Seq<ResolvedImage>) -> Seq<(RefView, int)> {
    resolved.map_values(|r: ResolvedImage| (r.reference@, r.info as int))
}

impl View for ImagePlan {
    type V = PlanView;

    closed spec fn view(&self) -> PlanView {
        PlanView {
            images: texts(self.images@),
            resolved: resolved_view(self.resolved@),
            pulled: texts(self.pulled@),
            pending: self.pending@,
        }
    }
}

/// Some settled job has the image that was pulled at place `k`.
pub open spec fn needed(plan: PlanView, k: int) -> bool {
    exists|i: int| 0 <= i < plan.resolved.len() && (#[trigger] plan.resolved[i]).1 == k
}

/// The image of job `i` is the one that its name stands for, at the place where that was pulled.
pub open spec fn settled(plan: PlanView, i: int) -> bool {
    let r = plan.resolved[i].0;
    let info = plan.resolved[i].1;
    &&& parsed_reference(plan.images[i]) is Ok
    &&& r == tagged(parsed_reference(plan.images[i])->Ok_0)
    &&& 0 <= info < plan.pulled.len()
    &&& plan.pulled[info] == reference_text(r)
}

/// What holds of the settled jobs and of what was pulled for them.
pub open spec fn plan_base(plan: PlanView) -> bool {
    &&& plan.resolved.len() <= plan.images.len()
    &&& plan.pulled.no_duplicates()
    &&& forall|i: int| 0 <= i < plan.resolved.len() ==> #[trigger] settled(plan, i)
    &&& forall|k: int| 0 <= k < plan.pulled.len() ==> #[trigger] needed(plan, k)
}

/// What holds of a plan at every time. Each settled job has the image that its name stands for, at
/// the place where that was pulled; no image was pulled twice, and none that no job needs; and
/// what is waited for is the image of the next job, which was not pulled before.
pub open spec fn plan_inv(plan: PlanView) -> bool {
    &&& plan_base(plan)
    &&& match plan.pending {
        PendingView::Pull(r) | PendingView::Inspect(r) => {
            &&& plan.resolved.len() < plan.images.len()
            &&& parsed_reference(plan.images[plan.resolved.len() as int]) is Ok
            &&& r == tagged(parsed_reference(plan.images[plan.resolved.len() as int])->Ok_0)
            &&& !plan.pulled.contains(reference_text(r))
        },
        PendingView::Done => plan.resolved.len() == plan.images.len(),
        PendingView::Failed(_) => true,
    }
}

/// One more settled job, and what was pulled for it if that is new, keep what holds.
proof fn lemma_settle(plan: PlanView, r: RefView, info: int, pulled: Seq<Seq<char>>)
    requires
        plan_base(plan),
        plan.resolved.len() < plan.images.len(),
        parsed_reference(plan.images[plan.resolved.len() as int]) is Ok,
        r == tagged(parsed_reference(plan.images[plan.resolved.len() as int])->Ok_0),
        ({
            ||| pulled == plan.pulled && 0 <= info < pulled.len() && pulled[info] == reference_text(r)
            ||| pulled == plan.pulled.push(reference_text(r)) && !plan.pulled.contains(
                reference_text(r),
            ) && info == plan.pulled.len()
        }),
    ensures
        plan_base(PlanView { resolved: plan.resolved.push((r, info)), pulled, ..plan }),
{
    let next = PlanView { resolved: plan.resolved.push((r, info)), pulled, ..plan };
    assert forall|i: int| 0 <= i < next.resolved.len() implies #[trigger] settled(next, i) by {
        if i < plan.resolved.len() {
            assert(settled(plan, i));
        }
    }
    assert forall|k: int| 0 <= k < next.pulled.len() implies #[trigger] needed(next, k) by {
        if k < plan.pulled.len() {
            assert(needed(plan, k));
            let i = choose|i: int|
                0 <= i < plan.resolved.len() && (#[trigger] plan.resolved[i]).1 == k;
            assert(next.resolved[i].1 == k);
        } else {
            assert(next.resolved[plan.resolved.len() as int].1 == k);
        }
    }
}

/// Going on to the next job keeps what holds.
pub proof fn lemma_advanced(plan: PlanView)
    requires
        plan_base(plan),
    ensures
        plan_inv(advanced(plan)),
        advanced(plan).images == plan.images,
        advanced(plan).pulled == plan.pulled,
        advanced(plan).resolved.len() >= plan.resolved.len(),
    decreases plan.images.len() - plan.resolved.len(),
{
    if plan.resolved.len() < plan.images.len() {
        let image = plan.images[plan.resolved.len() as int];
        if parsed_reference(image) is Ok {
            let r = tagged(parsed_reference(image)->Ok_0);
            let text = reference_text(r);
            if plan.pulled.contains(text) {
                let k = plan.pulled.index_of(text);
                assert(0 <= k < plan.pulled.len() && plan.pulled[k] == text);
                lemma_settle(plan, r, k, plan.pulled);
                lemma_advanced(PlanView { resolved: plan.resolved.push((r, k)), ..plan });
            }
        }
    }
    let next = advanced(plan);
    if plan_base(plan) && next.resolved == plan.resolved {
        assert forall|i: int| 0 <= i < next.resolved.len() implies #[trigger] settled(next, i) by {
            assert(settled(plan, i));
        }
        assert forall|k: int| 0 <= k < next.pulled.len() implies #[trigger] needed(next, k) by {
            assert(needed(plan, k));
        }
    }
}

/// Before anything was pulled, a plan is in order.
pub proof fn law_first_plan_is_sound(images: Seq<Seq<char>>)
    ensures
        plan_inv(first_plan(images)),
        first_plan(images).images == images,
        first_plan(images).pulled.len() == 0,
{
    lemma_advanced(
        PlanView {
            images,
            resolved: Seq::empty(),
            pulled: Seq::empty(),
            pending: PendingView::Done,
        },
    );
}

/// Whatever becomes of a command, the plan stays in order, and nothing that was pulled is pulled
/// again or forgotten.
pub proof fn law_plan_stays_sound(plan: PlanView, event: ImageEventView)
    requires
        plan_inv(plan),
    ensures
        plan_inv(plan_step(plan, event)),
        plan_step(plan, event).images == plan.images,
        plan.pulled.is_prefix_of(plan_step(plan, event).pulled),
{
    let next = plan_step(plan, event);
    match (plan.pending, event) {
        (PendingView::Inspect(r), ImageEventView::Good) => {
            lemma_pulled(plan, r);
            lemma_advanced(pulled_plan(plan, r));
        },
        _ => {
            lemma_same_base(plan, next);
        },
    }
}

/// One more image that was pulled keeps what holds.
proof fn lemma_pulled(plan: PlanView, r: RefView)
    requires
        plan_inv(plan),
        plan.pending == PendingView::Inspect(r),
    ensures
        plan_base(pulled_plan(plan, r)),
{
    let next = pulled_plan(plan, r);
    lemma_settle(plan, r, plan.pulled.len() as int, next.pulled);
    lemma_same_base(PlanView { resolved: next.resolved, pulled: next.pulled, ..plan }, next);
}

/// How many commands a plan may still ask for.
pub open spec fn commands_left(plan: PlanView) -> int {
    match plan.pending {
        PendingView::Pull(_) => 2 * (plan.images.len() - plan.resolved.len()),
        PendingView::Inspect(_) => 2 * (plan.images.len() - plan.resolved.len()) - 1,
        _ => 0,
    }
}

/// A plan ends: it asks for at most two commands per job, and each answer leaves fewer to ask for.
pub proof fn law_plan_ends(images: Seq<Seq<char>>, plan: PlanView, event: ImageEventView)
    requires
        plan_inv(plan),
        plan.pending is Pull || plan.pending is Inspect,
    ensures
        0 <= commands_left(first_plan(images)) <= 2 * images.len(),
        0 <= commands_left(plan_step(plan, event)) < commands_left(plan),
{
    law_first_plan_is_sound(images);
    law_plan_stays_sound(plan, event);
    match (plan.pending, event) {
        (PendingView::Inspect(r), ImageEventView::Good) => {
            lemma_pulled(plan, r);
            lemma_advanced(pulled_plan(plan, r));
        },
        _ => {},
    }
}

/// What is waited for makes no difference to what is settled.
proof fn lemma_same_base(a: PlanView, b: PlanView)
    requires
        plan_base(a),
        a.images == b.images,
        a.resolved == b.resolved,
        a.pulled == b.pulled,
    ensures
        plan_base(b),
{
    assert forall|i: int| 0 <= i < b.resolved.len() implies #[trigger] settled(b, i) by {
        assert(settled(a, i));
    }
    assert forall|k: int| 0 <= k < b.pulled.len() implies #[trigger] needed(b, k) by {
        assert(needed(a, k));
    }
}

/// Two settled jobs share an image exactly if their names stand for the same reference.
pub proof fn law_same_reference_same_image(plan: PlanView, i: int, j: int)
    requires
        plan_inv(plan),
        0 <= i < plan.resolved.len(),
        0 <= j < plan.resolved.len(),
    ensures
        plan.resolved[i].1 == plan.resolved[j].1 <==> reference_text(plan.resolved[i].0)
            == reference_text(plan.resolved[j].0),
{
    assert(settled(plan, i));
    assert(settled(plan, j));
}

impl ImagePlan {
    /// The map has for each pulled reference its place, and nothing else; and the plan is in order.
    pub closed spec fn wf(&self) -> bool {
        &&& plan_inv(self@)
        &&& slots_agree(slots_of(self.slots), texts(self.pulled@))
    }

    /// The plan for jobs with these images.
    pub fn new(images: Vec<String>) -> (plan: ImagePlan)
        ensures
            plan.wf(),
            plan@ == first_plan(texts(images@)),
            plan_inv(plan@),
    {
        let resolved: Vec<ResolvedImage> = Vec::new();
        let pulled: Vec<String> = Vec::new();
        proof {
            assert(texts(pulled@) =~= Seq::empty());
            assert(resolved_view(resolved@) =~= Seq::empty());
        }
        go_on(images, resolved, pulled, slots_new())
    }

    /// What the plan waits for.
    pub fn pending(&self) -> (pending: &Pending)
        ensures
            pending@ == self@.pending,
    {
        &self.pending
    }

    /// The images of the jobs that are settled.
    pub fn resolved(&self) -> (resolved: &Vec<ResolvedImage>)
        ensures
            resolved_view(resolved@) == self@.resolved,
    {
        &self.resolved
    }

    /// Takes the plan on, by what became of the command that it waited for.
    pub fn step(self, event: ImageEvent) -> (next: ImagePlan)
        requires
            self.wf(),
        ensures
            next.wf(),
            next@ == plan_step(self@, event@),
            plan_inv(next@),
    {
        proof {
            law_plan_stays_sound(self@, event@);
        }
        let ImagePlan { images, resolved, pulled, slots, pending } = self;
        let next = match (pending, event) {
            (Pending::Done, _) => Pending::Done,
            (Pending::Failed(e), _) => Pending::Failed(e),
            (_, ImageEvent::Refused(message)) => Pending::Failed(Failure::plain(message)),
            (Pending::Pull(r), ImageEvent::Unsuccessful) => Pending::Failed(
                Failure::plain(
                    concat2(
                        "Unable to pull image: ",
                        bold(reference_to_string(&r).as_str()).as_str(),
                    ),
                ),
            ),
            (Pending::Pull(r), _) => Pending::Inspect(r),
            (Pending::Inspect(r), ImageEvent::Unsuccessful) => Pending::Failed(
                Failure::plain(
                    concat2(
                        "Unable to inspect image: ",
                        bold(reference_to_string(&r).as_str()).as_str(),
                    ),
                ),
            ),
            (Pending::Inspect(_), ImageEvent::Unreadable(cause)) => Pending::Failed(
                Failure::caused("Unable to deserialize image info".to_owned(), cause),
            ),
            (Pending::Inspect(r), ImageEvent::Good) => {
                return pulled_now(images, resolved, pulled, slots, r);
            },
        };
        ImagePlan { images, resolved, pulled, slots, pending: next }
    }
}

/// A map has for each of these references its place, and nothing else.
pub open spec fn slots_agree(slots: Map<Seq<char>, usize>, pulled: Seq<Seq<char>>) -> bool {
    &&& forall|key: Seq<char>| #[trigger] slots.contains_key(key) <==> pulled.contains(key)
    &&& forall|k: int| 0 <= k < pulled.len() ==> slots[#[trigger] pulled[k]] == k
}

/// The plan once the image `r` of the next job was pulled and described.
fn pulled_now(
    images: Vec<String>,
    resolved: Vec<ResolvedImage>,
    pulled: Vec<String>,
    slots: ahash::HashMap<String, usize>,
    r: ImageReference,
) -> (plan: ImagePlan)
    requires
        plan_inv(
            (PlanView {
                images: texts(images@),
                resolved: resolved_view(resolved@),
                pulled: texts(pulled@),
                pending: PendingView::Inspect(r@),
            }),
        ),
        slots_agree(slots_of(slots), texts(pulled@)),
    ensures
        plan.wf(),
        plan@ == plan_step(
            (PlanView {
                images: texts(images@),
                resolved: resolved_view(resolved@),
                pulled: texts(pulled@),
                pending: PendingView::Inspect(r@),
            }),
            ImageEventView::Good,
        ),
{
    let ghost before = PlanView {
        images: texts(images@),
        resolved: resolved_view(resolved@),
        pulled: texts(pulled@),
        pending: PendingView::Inspect(r@),
    };
    let mut resolved = resolved;
    let mut pulled = pulled;
    let mut slots = slots;
    let text = reference_to_string(&r);
    let info: usize = pulled.len();
    let ghost old_slots = slots_of(slots);
    let ghost old_pulled = texts(pulled@);
    slots_insert(&mut slots, text.clone(), info);
    let image = ResolvedImage { reference: r, info };
    proof {
        lemma_pulled(before, r@);
        lemma_texts_push(pulled@, text);
        assert(resolved_view(resolved@.push(image)) =~= resolved_view(resolved@).push(
            (r@, info as int),
        ));
        let new_pulled = old_pulled.push(text@);
        let new_slots = old_slots.insert(text@, info);
        assert forall|key: Seq<char>| #[trigger] new_slots.contains_key(key) <==> new_pulled.contains(
            key,
        ) by {
            if old_pulled.contains(key) {
                let k = choose|k: int| 0 <= k < old_pulled.len() && old_pulled[k] == key;
                assert(new_pulled[k] == key);
            }
            if key == text@ {
                assert(new_pulled[old_pulled.len() as int] == key);
            }
            if new_pulled.contains(key) && key != text@ {
                let k = choose|k: int| 0 <= k < new_pulled.len() && new_pulled[k] == key;
                assert(old_pulled[k] == key);
            }
        }
        assert forall|k: int| 0 <= k < new_pulled.len() implies new_slots[#[trigger] new_pulled[k]]
            == k by {
            if k < old_pulled.len() {
                assert(old_pulled[k] != text@);
            }
        }
    }
    pulled.push(text);
    resolved.push(image);
    go_on(images, resolved, pulled, slots)
}

/// The plan that goes on from the jobs that are settled.
fn go_on(
    images: Vec<String>,
    done: Vec<ResolvedImage>,
    pulled: Vec<String>,
    slots: ahash::HashMap<String, usize>,
) -> (plan: ImagePlan)
    requires
        plan_base(
            (PlanView {
                images: texts(images@),
                resolved: resolved_view(done@),
                pulled: texts(pulled@),
                pending: PendingView::Done,
            }),
        ),
        slots_agree(slots_of(slots), texts(pulled@)),
    ensures
        plan.wf(),
        plan@ == advanced(
            (PlanView {
                images: texts(images@),
                resolved: resolved_view(done@),
                pulled: texts(pulled@),
                pending: PendingView::Done,
            }),
        ),
{
    let mut resolved = done;
    let ghost start = PlanView {
        images: texts(images@),
        resolved: resolved_view(resolved@),
        pulled: texts(pulled@),
        pending: PendingView::Done,
    };
    proof {
        lemma_advanced(start);
    }
    while resolved.len() < images.len()
        invariant
            ({
                let now = PlanView {
                    images: texts(images@),
                    resolved: resolved_view(resolved@),
                    pulled: texts(pulled@),
                    pending: PendingView::Done,
                };
                plan_base(now) && advanced(now) == advanced(start)
            }),
            start == (PlanView {
                images: texts(images@),
                resolved: resolved_view(done@),
                pulled: texts(pulled@),
                pending: PendingView::Done,
            }),
            plan_inv(advanced(start)),
            slots_agree(slots_of(slots), texts(pulled@)),
        decreases images@.len() - resolved@.len(),
    {
        let ghost now = PlanView {
            images: texts(images@),
            resolved: resolved_view(resolved@),
            pulled: texts(pulled@),
            pending: PendingView::Done,
        };
        let n: usize = resolved.len();
        assert(now.images[n as int] == images@[n as int]@);
        match image_reference(images[n].as_str()) {
            Err(error) => {
                return ImagePlan { images, resolved, pulled, slots, pending: Pending::Failed(error) };
            },
            Ok(r) => {
                let text = reference_to_string(&r);
                match slots_get(&slots, text.as_str()) {
                    Some(info) => {
                        let image = ResolvedImage { reference: r, info };
                        proof {
                            assert(now.pulled.contains(text@));
                            let k = now.pulled.index_of(text@);
                            assert(now.pulled[k] == text@);
                            assert(info == k);
                            lemma_settle(now, r@, k, now.pulled);
                            assert(resolved_view(resolved@.push(image)) =~= resolved_view(
                                resolved@,
                            ).push((r@, info as int)));
                        }
                        resolved.push(image);
                    },
                    None => {
                        return ImagePlan {
                            images,
                            resolved,
                            pulled,
                            slots,
                            pending: Pending::Pull(r),
                        };
                    },
                }
            },
        }
    }
    ImagePlan { images, resolved, pulled, slots, pending: Pending::Done }
}

/// A reference that names neither a tag nor a digest means the tag `latest`; any other means what it
/// says.
pub proof fn law_latest_is_meant(r: RefView)
    ensures
        r.tag is None && r.digest is None ==> tagged(r).tag == Some("latest"@),
        r.tag is Some ==> tagged(r).tag == r.tag,
        r.digest is Some ==> tagged(r).tag == r.tag,
        tagged(r).domain == r.domain && tagged(r).path == r.path && tagged(r).digest == r.digest,
{
}

/// What holds of a plan once every job has its image: there is one for each job, it is the one that
/// the job's name stands for, with `latest` where the name says nothing, and it is the one that was
/// pulled at its place. No two images that were pulled are the same, and each belongs to some job.
pub proof fn law_finished_plan(plan: PlanView, i: int, k: int, m: int)
    requires
        plan_inv(plan),
        plan.pending is Done,
        0 <= i < plan.images.len(),
        0 <= k < plan.pulled.len(),
        0 <= m < plan.pulled.len(),
    ensures
        plan.resolved.len() == plan.images.len(),
        parsed_reference(plan.images[i]) matches Ok(parsed) && plan.resolved[i].0.domain
            == parsed.domain && plan.resolved[i].0.path == parsed.path && plan.resolved[i].0.digest
            == parsed.digest && plan.resolved[i].0.tag == (if parsed.tag is None
            && parsed.digest is None {
            Some("latest"@)
        } else {
            parsed.tag
        }),
        0 <= plan.resolved[i].1 < plan.pulled.len(),
        plan.pulled[plan.resolved[i].1] == reference_text(plan.resolved[i].0),
        k != m ==> plan.pulled[k] != plan.pulled[m],
        exists|j: int| 0 <= j < plan.resolved.len() && (#[trigger] plan.resolved[j]).1 == k,
{
    assert(settled(plan, i));
    assert(needed(plan, k));
}

/// What a plan waits for is the image of the first job that has none yet, and that image was not
/// pulled before.
pub proof fn law_plan_waits_for_the_next(plan: PlanView)
    requires
        plan_inv(plan),
    ensures
        plan.pending matches PendingView::Pull(r) ==> (plan.resolved.len() < plan.images.len()
            && parsed_reference(plan.images[plan.resolved.len() as int]) is Ok && r == tagged(
            parsed_reference(plan.images[plan.resolved.len() as int])->Ok_0,
        ) && forall|k: int|
            0 <= k < plan.pulled.len() ==> #[trigger] plan.pulled[k] != reference_text(r)),
        plan.pending matches PendingView::Inspect(r) ==> (plan.resolved.len() < plan.images.len()
            && parsed_reference(plan.images[plan.resolved.len() as int]) is Ok && r == tagged(
            parsed_reference(plan.images[plan.resolved.len() as int])->Ok_0,
        ) && forall|k: int|
            0 <= k < plan.pulled.len() ==> #[trigger] plan.pulled[k] != reference_text(r)),
{
    match plan.pending {
        PendingView::Pull(r) | PendingView::Inspect(r) => {
            assert forall|k: int| 0 <= k < plan.pulled.len() implies #[trigger] plan.pulled[k]
                != reference_text(r) by {
                assert(plan.pulled.contains(plan.pulled[k]));
            }
        },
        _ => {},
    }
}

/// Going on from the settled jobs comes to a stand only where an image has to be pulled, where a name
/// stands for no image, which is complained of with the reason, or where every job has its image.
pub proof fn law_plan_stands_still(plan: PlanView)
    requires
        plan_base(plan),
    ensures
        ({
            let next = advanced(plan);
            let n = next.resolved.len() as int;
            &&& plan.resolved.is_prefix_of(next.resolved)
            &&& next.pending is Done <==> n == plan.images.len()
            &&& next.pending is Failed <==> n < plan.images.len() && parsed_reference(
                plan.images[n],
            ) is Err
            &&& next.pending is Pull <==> n < plan.images.len() && parsed_reference(
                plan.images[n],
            ) is Ok
            &&& next.pending matches PendingView::Failed(failure) ==> failure == caused_failure(
                "Unable to parse image name: "@ + bold_text(plan.images[n]),
                parsed_reference(plan.images[n])->Err_0,
            )
        }),
    decreases plan.images.len() - plan.resolved.len(),
{
    if plan.resolved.len() < plan.images.len() {
        let image = plan.images[plan.resolved.len() as int];
        if parsed_reference(image) is Ok {
            let r = tagged(parsed_reference(image)->Ok_0);
            let text = reference_text(r);
            if plan.pulled.contains(text) {
                let k = plan.pulled.index_of(text);
                assert(0 <= k < plan.pulled.len() && plan.pulled[k] == text);
                lemma_settle(plan, r, k, plan.pulled);
                let more = PlanView { resolved: plan.resolved.push((r, k)), ..plan };
                law_plan_stands_still(more);
                assert(plan.resolved =~= more.resolved.take(plan.resolved.len() as int));
                assert(plan.resolved.is_prefix_of(advanced(plan).resolved));
            }
        }
    }
}

/// Where the end of a command takes a plan: a pull that succeeded to the description of the same
/// image; a description that succeeded to the next job, with this image pulled and this job settled;
/// and any trouble to the end, with words that name the image and the reason, as far as they are
/// known.
pub proof fn law_plan_by_step(plan: PlanView, r: RefView, reason: Seq<char>)
    ensures
        plan.pending == PendingView::Pull(r) ==> {
            &&& plan_step(plan, ImageEventView::Good) == PlanView {
                pending: PendingView::Inspect(r),
                ..plan
            }
            &&& plan_step(plan, ImageEventView::Unsuccessful).pending == PendingView::Failed(
                plain_failure("Unable to pull image: "@ + bold_text(reference_text(r))),
            )
            &&& plan_step(plan, ImageEventView::Refused(reason)).pending == PendingView::Failed(
                plain_failure(reason),
            )
        },
        plan.pending == PendingView::Inspect(r) ==> {
            &&& plan_step(plan, ImageEventView::Unsuccessful).pending == PendingView::Failed(
                plain_failure("Unable to inspect image: "@ + bold_text(reference_text(r))),
            )
            &&& plan_step(plan, ImageEventView::Unreadable(reason)).pending == PendingView::Failed(
                caused_failure("Unable to deserialize image info"@, reason),
            )
            &&& plan_step(plan, ImageEventView::Refused(reason)).pending == PendingView::Failed(
                plain_failure(reason),
            )
            &&& plan_step(plan, ImageEventView::Good) == advanced(
                PlanView {
                    images: plan.images,
                    resolved: plan.resolved.push((r, plan.pulled.len() as int)),
                    pulled: plan.pulled.push(reference_text(r)),
                    pending: PendingView::Done,
                },
            )
        },
{
}

/// References, what a plan waits for and what became of its commands are seen as they are, with their
/// texts.
pub proof fn law_images_are_seen(
    r: ImageReference,
    failure: Failure,
    text: String,
    resolved: Seq<ResolvedImage>,
    i: int,
)
    requires
        0 <= i < resolved.len(),
    ensures
        r@.domain == opt_text(r.domain) && r@.path == opt_text(r.path) && r@.tag == opt_text(r.tag)
            && r@.digest == opt_text(r.digest),
        Pending::Pull(r)@ == PendingView::Pull(r@),
        Pending::Inspect(r)@ == PendingView::Inspect(r@),
        Pending::Done@ == PendingView::Done,
        Pending::Failed(failure)@ == PendingView::Failed(failure@),
        ImageEvent::Refused(text)@ == ImageEventView::Refused(text@),
        ImageEvent::Unsuccessful@ == ImageEventView::Unsuccessful,
        ImageEvent::Unreadable(text)@ == ImageEventView::Unreadable(text@),
        ImageEvent::Good@ == ImageEventView::Good,
        resolved_view(resolved).len() == resolved.len(),
        resolved_view(resolved)[i].0 == resolved[i].reference@,
        resolved_view(resolved)[i].1 == resolved[i].info,
{
}

} // verus!
