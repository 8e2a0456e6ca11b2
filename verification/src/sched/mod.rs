//! Render scheduling: latest-wins slots per image, and what was rendered last.
//!
//! The scheduler decides; its owner talks to the render engine. A decision to
//! dispatch comes back as a [`RenderRequest`]; the owner submits it and hands
//! the ticket back with [`RenderScheduler::attach`], and later reports what polling
//! the ticket gave with [`RenderScheduler::on_poll`].

use std::collections::HashMap;

use vstd::prelude::*;
use vstd::std_specs::iter::IteratorSpec;

use crate::ieee::Single;
use crate::ieee::ONE;
use crate::stats::counted;
use crate::types::Extent;
use crate::types::ProcessVersion;
use crate::types::RenderScale;
use crate::types::Roi;

pub mod canvas;
pub mod clip_overlay;
pub mod coalesce;
pub mod histogram;

pub use coalesce::Coalescer;
pub use coalesce::Slots;

verus! {

/// A zoom factor (one is 1:1).
#[derive(Clone, Copy, Debug, PartialEq, Eq, Structural)]
pub struct Zoom(pub Single);

/// The shell's current view of an image.
#[derive(Clone, Copy, Debug, PartialEq, Eq, Structural)]
pub struct ViewState {
    /// The viewport extent, pixels.
    pub viewport: Extent,
    /// The current zoom factor.
    pub zoom: Zoom,
    /// The visible region, source-pixel coordinates.
    pub pan: Roi,
}

/// The small view used until the shell supplies one.
pub open spec fn initial_view() -> ViewState {
    ViewState {
        viewport: Extent { w: 64, h: 64 },
        zoom: Zoom(Single { bits: ONE }),
        pan: Roi { x: 0, y: 0, w: 64, h: 64 },
    }
}

impl ViewState {
    /// A small default view used until the shell supplies one.
    pub fn default_view() -> (r: ViewState)
        ensures
            r == initial_view(),
    {
        ViewState {
            viewport: Extent { w: 64, h: 64 },
            zoom: Zoom(Single { bits: ONE }),
            pan: Roi { x: 0, y: 0, w: 64, h: 64 },
        }
    }
}

/// One image's render job: the recipe and view that produce a frame, tagged
/// with the sequence number of the update that asked for it. `R` stands for a
/// recipe, which the scheduler only passes on.
#[derive(Clone, Copy, Debug)]
pub struct RenderJob<R> {
    /// The recipe to render.
    pub recipe: R,
    /// Its process version.
    pub pv: ProcessVersion,
    /// The view to render it for.
    pub view: ViewState,
    /// The update that asked for it.
    pub seq: u64,
}

/// What a render writes.
#[derive(Clone, Copy, Debug, PartialEq, Eq, Structural)]
pub enum OutFormat {
    /// 8-bit sRGB.
    Rgba8Srgb,
    /// 8-bit linear.
    Rgba8Unorm,
}

/// How urgent a render is.
#[derive(Clone, Copy, Debug, PartialEq, Eq, Structural)]
pub enum RenderPriority {
    /// Someone is looking at it.
    Interactive,
    /// Nobody waits for it.
    Background,
}

/// A render for the engine.
#[derive(Clone, Copy, Debug)]
pub struct RenderRequest<R> {
    /// The image.
    pub image: u64,
    /// The recipe to render.
    pub recipe: R,
    /// Its process version.
    pub pv: ProcessVersion,
    /// The region, source-pixel coordinates.
    pub roi: Roi,
    /// The resolution.
    pub scale: RenderScale,
    /// The buffer format to fill.
    pub format: OutFormat,
    /// The urgency.
    pub priority: RenderPriority,
}

/// The request that renders `job` for `image`.
pub open spec fn request_of<R>(image: u64, job: RenderJob<R>) -> RenderRequest<R> {
    RenderRequest {
        image,
        recipe: job.recipe,
        pv: job.pv,
        roi: job.view.pan,
        scale: RenderScale::Fit(job.view.viewport),
        format: OutFormat::Rgba8Srgb,
        priority: RenderPriority::Interactive,
    }
}

/// [`request_of`], where there is a job.
pub open spec fn request_of_option<R>(image: u64, job: Option<RenderJob<R>>) -> Option<
    RenderRequest<R>,
> {
    match job {
        Some(j) => Some(request_of(image, j)),
        None => None,
    }
}

/// A buffer-target interactive request for a job: the view's region, decimated
/// to its viewport.
pub fn to_request<R: Copy>(image: u64, job: &RenderJob<R>) -> (r: RenderRequest<R>)
    ensures
        r == request_of(image, *job),
{
    RenderRequest {
        image,
        recipe: job.recipe,
        pv: job.pv,
        roi: job.view.pan,
        scale: RenderScale::Fit(job.view.viewport),
        format: OutFormat::Rgba8Srgb,
        priority: RenderPriority::Interactive,
    }
}

/// What polling a ticket gave. `O` stands for a render output.
#[derive(Clone, Copy, Debug)]
pub enum RenderState<O> {
    /// Not started.
    Queued,
    /// Running.
    Rendering,
    /// A preview-quality output is there.
    PreviewReady(O),
    /// The output is there.
    Complete(O),
    /// The render failed.
    Failed,
    /// The render was cancelled.
    Cancelled,
}

impl<O> RenderState<O> {
    /// The render is over.
    pub open spec fn terminal(self) -> bool {
        !(self is Queued || self is Rendering)
    }

    /// The output it came with.
    pub open spec fn output(self) -> Option<O> {
        match self {
            RenderState::PreviewReady(o) => Some(o),
            RenderState::Complete(o) => Some(o),
            _ => None,
        }
    }
}

/// Per-image scheduling state.
pub struct ImageModel<R, O> {
    /// The job slots.
    pub slots: Slots<RenderJob<R>>,
    /// The engine's ticket for the render in flight.
    pub ticket: Option<u64>,
    /// The update that the render in flight answers.
    pub inflight_seq: u64,
    /// The view set last.
    pub last_view: Option<ViewState>,
    /// The recipe set last.
    pub last_recipe: Option<(R, ProcessVersion)>,
    /// The output completed last and the update it answers.
    pub last_output: Option<(u64, O)>,
}

impl<R, O> ImageModel<R, O> {
    /// An image nothing is known of.
    pub open spec fn fresh() -> ImageModel<R, O> {
        ImageModel {
            slots: Slots::idle(),
            ticket: None,
            inflight_seq: 0,
            last_view: None,
            last_recipe: None,
            last_output: None,
        }
    }

    /// The view to render for.
    pub open spec fn view(self) -> ViewState {
        match self.last_view {
            Some(v) => v,
            None => initial_view(),
        }
    }

    /// After `job` was asked for.
    pub open spec fn requested(self, job: RenderJob<R>) -> ImageModel<R, O> {
        ImageModel {
            slots: self.slots.submitted(job),
            inflight_seq: if self.slots.inflight {
                self.inflight_seq
            } else {
                job.seq
            },
            ..self
        }
    }

    /// After the render in flight ended, with or without an output.
    pub open spec fn finished(self, output: Option<O>) -> ImageModel<R, O> {
        ImageModel {
            slots: self.slots.completed(),
            ticket: None,
            inflight_seq: match self.slots.pending {
                Some(next) => next.seq,
                None => self.inflight_seq,
            },
            last_output: match output {
                Some(o) => Some((self.inflight_seq, o)),
                None => self.last_output,
            },
            ..self
        }
    }

    /// Nothing in flight, nothing pending.
    pub open spec fn quiet(self) -> bool {
        self.ticket is None && !self.slots.busy()
    }
}

/// What a scheduler knows.
pub struct SchedModel<R, O> {
    /// Every image it has heard of.
    pub images: Map<u64, ImageModel<R, O>>,
    /// Updates so far.
    pub seq: u64,
    /// Dispatches so far.
    pub submissions: u64,
}

impl<R, O> SchedModel<R, O> {
    /// The state of `image`, fresh if it is new.
    pub open spec fn image(self, image: u64) -> ImageModel<R, O> {
        if self.images.contains_key(image) {
            self.images[image]
        } else {
            ImageModel::fresh()
        }
    }

    /// After `job` was asked for, `image` being in state `st` by then.
    pub open spec fn after_request(
        self,
        image: u64,
        st: ImageModel<R, O>,
        job: RenderJob<R>,
    ) -> SchedModel<R, O> {
        SchedModel {
            images: self.images.insert(image, st.requested(job)),
            seq: job.seq,
            submissions: if st.slots.inflight {
                self.submissions
            } else {
                counted(self.submissions, 1)
            },
        }
    }

    /// After the render in flight for `image` ended.
    pub open spec fn after_finish(self, image: u64, output: Option<O>) -> SchedModel<R, O> {
        SchedModel {
            images: self.images.insert(image, self.images[image].finished(output)),
            submissions: if self.images[image].slots.pending is Some {
                counted(self.submissions, 1)
            } else {
                self.submissions
            },
            ..self
        }
    }
}

struct ImageState<R, O> {
    coalescer: Coalescer<RenderJob<R>>,
    inflight_ticket: Option<u64>,
    inflight_seq: u64,
    last_view: Option<ViewState>,
    last_recipe: Option<(R, ProcessVersion)>,
    last_output: Option<(u64, O)>,
}

impl<R, O> ImageState<R, O> {
    spec fn model(self) -> ImageModel<R, O> {
        ImageModel {
            slots: self.coalescer@,
            ticket: self.inflight_ticket,
            inflight_seq: self.inflight_seq,
            last_view: self.last_view,
            last_recipe: self.last_recipe,
            last_output: self.last_output,
        }
    }

    fn new() -> (r: ImageState<R, O>)
        ensures
            r.model() == ImageModel::<R, O>::fresh(),
    {
        ImageState {
            coalescer: Coalescer::new(),
            inflight_ticket: None,
            inflight_seq: 0,
            last_view: None,
            last_recipe: None,
            last_output: None,
        }
    }
}

impl<R: Copy, O: Copy> ImageState<R, O> {
    /// Offers `job`; the request to submit, if it is to be dispatched now.
    fn offer(&mut self, image: u64, job: RenderJob<R>) -> (r: Option<RenderRequest<R>>)
        ensures
            final(self).model() == old(self).model().requested(job),
            r == request_of_option(image, old(self).coalescer@.dispatched_by_submit(job)),
    {
        match self.coalescer.submit(job) {
            Some(job) => {
                self.inflight_seq = job.seq;
                Some(to_request(image, &job))
            },
            None => None,
        }
    }

    /// Ends the render in flight; the request to submit, if a job was pending.
    fn finish(&mut self, image: u64, output: Option<O>) -> (r: Option<RenderRequest<R>>)
        ensures
            final(self).model() == old(self).model().finished(output),
            r == request_of_option(image, old(self).coalescer@.pending),
    {
        if let Some(out) = output {
            self.last_output = Some((self.inflight_seq, out));
        }
        self.inflight_ticket = None;
        match self.coalescer.complete() {
            Some(job) => {
                self.inflight_seq = job.seq;
                Some(to_request(image, &job))
            },
            None => None,
        }
    }
}

/// The states of a table of images.
spec fn models<R, O>(images: Map<u64, ImageState<R, O>>) -> Map<u64, ImageModel<R, O>> {
    images.map_values(|st: ImageState<R, O>| st.model())
}

proof fn lemma_models_insert<R, O>(
    images: Map<u64, ImageState<R, O>>,
    image: u64,
    st: ImageState<R, O>,
)
    ensures
        models(images.insert(image, st)) == models(images).insert(image, st.model()),
{
    assert(models(images.insert(image, st)) =~= models(images).insert(image, st.model()));
}

/// `entries` walks the table: every image once, with its state.
spec fn walks<R, O>(
    entries: Seq<(&u64, &ImageState<R, O>)>,
    images: Map<u64, ImageState<R, O>>,
) -> bool {
    &&& forall|i: int|
        0 <= i < entries.len() ==> images.contains_key(*(#[trigger] entries[i]).0)
            && images[*entries[i].0] == *entries[i].1
    &&& forall|image: u64| #[trigger]
        images.contains_key(image) ==> exists|i: int|
            0 <= i < entries.len() && *(#[trigger] entries[i]).0 == image
    &&& forall|i: int, j: int|
        0 <= i < j < entries.len() ==> *(#[trigger] entries[i]).0 != *(#[trigger] entries[j]).0
}

/// A sequence of the table's entries without repetition that holds every entry
/// walks the table.
proof fn lemma_walks<R, O>(
    entries: Seq<(&u64, &ImageState<R, O>)>,
    images: Map<u64, ImageState<R, O>>,
)
    requires
        entries.no_duplicates(),
        forall|i: int|
            0 <= i < entries.len() ==> images.contains_key(*(#[trigger] entries[i]).0)
                && images[*entries[i].0] == *entries[i].1,
        forall|image: u64| #[trigger]
            images.contains_key(image) ==> entries.contains((&image, &images[image])),
    ensures
        walks(entries, images),
{
    assert forall|image: u64| #[trigger] images.contains_key(image) implies exists|i: int|
        0 <= i < entries.len() && *(#[trigger] entries[i]).0 == image by {
        let e = (&image, &images[image]);
        assert(entries.contains(e));
        let i = choose|i: int| 0 <= i < entries.len() && entries[i] == e;
        assert(*entries[i].0 == image);
    }
    assert forall|i: int, j: int| 0 <= i < j < entries.len() implies *(#[trigger] entries[i]).0
        != *(#[trigger] entries[j]).0 by {
        assert(entries[i] != entries[j]);
    }
}

/// The entry at `j` is the image of `e`, with its ticket.
spec fn ticket_at<R, O>(
    entries: Seq<(&u64, &ImageState<R, O>)>,
    j: int,
    e: (u64, u64),
) -> bool {
    &&& 0 <= j < entries.len()
    &&& *entries[j].0 == e.0
    &&& entries[j].1.inflight_ticket == Some(e.1)
}

/// Some entry is the image of `e`, with its ticket.
spec fn has_ticket<R, O>(entries: Seq<(&u64, &ImageState<R, O>)>, e: (u64, u64)) -> bool {
    exists|j: int| ticket_at(entries, j, e)
}

/// Owns the latest-wins slots of every image: one render in flight and one
/// pending. `R` and `O` are handles for recipes and outputs.
pub struct RenderScheduler<R, O> {
    images: HashMap<u64, ImageState<R, O>>,
    seq: u64,
    submissions: u64,
}

impl<R, O> View for RenderScheduler<R, O> {
    type V = SchedModel<R, O>;

    closed spec fn view(&self) -> SchedModel<R, O> {
        SchedModel {
            images: models(self.images@),
            seq: self.seq,
            submissions: self.submissions,
        }
    }
}

impl<R: Copy, O: Copy> RenderScheduler<R, O> {
    /// A scheduler that has heard of no image.
    pub fn new() -> (r: RenderScheduler<R, O>)
        ensures
            r@ == (SchedModel::<R, O> { images: Map::empty(), seq: 0, submissions: 0 }),
    {
        let r = RenderScheduler { images: HashMap::new(), seq: 0, submissions: 0 };
        assert(r@.images =~= Map::empty());
        r
    }

    fn next_seq(&mut self) -> (r: u64)
        ensures
            r == counted(old(self)@.seq, 1),
            final(self)@ == (SchedModel { seq: r, ..old(self)@ }),
            final(self).images == old(self).images,
    {
        self.seq = self.seq.wrapping_add(1);
        self.seq
    }

    /// Sets the recipe for `image`. While a render is in flight this only
    /// replaces the pending job.
    pub fn set_recipe(&mut self, image: u64, recipe: R, pv: ProcessVersion) -> (r: Option<
        RenderRequest<R>,
    >)
        ensures
            ({
                let st = old(self)@.image(image);
                let job = RenderJob {
                    recipe,
                    pv,
                    view: st.view(),
                    seq: counted(old(self)@.seq, 1),
                };
                let st2 = ImageModel { last_recipe: Some((recipe, pv)), ..st };
                &&& final(self)@ == old(self)@.after_request(image, st2, job)
                &&& r == request_of_option(image, st.slots.dispatched_by_submit(job))
            }),
    {
        let seq: u64 = self.next_seq();
        let st = self.images.entry(image).or_insert(ImageState::new());
        st.last_recipe = Some((recipe, pv));
        let view: ViewState = match st.last_view {
            Some(v) => v,
            None => ViewState::default_view(),
        };
        let r = st.offer(image, RenderJob { recipe, pv, view, seq });
        proof {
            lemma_models_insert(old(self).images@, image, self.images@[image]);
        }
        if r.is_some() {
            self.submissions = self.submissions.wrapping_add(1);
        }
        r
    }

    /// Sets the view for `image` and re-renders its current recipe for it.
    /// Nothing is rendered until a recipe is set.
    pub fn set_view(&mut self, image: u64, view: ViewState) -> (r: Option<RenderRequest<R>>)
        ensures
            ({
                let seq = counted(old(self)@.seq, 1);
                let st = ImageModel { last_view: Some(view), ..old(self)@.image(image) };
                match st.last_recipe {
                    Some((recipe, pv)) => {
                        let job = RenderJob { recipe, pv, view, seq };
                        &&& final(self)@ == old(self)@.after_request(image, st, job)
                        &&& r == request_of_option(image, st.slots.dispatched_by_submit(job))
                    },
                    None => {
                        &&& final(self)@ == (SchedModel {
                            images: old(self)@.images.insert(image, st),
                            seq,
                            ..old(self)@
                        })
                        &&& r is None
                    },
                }
            }),
    {
        let seq: u64 = self.next_seq();
        let st = self.images.entry(image).or_insert(ImageState::new());
        st.last_view = Some(view);
        let r = match st.last_recipe {
            Some((recipe, pv)) => st.offer(image, RenderJob { recipe, pv, view, seq }),
            None => None,
        };
        proof {
            lemma_models_insert(old(self).images@, image, self.images@[image]);
        }
        if r.is_some() {
            self.submissions = self.submissions.wrapping_add(1);
        }
        r
    }

    /// Records the engine's ticket for the request just submitted for `image`.
    pub fn attach(&mut self, image: u64, ticket: u64)
        ensures
            final(self)@ == if old(self)@.images.contains_key(image) {
                SchedModel {
                    images: old(self)@.images.insert(
                        image,
                        ImageModel { ticket: Some(ticket), ..old(self)@.images[image] },
                    ),
                    ..old(self)@
                }
            } else {
                old(self)@
            },
    {
        if let Some(mut st) = self.images.remove(&image) {
            st.inflight_ticket = Some(ticket);
            self.images.insert(image, st);
            proof {
                assert(self.images@ =~= old(self).images@.insert(image, st));
                lemma_models_insert(old(self).images@, image, st);
            }
        } else {
            assert(self.images@ =~= old(self).images@);
        }
    }

    /// Takes what polling the image's ticket gave. On a terminal state the
    /// output is recorded and the pending job is promoted: the request to
    /// submit comes back. An image without a ticket is left alone.
    pub fn on_poll(&mut self, image: u64, state: RenderState<O>) -> (r: Option<RenderRequest<R>>)
        ensures
            if old(self)@.images.contains_key(image) && old(self)@.images[image].ticket is Some
                && state.terminal() {
                &&& final(self)@ == old(self)@.after_finish(image, state.output())
                &&& r == request_of_option(image, old(self)@.images[image].slots.pending)
            } else {
                &&& final(self)@ == old(self)@
                &&& r is None
            },
    {
        match self.images.get(&image) {
            Some(st) => {
                if st.inflight_ticket.is_none() {
                    return None;
                }
            },
            None => {
                return None;
            },
        }
        let output: Option<O> = match state {
            RenderState::Complete(out) => Some(out),
            RenderState::PreviewReady(out) => Some(out),
            RenderState::Failed => None,
            RenderState::Cancelled => None,
            RenderState::Queued => {
                return None;
            },
            RenderState::Rendering => {
                return None;
            },
        };
        let mut st = match self.images.remove(&image) {
            Some(st) => st,
            None => {
                return None;
            },
        };
        let r = st.finish(image, output);
        self.images.insert(image, st);
        proof {
            assert(self.images@ =~= old(self).images@.insert(image, st));
            lemma_models_insert(old(self).images@, image, st);
        }
        if r.is_some() {
            self.submissions = self.submissions.wrapping_add(1);
        }
        r
    }

    /// The images with a render in flight and the tickets to poll, each image
    /// once.
    pub fn in_flight(&self) -> (r: Vec<(u64, u64)>)
        ensures
            forall|image: u64, ticket: u64| #[trigger]
                r@.contains((image, ticket)) <==> self@.images.contains_key(image)
                    && self@.images[image].ticket == Some(ticket),
            forall|i: int, j: int| 0 <= i < j < r.len() ==> #[trigger] r[i].0 != #[trigger] r[j].0,
    {
        let mut r: Vec<(u64, u64)> = Vec::new();
        let entries = self.images.iter();
        let ghost seq = entries.remaining();
        proof {
            lemma_walks(entries.remaining(), self.images@);
        }
        for entry in it: entries
            invariant
                it.seq() == seq,
                walks(seq, self.images@),
                forall|k: int|
                    0 <= k < r.len() ==> has_ticket(seq.take(it.index()), #[trigger] r[k]),
                forall|j: int|
                    0 <= j < it.index() && (#[trigger] seq[j]).1.inflight_ticket is Some
                        ==> r@.contains((*seq[j].0, seq[j].1.inflight_ticket->Some_0)),
                forall|a: int, b: int|
                    0 <= a < b < r.len() ==> #[trigger] r[a].0 != #[trigger] r[b].0,
        {
            let ghost before = r@;
            let ghost i = it.index();
            if let Some(ticket) = entry.1.inflight_ticket {
                r.push((*entry.0, ticket));
                proof {
                    assert(r@[before.len() as int] == (*entry.0, ticket));
                    assert forall|a: int, b: int| 0 <= a < b < r.len() implies #[trigger] r[a].0
                        != #[trigger] r[b].0 by {
                        if b == before.len() {
                            let j = choose|j: int| ticket_at(seq.take(i), j, before[a]);
                            assert(seq.take(i)[j] == seq[j]);
                            assert(*seq[j].0 != *seq[i].0);
                        }
                    }
                    assert forall|j: int|
                        0 <= j < i + 1 && (#[trigger] seq[j]).1.inflight_ticket
                            is Some implies r@.contains(
                        (*seq[j].0, seq[j].1.inflight_ticket->Some_0),
                    ) by {
                        if j < i {
                            let e = (*seq[j].0, seq[j].1.inflight_ticket->Some_0);
                            assert(before.contains(e));
                            let k = choose|k: int| 0 <= k < before.len() && before[k] == e;
                            assert(r@[k] == e);
                        }
                    }
                }
            }
            proof {
                assert forall|k: int| 0 <= k < r.len() implies has_ticket(
                    seq.take(i + 1),
                    #[trigger] r[k],
                ) by {
                    if k < before.len() {
                        assert(r[k] == before[k]);
                        let j = choose|j: int| ticket_at(seq.take(i), j, before[k]);
                        assert(ticket_at(seq.take(i + 1), j, r[k]));
                    } else {
                        assert(ticket_at(seq.take(i + 1), i, r[k]));
                    }
                }
            }
        }
        proof {
            assert(seq.take(seq.len() as int) =~= seq);
            assert forall|image: u64, ticket: u64| #[trigger]
                r@.contains((image, ticket)) implies self@.images.contains_key(image)
                && self@.images[image].ticket == Some(ticket) by {
                let k = choose|k: int| 0 <= k < r@.len() && r@[k] == (image, ticket);
                assert(has_ticket(seq, r[k]));
                let j = choose|j: int| ticket_at(seq, j, r[k]);
                assert(*seq[j].0 == image);
            }
        }
        r
    }

    /// Whether any image has a render in flight or a job pending.
    pub fn has_work(&self) -> (r: bool)
        ensures
            r == exists|image: u64|
                self@.images.contains_key(image) && #[trigger] self@.images[image].slots.busy(),
    {
        let entries = self.images.iter();
        proof {
            lemma_walks(entries.remaining(), self.images@);
        }
        for entry in it: entries
            invariant
                walks(it.seq(), self.images@),
                forall|j: int|
                    0 <= j < it.index() ==> !(#[trigger] it.seq()[j]).1.coalescer@.busy(),
        {
            if entry.1.coalescer.has_work() {
                assert(self@.images[*entry.0].slots.busy());
                return true;
            }
        }
        false
    }

    /// Whether every image is idle: no ticket, nothing in flight, nothing
    /// pending.
    pub fn is_idle(&self) -> (r: bool)
        ensures
            r == forall|image: u64|
                self@.images.contains_key(image) ==> #[trigger] self@.images[image].quiet(),
    {
        let entries = self.images.iter();
        proof {
            lemma_walks(entries.remaining(), self.images@);
        }
        for entry in it: entries
            invariant
                walks(it.seq(), self.images@),
                forall|j: int|
                    0 <= j < it.index() ==> (#[trigger] it.seq()[j]).1.model().quiet(),
        {
            if entry.1.inflight_ticket.is_some() || entry.1.coalescer.has_work() {
                assert(!self@.images[*entry.0].quiet());
                return false;
            }
        }
        true
    }

    /// Total dispatches so far.
    pub fn submissions(&self) -> (r: u64)
        ensures
            r == self@.submissions,
    {
        self.submissions
    }

    /// The update that the most recently completed frame of `image` answers.
    pub fn last_completed_seq(&self, image: u64) -> (r: Option<u64>)
        ensures
            r == match self@.image(image).last_output {
                Some((seq, _)) => Some(seq),
                None => None,
            },
    {
        match self.images.get(&image) {
            Some(st) => match st.last_output {
                Some((seq, _)) => Some(seq),
                None => None,
            },
            None => None,
        }
    }

    /// The most recently completed output of `image`.
    pub fn last_output(&self, image: u64) -> (r: Option<O>)
        ensures
            r == match self@.image(image).last_output {
                Some((_, out)) => Some(out),
                None => None,
            },
    {
        match self.images.get(&image) {
            Some(st) => match st.last_output {
                Some((_, out)) => Some(out),
                None => None,
            },
            None => None,
        }
    }
}

/// What happens to one image.
pub enum ImageEvent<R, O> {
    /// An update asks for a job.
    Request(RenderJob<R>),
    /// The render in flight ends, with an output unless it failed or was
    /// cancelled.
    Finish(Option<O>),
}

/// A fresh image after `events`. A finish with nothing in flight does not
/// happen and changes nothing.
pub open spec fn replay<R, O>(events: Seq<ImageEvent<R, O>>) -> ImageModel<R, O>
    decreases events.len(),
{
    if events.len() == 0 {
        ImageModel::fresh()
    } else {
        let before = replay(events.drop_last());
        match events.last() {
            ImageEvent::Request(job) => before.requested(job),
            ImageEvent::Finish(out) => if before.slots.inflight {
                before.finished(out)
            } else {
                before
            },
        }
    }
}

/// The last update among `events`.
pub open spec fn last_request<R, O>(events: Seq<ImageEvent<R, O>>) -> Option<RenderJob<R>>
    decreases events.len(),
{
    if events.len() == 0 {
        None
    } else {
        match events.last() {
            ImageEvent::Request(job) => Some(job),
            ImageEvent::Finish(_) => last_request(events.drop_last()),
        }
    }
}

/// The output of the last render among `events` that ended; `None` where none
/// did, or the last one had none.
pub open spec fn last_finish<R, O>(events: Seq<ImageEvent<R, O>>) -> Option<O>
    decreases events.len(),
{
    if events.len() == 0 {
        None
    } else {
        match events.last() {
            ImageEvent::Finish(out) if replay(events.drop_last()).slots.inflight => out,
            _ => last_finish(events.drop_last()),
        }
    }
}

/// The final frame reflects the final update: however updates and finished
/// renders interleave, and whichever earlier renders failed, once an image is
/// idle and its last render gave an output, that output is the last completed
/// frame and answers the last update. Until then the last update is pending or
/// in flight.
pub proof fn law_final_frame_answers_final_update<R, O>(events: Seq<ImageEvent<R, O>>)
    requires
        last_request(events) is Some,
    ensures
        ({
            let m = replay(events);
            let last = last_request(events)->Some_0;
            &&& m.slots.well_formed()
            &&& m.slots.pending is Some ==> m.slots.pending == Some(last)
            &&& m.slots.inflight && m.slots.pending is None ==> m.inflight_seq == last.seq
            &&& !m.slots.inflight && last_finish(events) is Some ==> m.last_output == Some(
                (last.seq, last_finish(events)->Some_0),
            )
        }),
    decreases events.len(),
{
    let earlier = events.drop_last();
    if last_request(earlier) is Some {
        law_final_frame_answers_final_update(earlier);
    } else {
        lemma_untouched(earlier);
    }
}

/// An update that comes while a render is in flight costs no dispatch: it only
/// replaces the pending job.
pub proof fn law_updates_in_flight_cost_no_submission<R, O>(
    s: SchedModel<R, O>,
    image: u64,
    st: ImageModel<R, O>,
    job: RenderJob<R>,
)
    requires
        st.slots.inflight,
    ensures
        s.after_request(image, st, job).submissions == s.submissions,
        s.after_request(image, st, job).images[image].slots.pending == Some(job),
        s.after_request(image, st, job).images[image].inflight_seq == st.inflight_seq,
        st.slots.dispatched_by_submit(job) is None,
{
}

/// Images do not disturb each other: an update of one image, or the end of its
/// render, leaves every other image as it was.
pub proof fn law_images_are_independent<R, O>(
    s: SchedModel<R, O>,
    image: u64,
    other: u64,
    st: ImageModel<R, O>,
    job: RenderJob<R>,
    output: Option<O>,
)
    requires
        image != other,
    ensures
        s.after_request(image, st, job).image(other) == s.image(other),
        s.after_finish(image, output).image(other) == s.image(other),
{
}

proof fn lemma_untouched<R, O>(events: Seq<ImageEvent<R, O>>)
    requires
        last_request(events) is None,
    ensures
        replay(events) == ImageModel::<R, O>::fresh(),
    decreases events.len(),
{
    if events.len() > 0 {
        lemma_untouched(events.drop_last());
    }
}

/// A request renders the job it is for: its recipe at its process version, the
/// part of the picture its view shows, fitted to its viewport.
pub proof fn law_a_request_renders_its_job<R>(image: u64, job: RenderJob<R>)
    ensures
        request_of(image, job).image == image,
        request_of(image, job).recipe == job.recipe,
        request_of(image, job).pv == job.pv,
        request_of(image, job).roi == job.view.pan,
        request_of(image, job).scale == RenderScale::Fit(job.view.viewport),
        request_of(image, job).format is Rgba8Srgb,
        request_of(image, job).priority is Interactive,
        request_of_option(image, Some(job)) == Some(request_of(image, job)),
        request_of_option(image, None::<RenderJob<R>>) is None,
{
}

/// Which polls end a render, and which bring an output.
pub proof fn law_a_render_ends_with_an_output_or_a_failure<O>(s: RenderState<O>)
    ensures
        s is Queued ==> !s.terminal(),
        s is Rendering ==> !s.terminal(),
        s matches RenderState::PreviewReady(o) ==> s.terminal() && s.output() == Some(o),
        s matches RenderState::Complete(o) ==> s.terminal() && s.output() == Some(o),
        s is Failed ==> s.terminal() && s.output() is None,
        s is Cancelled ==> s.terminal() && s.output() is None,
{
}

/// An image is rendered for the view set last, and for the small first view until
/// one is set.
pub proof fn law_the_view_set_last_is_rendered<R, O>(m: ImageModel<R, O>, v: ViewState)
    ensures
        (ImageModel { last_view: Some(v), ..m }).view() == v,
        m.last_view is None ==> m.view().viewport.w == 64 && m.view().viewport.h == 64
            && m.view().pan == (Roi { x: 0, y: 0, w: 64, h: 64 }) && m.view().zoom.0.bits
            == 0x3f80_0000,
{
}

/// Asking for a render and finishing one change what is in flight, pending and
/// last completed, and nothing else: the view and the recipe stay as set, a
/// failure keeps the last frame, and only an end takes the ticket away.
pub proof fn law_rendering_keeps_view_and_recipe<R, O>(
    m: ImageModel<R, O>,
    job: RenderJob<R>,
    output: Option<O>,
)
    ensures
        m.requested(job).last_view == m.last_view,
        m.requested(job).last_recipe == m.last_recipe,
        m.requested(job).last_output == m.last_output,
        m.requested(job).ticket == m.ticket,
        m.finished(output).last_view == m.last_view,
        m.finished(output).last_recipe == m.last_recipe,
        m.finished(output).ticket is None,
        output is None ==> m.finished(output).last_output == m.last_output,
        output matches Some(o) ==> m.finished(output).last_output == Some((m.inflight_seq, o)),
{
}

/// Every dispatch is counted once: an update of an idle image and a promoted job
/// count, nothing else does.
pub proof fn law_every_dispatch_is_counted<R, O>(
    s: SchedModel<R, O>,
    image: u64,
    st: ImageModel<R, O>,
    job: RenderJob<R>,
    output: Option<O>,
)
    requires
        s.submissions < u64::MAX,
    ensures
        s.after_request(image, st, job).submissions - s.submissions
            == if st.slots.dispatched_by_submit(job) is Some { 1int } else { 0 },
        s.after_finish(image, output).submissions - s.submissions
            == if s.images[image].slots.pending is Some { 1int } else { 0 },
        s.after_request(image, st, job).seq == job.seq,
        s.after_finish(image, output).seq == s.seq,
{
}

/// An image is quiet exactly when nothing is in flight, nothing is pending and no
/// ticket is out.
pub proof fn law_quiet_images_have_nothing_to_do<R, O>(m: ImageModel<R, O>)
    ensures
        m.quiet() <==> m.ticket is None && !m.slots.inflight && m.slots.pending is None,
        m.slots.busy() <==> m.slots.inflight || m.slots.pending is Some,
{
}

} // verus!
