//! The latest-wins decision core: one dispatch in flight, one pending slot.

use vstd::prelude::*;

verus! {

/// Holds "one in flight, one pending". While a dispatch is in flight a newly
/// submitted item only replaces the pending one, so that a burst of updates
/// costs at most two dispatches.
#[derive(Debug)]
pub struct Coalescer<T> {
    inflight: bool,
    pending: Option<T>,
}

/// What a coalescer knows.
pub struct Slots<T> {
    /// A dispatch is in flight.
    pub inflight: bool,
    /// The latest item waiting for it to finish.
    pub pending: Option<T>,
}

impl<T> View for Coalescer<T> {
    type V = Slots<T>;

    closed spec fn view(&self) -> Slots<T> {
        Slots { inflight: self.inflight, pending: self.pending }
    }
}

impl<T> Slots<T> {
    /// Nothing in flight, nothing pending.
    pub open spec fn idle() -> Slots<T> {
        Slots { inflight: false, pending: None }
    }

    /// An item only waits while something is in flight.
    pub open spec fn well_formed(self) -> bool {
        self.pending is Some ==> self.inflight
    }

    /// The slots after `item` was offered.
    pub open spec fn submitted(self, item: T) -> Slots<T> {
        if self.inflight {
            Slots { inflight: true, pending: Some(item) }
        } else {
            Slots { inflight: true, pending: self.pending }
        }
    }

    /// The item to dispatch when `item` is offered.
    pub open spec fn dispatched_by_submit(self, item: T) -> Option<T> {
        if self.inflight {
            None
        } else {
            Some(item)
        }
    }

    /// The slots after the dispatch in flight finished; what was pending is
    /// then dispatched.
    pub open spec fn completed(self) -> Slots<T> {
        match self.pending {
            Some(_) => Slots { inflight: self.inflight, pending: None },
            None => Slots { inflight: false, pending: None },
        }
    }

    /// Something is in flight or pending.
    pub open spec fn busy(self) -> bool {
        self.inflight || self.pending is Some
    }
}

impl<T> Default for Coalescer<T> {
    fn default() -> (r: Coalescer<T>)
        ensures
            r@ == Slots::<T>::idle(),
    {
        Coalescer { inflight: false, pending: None }
    }
}

impl<T> Coalescer<T> {
    /// A fresh, idle coalescer.
    pub fn new() -> (r: Coalescer<T>)
        ensures
            r@ == Slots::<T>::idle(),
    {
        Coalescer { inflight: false, pending: None }
    }

    /// Offers an item. Returns it when it is to be dispatched now (nothing in
    /// flight), else stores it as the latest pending item.
    pub fn submit(&mut self, item: T) -> (r: Option<T>)
        ensures
            final(self)@ == old(self)@.submitted(item),
            r == old(self)@.dispatched_by_submit(item),
    {
        if self.inflight {
            self.pending = Some(item);
            None
        } else {
            self.inflight = true;
            Some(item)
        }
    }

    /// Signals that the dispatch in flight finished. Returns the promoted
    /// pending item to dispatch next, or `None` if the slot is now idle.
    pub fn complete(&mut self) -> (r: Option<T>)
        ensures
            final(self)@ == old(self)@.completed(),
            r == old(self)@.pending,
    {
        match self.pending.take() {
            Some(next) => Some(next),
            None => {
                self.inflight = false;
                None
            },
        }
    }

    /// Whether a dispatch is in flight or an item is pending.
    pub fn has_work(&self) -> (r: bool)
        ensures
            r == self@.busy(),
    {
        self.inflight || self.pending.is_some()
    }
}

/// What happens to a coalescer.
pub enum Step<T> {
    /// An item is offered.
    Submit(T),
    /// The dispatch in flight finishes.
    Complete,
}

/// The slots and the items dispatched so far.
pub struct Run<T> {
    /// The coalescer.
    pub slots: Slots<T>,
    /// Every item dispatched, oldest first.
    pub dispatched: Seq<T>,
}

/// One more item at the end, if there is one.
pub open spec fn extended<T>(s: Seq<T>, item: Option<T>) -> Seq<T> {
    match item {
        Some(t) => s.push(t),
        None => s,
    }
}

/// What a fresh coalescer has come to after `steps`.
pub open spec fn run<T>(steps: Seq<Step<T>>) -> Run<T>
    decreases steps.len(),
{
    if steps.len() == 0 {
        Run { slots: Slots::idle(), dispatched: Seq::empty() }
    } else {
        let before = run(steps.drop_last());
        match steps.last() {
            Step::Submit(item) => Run {
                slots: before.slots.submitted(item),
                dispatched: extended(
                    before.dispatched,
                    before.slots.dispatched_by_submit(item),
                ),
            },
            Step::Complete => Run {
                slots: before.slots.completed(),
                dispatched: extended(before.dispatched, before.slots.pending),
            },
        }
    }
}

/// How many dispatches were reported finished.
pub open spec fn completions<T>(steps: Seq<Step<T>>) -> nat
    decreases steps.len(),
{
    if steps.len() == 0 {
        0
    } else {
        completions(steps.drop_last()) + if steps.last() is Complete {
            1nat
        } else {
            0nat
        }
    }
}

/// The item offered last.
pub open spec fn latest<T>(steps: Seq<Step<T>>) -> Option<T>
    decreases steps.len(),
{
    if steps.len() == 0 {
        None
    } else {
        match steps.last() {
            Step::Submit(item) => Some(item),
            Step::Complete => latest(steps.drop_last()),
        }
    }
}

/// However offers and completions interleave, there is at most one dispatch
/// more than there are completions, and an item only waits while another is in
/// flight.
pub proof fn law_dispatches_are_bounded<T>(steps: Seq<Step<T>>)
    ensures
        run(steps).slots.well_formed(),
        run(steps).dispatched.len() <= completions(steps) + 1,
        !run(steps).slots.inflight ==> run(steps).dispatched.len() <= completions(steps),
    decreases steps.len(),
{
    if steps.len() > 0 {
        law_dispatches_are_bounded(steps.drop_last());
    }
}

/// Latest wins: the item offered last is the one pending, or else the one
/// dispatched last. Once nothing is in flight it has been dispatched.
pub proof fn law_latest_wins<T>(steps: Seq<Step<T>>)
    requires
        latest(steps) is Some,
    ensures
        run(steps).slots.pending is Some ==> run(steps).slots.pending == latest(steps),
        run(steps).slots.pending is None ==> run(steps).dispatched.len() > 0
            && Some(run(steps).dispatched.last()) == latest(steps),
    decreases steps.len(),
{
    let earlier = steps.drop_last();
    law_dispatches_are_bounded(earlier);
    if latest(earlier) is Some {
        law_latest_wins(earlier);
    }
}

/// The items offered, oldest first.
pub open spec fn offered<T>(steps: Seq<Step<T>>) -> Seq<T>
    decreases steps.len(),
{
    if steps.len() == 0 {
        Seq::empty()
    } else {
        match steps.last() {
            Step::Submit(item) => offered(steps.drop_last()).push(item),
            Step::Complete => offered(steps.drop_last()),
        }
    }
}

/// `places` picks `some` out of `all`, in order.
pub open spec fn picks<T>(places: Seq<int>, some: Seq<T>, all: Seq<T>) -> bool {
    &&& places.len() == some.len()
    &&& forall|i: int|
        0 <= i < places.len() ==> 0 <= #[trigger] places[i] < all.len() && some[i] == all[places[i]]
    &&& forall|i: int, j: int|
        0 <= i < j < places.len() ==> #[trigger] places[i] < #[trigger] places[j]
}

/// Dispatches are offers: what was dispatched is, in order, some of what was
/// offered, each at most once, and so there are no more dispatches than offers.
pub proof fn law_dispatches_are_offers_in_order<T>(steps: Seq<Step<T>>)
    ensures
        exists|places: Seq<int>| #[trigger]
            picks(places, run(steps).dispatched, offered(steps)),
        run(steps).dispatched.len() <= offered(steps).len(),
{
    let places = lemma_places(steps);
    lemma_increasing(places, offered(steps).len() as int);
}

/// Which offers were dispatched. An item that waits is the last one offered and
/// has not been dispatched.
proof fn lemma_places<T>(steps: Seq<Step<T>>) -> (places: Seq<int>)
    ensures
        picks(places, run(steps).dispatched, offered(steps)),
        run(steps).slots.well_formed(),
        run(steps).slots.pending is Some ==> {
            &&& offered(steps).len() > 0
            &&& run(steps).slots.pending == Some(offered(steps).last())
            &&& places.len() > 0 ==> places.last() < offered(steps).len() - 1
        },
    decreases steps.len(),
{
    if steps.len() == 0 {
        Seq::empty()
    } else {
        let earlier = steps.drop_last();
        let before = lemma_places(earlier);
        let all = offered(steps);
        let places = if run(steps).dispatched.len() > run(earlier).dispatched.len() {
            before.push(all.len() - 1)
        } else {
            before
        };
        assert forall|i: int| 0 <= i < places.len() implies 0 <= #[trigger] places[i] < all.len()
            && run(steps).dispatched[i] == all[places[i]] by {
            if i < before.len() {
                assert(0 <= before[i] < offered(earlier).len());
            }
        }
        places
    }
}

/// Increasing numbers below `n` are no more than `n`.
proof fn lemma_increasing(places: Seq<int>, n: int)
    requires
        forall|i: int| 0 <= i < places.len() ==> 0 <= #[trigger] places[i] < n,
        forall|i: int, j: int|
            0 <= i < j < places.len() ==> #[trigger] places[i] < #[trigger] places[j],
        n >= 0,
    ensures
        places.len() <= n,
    decreases places.len(),
{
    if places.len() > 0 {
        let rest = places.drop_last();
        assert forall|i: int| 0 <= i < rest.len() implies 0 <= #[trigger] rest[i] < places.last() by {
            assert(places[i] < places[places.len() - 1]);
        }
        assert(0 <= places[places.len() - 1] < n);
        lemma_increasing(rest, places.last());
    }
}

/// Every item offered, one after the other.
pub open spec fn offers<T>(items: Seq<T>) -> Seq<Step<T>> {
    Seq::new(items.len(), |i: int| Step::Submit(items[i]))
}

/// A burst of offers to an idle coalescer, with no completion in between,
/// dispatches the first one only; the last one waits. Finishing twice then
/// dispatches the last one and ends idle: two dispatches in all.
pub proof fn law_a_burst_costs_two_dispatches<T>(items: Seq<T>)
    requires
        items.len() >= 2,
    ensures
        ({
            let burst = offers(items);
            let done = burst.push(Step::Complete).push(Step::Complete);
            &&& run(burst).dispatched == seq![items.first()]
            &&& run(burst).slots.pending == Some(items.last())
            &&& run(done).dispatched == seq![items.first(), items.last()]
            &&& run(done).slots == Slots::<T>::idle()
        }),
{
    let burst = offers(items);
    lemma_burst(items);
    let once = burst.push(Step::Complete);
    let done = once.push(Step::Complete);
    assert(once.drop_last() =~= burst);
    assert(done.drop_last() =~= once);
    assert(run(once).slots == run(burst).slots.completed());
    assert(run(once).dispatched == run(burst).dispatched.push(items.last()));
    assert(run(done).dispatched =~= seq![items.first(), items.last()]);
}

proof fn lemma_burst<T>(items: Seq<T>)
    requires
        items.len() >= 1,
    ensures
        ({
            let burst = offers(items);
            &&& run(burst).dispatched == seq![items.first()]
            &&& run(burst).slots.inflight
            &&& run(burst).slots.pending == if items.len() >= 2 {
                Some(items.last())
            } else {
                None
            }
        }),
    decreases items.len(),
{
    let burst = offers(items);
    let rest = offers(items.drop_last());
    assert(burst.drop_last() =~= rest);
    if items.len() >= 2 {
        lemma_burst(items.drop_last());
    } else {
        assert(run(rest).dispatched =~= Seq::empty());
        assert(run(burst).dispatched =~= seq![items.first()]);
    }
}

/// An offer to idle slots is dispatched at once; one to busy slots waits in place
/// of what waited before. When a dispatch ends, what waited is dispatched, and
/// with nothing waiting the slots are idle.
pub proof fn law_slots_dispatch_one_at_a_time<T>(s: Slots<T>, item: T)
    ensures
        !s.inflight ==> s.dispatched_by_submit(item) == Some(item) && s.submitted(item).inflight
            && s.submitted(item).pending == s.pending,
        s.inflight ==> s.dispatched_by_submit(item) is None && s.submitted(item).inflight
            && s.submitted(item).pending == Some(item),
        s.pending is Some ==> s.completed().inflight == s.inflight && s.completed().pending is None,
        s.pending is None ==> !s.completed().inflight && s.completed().pending is None,
        !Slots::<T>::idle().inflight && Slots::<T>::idle().pending is None,
{
}

} // verus!
