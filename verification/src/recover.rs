//! Device-loss recovery: counts losses inside a sliding window and decides
//! whether to keep trying the GPU or to degrade to CPU preview.

use vstd::prelude::*;

verus! {

/// When repeated device loss gives up on the GPU.
#[derive(Clone, Copy, Debug, PartialEq, Eq, Structural)]
pub struct DegradePolicy {
    /// Losses inside the window that degrade the engine; zero counts as one.
    pub max_losses: u8,
    /// The window's length, in nanoseconds.
    pub window: u128,
}

/// The engine's current backend-availability state.
#[derive(Clone, Copy, Debug, PartialEq, Eq, Structural)]
pub enum DegradeState {
    /// GPU rendering (the normal path).
    Gpu,
    /// Preview-resolution CPU editing after repeated device loss.
    CpuPreviewOnly,
}

/// What a recovery machine knows: the losses that may still count and the
/// current state.
pub struct RecoverModel {
    /// Loss times in nanoseconds, oldest first.
    pub losses: Seq<u128>,
    /// The current state.
    pub state: DegradeState,
}

/// Whether a loss at time `t` is still inside the window at time `now`. A loss
/// recorded after `now` has age zero.
pub open spec fn counts_at(t: u128, now: u128, window: u128) -> bool {
    now - t <= window
}

/// The losses still inside the window at time `now`.
pub open spec fn pruned(losses: Seq<u128>, now: u128, window: u128) -> Seq<u128> {
    losses.filter(|t: u128| counts_at(t, now, window))
}

impl DegradePolicy {
    /// The number of losses that degrades the engine.
    pub open spec fn threshold(self) -> int {
        if self.max_losses == 0 {
            1
        } else {
            self.max_losses as int
        }
    }
}

impl RecoverModel {
    /// Nothing lost, GPU on.
    pub open spec fn fresh() -> RecoverModel {
        RecoverModel { losses: Seq::empty(), state: DegradeState::Gpu }
    }

    /// The model after a loss at time `now`.
    pub open spec fn recorded(self, policy: DegradePolicy, now: u128) -> RecoverModel {
        let losses = pruned(self.losses, now, policy.window).push(now);
        RecoverModel {
            losses,
            state: if losses.len() >= policy.threshold() {
                DegradeState::CpuPreviewOnly
            } else {
                self.state
            },
        }
    }

    /// The model after the losses at `times`, one after the other.
    pub open spec fn after(self, policy: DegradePolicy, times: Seq<u128>) -> RecoverModel
        decreases times.len(),
    {
        if times.len() == 0 {
            self
        } else {
            self.after(policy, times.drop_last()).recorded(policy, times.last())
        }
    }
}

/// `std::time::Instant`, the monotonic clock's reading.
#[verifier::external_type_specification]
#[verifier::external_body]
pub struct ExInstant(std::time::Instant);

/// Reads the monotonic clock with `std::time::Instant::now`. Nothing is
/// claimed of the reading.
#[verifier::external_body]
fn clock_now() -> std::time::Instant {
    std::time::Instant::now()
}

/// The nanoseconds since an earlier reading, by `std::time::Instant::elapsed`.
/// Nothing is claimed of the number: it depends on when the call is made.
#[verifier::external_body]
fn nanos_since(start: std::time::Instant) -> u128 {
    start.elapsed().as_nanos()
}

/// Whether `now` is something that reading the clock gave as the time since
/// `origin`.
pub closed spec fn read_since(origin: std::time::Instant, now: u128) -> bool {
    call_ensures(nanos_since, (origin,), now)
}

/// Applies a clock to the moment it counts from.
fn read_clock<F: Fn(std::time::Instant) -> u128>(clock: F, origin: std::time::Instant) -> (r: u128)
    requires
        call_requires(clock, (origin,)),
    ensures
        call_ensures(clock, (origin,), r),
{
    clock(origin)
}

/// Tracks device-loss events against a [`DegradePolicy`]. Once enough losses
/// fall inside the window the machine latches to
/// [`DegradeState::CpuPreviewOnly`] until [`RecoverStateMachine::reenable_gpu`].
pub struct RecoverStateMachine {
    policy: DegradePolicy,
    start: std::time::Instant,
    losses: Vec<u128>,
    state: DegradeState,
}

impl View for RecoverStateMachine {
    type V = RecoverModel;

    closed spec fn view(&self) -> RecoverModel {
        RecoverModel { losses: self.losses@, state: self.state }
    }
}

impl RecoverStateMachine {
    /// The policy the machine was made with.
    pub closed spec fn configured(&self) -> DegradePolicy {
        self.policy
    }

    /// The moment that times are counted from.
    pub closed spec fn origin(&self) -> std::time::Instant {
        self.start
    }

    /// A recovery machine governed by `policy`, with nothing lost. Times are
    /// counted from the moment it is made.
    pub fn new(policy: DegradePolicy) -> (r: RecoverStateMachine)
        ensures
            r@ == RecoverModel::fresh(),
            r.configured() == policy,
    {
        let r = RecoverStateMachine {
            policy,
            start: clock_now(),
            losses: Vec::new(),
            state: DegradeState::Gpu,
        };
        assert(r@.losses =~= Seq::empty());
        r
    }

    /// Records a device loss now; returns the resulting state.
    pub fn on_device_lost(&mut self, reason: &str) -> (r: DegradeState)
        ensures
            exists|now: u128|
                read_since(old(self).origin(), now) && final(self)@
                    == #[trigger] old(self)@.recorded(old(self).configured(), now),
            r == final(self)@.state,
            final(self).configured() == old(self).configured(),
            final(self).origin() == old(self).origin(),
    {
        let now: u128 = read_clock(nanos_since, self.start);
        self.record_at(now, reason)
    }

    /// The current state.
    pub fn state(&self) -> (r: DegradeState)
        ensures
            r == self@.state,
    {
        self.state
    }

    /// Explicitly re-enables the GPU path: forgets the losses.
    pub fn reenable_gpu(&mut self)
        ensures
            final(self)@ == RecoverModel::fresh(),
            final(self).configured() == old(self).configured(),
            final(self).origin() == old(self).origin(),
    {
        self.losses = Vec::new();
        self.state = DegradeState::Gpu;
        assert(self@.losses =~= Seq::empty());
    }

    /// Losses currently counted inside the window.
    pub fn losses_in_window(&mut self) -> (r: usize)
        ensures
            exists|now: u128|
                read_since(old(self).origin(), now) && final(self)@.losses == #[trigger] pruned(
                    old(self)@.losses,
                    now,
                    old(self).configured().window,
                ),
            r == final(self)@.losses.len(),
            final(self)@.state == old(self)@.state,
            final(self).configured() == old(self).configured(),
            final(self).origin() == old(self).origin(),
    {
        let now: u128 = read_clock(nanos_since, self.start);
        self.losses_at(now)
    }

    /// Losses inside the window at time `now`; older ones are forgotten.
    pub fn losses_at(&mut self, now: u128) -> (r: usize)
        ensures
            final(self)@ == (RecoverModel {
                losses: pruned(old(self)@.losses, now, old(self).configured().window),
                state: old(self)@.state,
            }),
            r == final(self)@.losses.len(),
            final(self).configured() == old(self).configured(),
            final(self).origin() == old(self).origin(),
    {
        let window: u128 = self.policy.window;
        let mut kept: Vec<u128> = Vec::new();
        let mut i: usize = 0;
        assert(self.losses@.take(0) =~= Seq::empty());
        assert(pruned(self.losses@.take(0), now, window) =~= Seq::empty()) by {
            reveal(Seq::filter);
        }
        while i < self.losses.len()
            invariant
                i <= self.losses.len(),
                self.policy.window == window,
                kept@ == pruned(self.losses@.take(i as int), now, window),
            decreases self.losses.len() - i,
        {
            let t: u128 = self.losses[i];
            proof {
                let next = self.losses@.take(i as int + 1);
                assert(next.drop_last() =~= self.losses@.take(i as int));
                assert(next.last() == t);
                reveal(Seq::filter);
            }
            let age: u128 = if now > t { now - t } else { 0 };
            if age <= window {
                kept.push(t);
            }
            i = i + 1;
        }
        assert(self.losses@.take(i as int) =~= self.losses@);
        self.losses = kept;
        self.losses.len()
    }

    /// The configured degradation policy.
    pub fn policy(&self) -> (r: DegradePolicy)
        ensures
            r == self.configured(),
    {
        self.policy
    }

    /// Records a loss at time `now`, in nanoseconds on the machine's clock:
    /// losses that have aged out of the window are forgotten, this one is
    /// added, and the state latches once the threshold is reached.
    pub fn record_at(&mut self, now: u128, reason: &str) -> (r: DegradeState)
        ensures
            final(self)@ == old(self)@.recorded(old(self).configured(), now),
            r == final(self)@.state,
            final(self).configured() == old(self).configured(),
            final(self).origin() == old(self).origin(),
    {
        self.losses_at(now);
        self.losses.push(now);
        let threshold: usize = if self.policy.max_losses == 0 {
            1
        } else {
            self.policy.max_losses as usize
        };
        if self.losses.len() >= threshold {
            self.state = DegradeState::CpuPreviewOnly;
        }
        self.state
    }
}

/// Every loss inside the window is kept by pruning.
proof fn lemma_pruned_keeps_all(losses: Seq<u128>, now: u128, window: u128)
    requires
        forall|i: int| 0 <= i < losses.len() ==> counts_at(#[trigger] losses[i], now, window),
    ensures
        pruned(losses, now, window) == losses,
    decreases losses.len(),
{
    reveal(Seq::filter);
    if losses.len() > 0 {
        lemma_pruned_keeps_all(losses.drop_last(), now, window);
        assert(counts_at(losses.last(), now, window));
        assert(losses.drop_last().push(losses.last()) =~= losses);
    } else {
        assert(pruned(losses, now, window) =~= losses);
    }
}

/// No loss outside the window survives pruning.
proof fn lemma_pruned_drops_all(losses: Seq<u128>, now: u128, window: u128)
    requires
        forall|i: int| 0 <= i < losses.len() ==> !counts_at(#[trigger] losses[i], now, window),
    ensures
        pruned(losses, now, window) == Seq::<u128>::empty(),
    decreases losses.len(),
{
    reveal(Seq::filter);
    if losses.len() > 0 {
        lemma_pruned_drops_all(losses.drop_last(), now, window);
        assert(!counts_at(losses.last(), now, window));
    } else {
        assert(pruned(losses, now, window) =~= Seq::<u128>::empty());
    }
}

/// With a threshold of `K`, losses that all fall inside one window leave the
/// GPU on up to the `(K-1)`-th and degrade the engine from the `K`-th on.
pub proof fn law_kth_loss_degrades(policy: DegradePolicy, times: Seq<u128>)
    requires
        forall|i: int, j: int|
            0 <= i <= j < times.len() ==> counts_at(
                #[trigger] times[i],
                #[trigger] times[j],
                policy.window,
            ),
    ensures
        RecoverModel::fresh().after(policy, times).losses == times,
        (RecoverModel::fresh().after(policy, times).state is Gpu) <==> times.len()
            < policy.threshold(),
    decreases times.len(),
{
    if times.len() > 0 {
        let earlier = times.drop_last();
        assert forall|i: int, j: int| 0 <= i <= j < earlier.len() implies counts_at(
            #[trigger] earlier[i],
            #[trigger] earlier[j],
            policy.window,
        ) by {
            assert(earlier[i] == times[i] && earlier[j] == times[j]);
        }
        law_kth_loss_degrades(policy, earlier);
        assert forall|i: int| 0 <= i < earlier.len() implies counts_at(
            #[trigger] earlier[i],
            times.last(),
            policy.window,
        ) by {
            assert(earlier[i] == times[i]);
        }
        lemma_pruned_keeps_all(earlier, times.last(), policy.window);
        assert(earlier.push(times.last()) =~= times);
    } else {
        assert(RecoverModel::fresh().losses =~= times);
    }
}

/// Losses that each come after the one before has left the window never add
/// up: with a threshold above one the GPU stays on.
pub proof fn law_spaced_losses_do_not_accumulate(policy: DegradePolicy, times: Seq<u128>)
    requires
        policy.threshold() > 1,
        forall|i: int|
            0 < i < times.len() ==> !counts_at(
                times[i - 1],
                #[trigger] times[i],
                policy.window,
            ),
    ensures
        RecoverModel::fresh().after(policy, times).state is Gpu,
        times.len() > 0 ==> RecoverModel::fresh().after(policy, times).losses == seq![times.last()],
    decreases times.len(),
{
    if times.len() > 0 {
        let earlier = times.drop_last();
        assert forall|i: int| 0 < i < earlier.len() implies !counts_at(
            earlier[i - 1],
            #[trigger] earlier[i],
            policy.window,
        ) by {
            assert(earlier[i] == times[i] && earlier[i - 1] == times[i - 1]);
        }
        law_spaced_losses_do_not_accumulate(policy, earlier);
        let before = RecoverModel::fresh().after(policy, earlier);
        if earlier.len() > 0 {
            assert(times[times.len() - 1] == times.last());
            assert(earlier.last() == times[times.len() - 2]);
        }
        lemma_pruned_drops_all(before.losses, times.last(), policy.window);
        assert(Seq::<u128>::empty().push(times.last()) =~= seq![times.last()]);
    }
}

/// Once degraded, no further loss brings the GPU back: only re-enabling does.
pub proof fn law_degraded_is_sticky(m: RecoverModel, policy: DegradePolicy, times: Seq<u128>)
    requires
        m.state is CpuPreviewOnly,
    ensures
        m.after(policy, times).state is CpuPreviewOnly,
    decreases times.len(),
{
    if times.len() > 0 {
        law_degraded_is_sticky(m, policy, times.drop_last());
    }
}

/// A loss counts for exactly one window: from the moment it is recorded until
/// `window` later, that moment included, and never after.
pub proof fn law_a_loss_counts_for_one_window(losses: Seq<u128>, now: u128, window: u128, t: u128)
    ensures
        pruned(losses, now, window).contains(t) <==> losses.contains(t) && now <= t + window,
    decreases losses.len(),
{
    reveal(Seq::filter);
    if losses.len() > 0 {
        let rest = losses.drop_last();
        law_a_loss_counts_for_one_window(rest, now, window, t);
        let kept = pruned(rest, now, window);
        let whole = pruned(losses, now, window);
        assert(losses =~= rest.push(losses.last()));
        assert(losses.contains(t) <==> rest.contains(t) || losses.last() == t) by {
            if rest.contains(t) {
                let i = choose|i: int| 0 <= i < rest.len() && rest[i] == t;
                assert(losses[i] == t);
            }
            if losses.last() == t {
                assert(losses[losses.len() - 1] == t);
            }
            if losses.contains(t) && losses.last() != t {
                let i = choose|i: int| 0 <= i < losses.len() && losses[i] == t;
                assert(rest[i] == t);
            }
        }
        if counts_at(losses.last(), now, window) {
            assert(whole == kept.push(losses.last()));
            assert(whole.contains(t) <==> kept.contains(t) || losses.last() == t) by {
                if kept.contains(t) {
                    let i = choose|i: int| 0 <= i < kept.len() && kept[i] == t;
                    assert(whole[i] == t);
                }
                if losses.last() == t {
                    assert(whole[kept.len() as int] == t);
                }
                if whole.contains(t) && losses.last() != t {
                    let i = choose|i: int| 0 <= i < whole.len() && whole[i] == t;
                    assert(kept[i] == t);
                }
            }
        } else {
            assert(whole == kept);
        }
    } else {
        assert(pruned(losses, now, window) =~= losses);
    }
}

/// Losses at one moment degrade the engine from the policy's number on, and from
/// the first on where the policy says none.
pub proof fn law_a_burst_degrades_at_the_policys_number(
    policy: DegradePolicy,
    t: u128,
    n: nat,
)
    ensures
        RecoverModel::fresh().after(policy, Seq::new(n, |i: int| t)).state is Gpu <==> n == 0 || n
            < policy.max_losses,
{
    let times = Seq::new(n, |i: int| t);
    law_kth_loss_degrades(policy, times);
}

/// Recording a loss always remembers that loss, and re-enabling forgets all.
pub proof fn law_a_recorded_loss_is_remembered(m: RecoverModel, policy: DegradePolicy, now: u128)
    ensures
        m.recorded(policy, now).losses.len() > 0,
        m.recorded(policy, now).losses.last() == now,
        RecoverModel::fresh().losses.len() == 0,
        RecoverModel::fresh().state is Gpu,
        m.state is CpuPreviewOnly ==> m.recorded(policy, now).state is CpuPreviewOnly,
{
}

} // verus!
