use std::time::{Duration, Instant};

use lightbox_render::recover::{DegradePolicy, DegradeState, RecoverStateMachine};

fn policy(max_losses: u8, window_ms: u64) -> DegradePolicy {
    DegradePolicy {
        max_losses,
        window: Duration::from_millis(window_ms).as_nanos(),
    }
}

fn ms(n: u64) -> u128 {
    Duration::from_millis(n).as_nanos()
}

#[test]
fn boundary_k_minus_one_stays_gpu_kth_degrades() {
    // max_losses = 2: first loss stays GPU, second degrades.
    let mut sm = RecoverStateMachine::new(policy(2, 60_000));
    assert_eq!(sm.state(), DegradeState::Gpu);
    assert_eq!(
        sm.on_device_lost("loss 1"),
        DegradeState::Gpu,
        "K-1 stays GPU"
    );
    assert_eq!(sm.state(), DegradeState::Gpu);
    assert_eq!(
        sm.on_device_lost("loss 2"),
        DegradeState::CpuPreviewOnly,
        "Kth degrades"
    );
    assert_eq!(sm.state(), DegradeState::CpuPreviewOnly);
}

#[test]
fn max_losses_one_degrades_on_first_loss() {
    let mut sm = RecoverStateMachine::new(policy(1, 60_000));
    assert_eq!(sm.on_device_lost("loss"), DegradeState::CpuPreviewOnly);
}

#[test]
fn max_losses_three_needs_three() {
    let mut sm = RecoverStateMachine::new(policy(3, 60_000));
    assert_eq!(sm.on_device_lost("1"), DegradeState::Gpu);
    assert_eq!(sm.on_device_lost("2"), DegradeState::Gpu);
    assert_eq!(sm.on_device_lost("3"), DegradeState::CpuPreviewOnly);
}

#[test]
fn reenable_restores_gpu() {
    let mut sm = RecoverStateMachine::new(policy(1, 60_000));
    assert_eq!(sm.on_device_lost("loss"), DegradeState::CpuPreviewOnly);
    sm.reenable_gpu();
    assert_eq!(sm.state(), DegradeState::Gpu);
    assert_eq!(sm.losses_in_window(), 0);
    // After re-enable the count restarts: this policy is max 1, so one more
    // loss degrades again.
    assert_eq!(
        sm.on_device_lost("loss again"),
        DegradeState::CpuPreviewOnly
    );
}

#[test]
fn losses_outside_the_window_do_not_accumulate() {
    // A short window: the first loss ages out before the second, so the
    // second is counted alone and (max_losses = 2) stays on GPU.
    let mut sm = RecoverStateMachine::new(policy(2, 20));
    assert_eq!(sm.on_device_lost("old"), DegradeState::Gpu);
    let start = Instant::now();
    while start.elapsed() < Duration::from_millis(40) {}
    assert_eq!(
        sm.on_device_lost("new"),
        DegradeState::Gpu,
        "the aged-out first loss must not push us over the threshold"
    );
    assert_eq!(sm.losses_in_window(), 1);
}

#[test]
fn deterministic_window_pruning_via_record_at() {
    let mut sm = RecoverStateMachine::new(policy(2, 100));
    let t0 = ms(1_000);
    // Two losses far apart relative to a 100 ms window: the first is pruned.
    assert_eq!(sm.record_at(t0, "1"), DegradeState::Gpu);
    assert_eq!(sm.record_at(t0 + ms(250), "2"), DegradeState::Gpu);
    // Two losses close together: both count, so it degrades.
    assert_eq!(sm.record_at(t0 + ms(260), "3"), DegradeState::CpuPreviewOnly);
}

#[test]
fn a_zero_policy_degrades_on_the_first_loss() {
    let mut sm = RecoverStateMachine::new(policy(0, 100));
    assert_eq!(sm.record_at(5, "only"), DegradeState::CpuPreviewOnly);
    assert_eq!(sm.policy(), policy(0, 100));
}

#[test]
fn degraded_is_sticky_even_when_losses_age_out() {
    let mut sm = RecoverStateMachine::new(policy(2, 10));
    sm.record_at(ms(1), "1");
    assert_eq!(sm.record_at(ms(2), "2"), DegradeState::CpuPreviewOnly);
    assert_eq!(sm.record_at(ms(500), "3"), DegradeState::CpuPreviewOnly);
    assert_eq!(sm.losses_at(ms(505)), 1);
    assert_eq!(sm.losses_at(ms(511)), 0);
    assert_eq!(sm.state(), DegradeState::CpuPreviewOnly);
}

#[test]
fn a_loss_exactly_one_window_old_still_counts() {
    let mut sm = RecoverStateMachine::new(policy(2, 10));
    sm.record_at(ms(10), "1");
    assert_eq!(sm.record_at(ms(20), "2"), DegradeState::CpuPreviewOnly);
}

#[test]
fn reading_the_count_does_not_restart_the_clock() {
    let mut m = RecoverStateMachine::new(policy(9, 20));
    m.on_device_lost("driver reset");
    assert_eq!(m.losses_in_window(), 1);
    let from = Instant::now();
    while from.elapsed() < Duration::from_millis(40) {
        m.losses_in_window();
    }
    assert_eq!(m.losses_in_window(), 0);
}
