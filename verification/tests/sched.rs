use lightbox_render::ieee::Single;
use lightbox_render::sched::coalesce::Coalescer;
use lightbox_render::sched::{OutFormat, RenderPriority, RenderScheduler, RenderState, ViewState, Zoom};
use lightbox_render::types::{Extent, ProcessVersion, RenderScale, Roi};

#[test]
fn coalescer_bounds_a_burst_to_two_dispatches() {
    let mut c: Coalescer<u32> = Coalescer::new();
    let mut dispatched = Vec::new();
    // First submit dispatches immediately; the next 999 only overwrite the
    // pending slot (latest-wins).
    for i in 0..1000u32 {
        if let Some(item) = c.submit(i) {
            dispatched.push(item);
        }
    }
    assert_eq!(
        dispatched,
        vec![0],
        "only the first of the burst dispatches"
    );
    // The in-flight completes, so the latest pending (999) is promoted.
    let next = c.complete();
    assert_eq!(next, Some(999), "final params win");
    dispatched.push(next.unwrap());
    // That completes with nothing pending.
    assert_eq!(c.complete(), None);
    assert!(!c.has_work());
    assert_eq!(
        dispatched.len(),
        2,
        "at most 2 dispatches for a 1000-update burst"
    );
}

#[test]
fn coalescer_interleaved_completions_stay_bounded() {
    let mut c: Coalescer<u32> = Coalescer::new();
    let mut dispatches = 0;
    for i in 0..10u32 {
        if c.submit(i).is_some() {
            dispatches += 1;
        }
        if c.complete().is_some() {
            dispatches += 1;
        }
    }
    while c.complete().is_some() {
        dispatches += 1;
    }
    assert!(dispatches <= 10);
    assert!(!c.has_work());
}

fn view(w: u32) -> ViewState {
    ViewState {
        viewport: Extent { w, h: 10 },
        zoom: Zoom(Single {
            bits: 2.0f32.to_bits(),
        }),
        pan: Roi {
            x: 1,
            y: 2,
            w,
            h: 4,
        },
    }
}

const PV: ProcessVersion = ProcessVersion(1);

#[test]
fn a_burst_of_recipes_costs_two_submissions_and_the_last_one_wins() {
    let mut s: RenderScheduler<u32, u32> = RenderScheduler::new();
    let first = s.set_recipe(7, 0, PV).unwrap();
    assert_eq!((first.image, first.recipe), (7, 0));
    s.attach(7, 100);
    for r in 1..50u32 {
        assert!(s.set_recipe(7, r, PV).is_none());
    }
    assert_eq!(s.in_flight(), vec![(7, 100)]);
    let next = s.on_poll(7, RenderState::Complete(11)).unwrap();
    assert_eq!(next.recipe, 49);
    s.attach(7, 101);
    assert_eq!(s.last_completed_seq(7), Some(1));
    assert!(s.on_poll(7, RenderState::Complete(12)).is_none());
    assert_eq!(s.last_completed_seq(7), Some(50));
    assert_eq!(s.last_output(7), Some(12));
    assert_eq!(s.submissions(), 2);
    assert!(s.is_idle());
    assert!(!s.has_work());
}

#[test]
fn a_view_without_a_recipe_renders_nothing_but_is_remembered() {
    let mut s: RenderScheduler<u32, u32> = RenderScheduler::new();
    assert!(s.set_view(3, view(640)).is_none());
    assert!(s.is_idle());
    let r = s.set_recipe(3, 5, PV).unwrap();
    assert_eq!(r.roi, view(640).pan);
    assert_eq!(r.scale, RenderScale::Fit(Extent { w: 640, h: 10 }));
    assert_eq!(r.format, OutFormat::Rgba8Srgb);
    assert_eq!(r.priority, RenderPriority::Interactive);
    s.attach(3, 1);
    assert!(s.set_view(3, view(320)).is_none());
    let again = s.on_poll(3, RenderState::PreviewReady(9)).unwrap();
    assert_eq!(again.recipe, 5);
    assert_eq!(again.roi, view(320).pan);
    // The view came second, the recipe was the second update of three.
    assert_eq!(s.last_completed_seq(3), Some(2));
}

#[test]
fn without_a_view_the_default_view_is_rendered() {
    let mut s: RenderScheduler<u32, u32> = RenderScheduler::new();
    let r = s.set_recipe(1, 2, PV).unwrap();
    assert_eq!(
        r.roi,
        Roi {
            x: 0,
            y: 0,
            w: 64,
            h: 64
        }
    );
    assert_eq!(r.scale, RenderScale::Fit(Extent { w: 64, h: 64 }));
    assert_eq!(ViewState::default_view().viewport, Extent { w: 64, h: 64 });
}

#[test]
fn failures_and_cancellations_promote_without_an_output() {
    let mut s: RenderScheduler<u32, u32> = RenderScheduler::new();
    s.set_recipe(1, 10, PV);
    s.attach(1, 1);
    s.set_recipe(1, 11, PV);
    let next = s.on_poll(1, RenderState::Failed).unwrap();
    assert_eq!(next.recipe, 11);
    assert_eq!(s.last_output(1), None);
    s.attach(1, 2);
    assert!(s.on_poll(1, RenderState::Cancelled).is_none());
    assert_eq!(s.last_completed_seq(1), None);
    assert!(s.is_idle());
}

#[test]
fn queued_and_running_renders_change_nothing() {
    let mut s: RenderScheduler<u32, u32> = RenderScheduler::new();
    s.set_recipe(1, 10, PV);
    s.attach(1, 1);
    assert!(s.on_poll(1, RenderState::Queued).is_none());
    assert!(s.on_poll(1, RenderState::Rendering).is_none());
    assert_eq!(s.in_flight(), vec![(1, 1)]);
    assert!(s.has_work());
    // An image nobody asked for is left alone.
    assert!(s.on_poll(9, RenderState::Complete(1)).is_none());
    s.attach(9, 3);
    assert_eq!(s.in_flight(), vec![(1, 1)]);
}

#[test]
fn images_do_not_share_slots() {
    let mut s: RenderScheduler<u32, u32> = RenderScheduler::new();
    assert!(s.set_recipe(1, 10, PV).is_some());
    assert!(s.set_recipe(2, 20, PV).is_some());
    s.attach(1, 5);
    s.attach(2, 6);
    let mut polls = s.in_flight();
    polls.sort();
    assert_eq!(polls, vec![(1, 5), (2, 6)]);
    s.on_poll(2, RenderState::Complete(77));
    assert_eq!(s.last_output(1), None);
    assert_eq!(s.last_output(2), Some(77));
    assert_eq!(s.in_flight(), vec![(1, 5)]);
}

#[test]
fn dispatches_are_offers_in_order() {
    let mut c: Coalescer<u32> = Coalescer::new();
    let mut dispatched = Vec::new();
    for i in 0..20u32 {
        dispatched.extend(c.submit(i));
        if i % 3 == 2 {
            dispatched.extend(c.complete());
        }
    }
    while c.has_work() {
        dispatched.extend(c.complete());
    }
    assert_eq!(dispatched, vec![0, 2, 5, 8, 11, 14, 17, 19]);
}
