use lightbox_render::sched::canvas::{CanvasRing, PublishError};
use lightbox_render::types::Extent;

#[test]
fn generations_cycle_through_the_ring() {
    let e = Extent { w: 8, h: 4 };
    let mut ring = CanvasRing::new(e);
    assert_eq!((ring.generation(), ring.current_slot()), (0, 0));
    let mut slots = Vec::new();
    for g in 1..=6u64 {
        let p = ring.publish(true, Some(e)).unwrap();
        assert_eq!(p.generation, g);
        assert!(!p.rebuild);
        assert_eq!(p.extent, e);
        assert_eq!(ring.current_slot(), p.slot);
        slots.push(p.slot);
    }
    assert_eq!(slots, vec![1, 2, 0, 1, 2, 0]);
}

#[test]
fn a_new_extent_rebuilds_the_ring() {
    let mut ring = CanvasRing::new(Extent { w: 8, h: 4 });
    let p = ring.publish(true, Some(Extent { w: 0, h: 9 })).unwrap();
    assert!(p.rebuild);
    assert_eq!(p.extent, Extent { w: 1, h: 9 });
    assert_eq!(ring.extent(), Extent { w: 1, h: 9 });
    // The ring holds one column, not none: the empty source never matches it.
    assert!(ring.publish(true, Some(Extent { w: 0, h: 9 })).unwrap().rebuild);
}

#[test]
fn a_tile_that_cannot_be_published_changes_nothing() {
    let mut ring = CanvasRing::new(Extent { w: 0, h: 0 });
    assert_eq!(ring.extent(), Extent { w: 1, h: 1 });
    assert_eq!(
        ring.publish(false, Some(Extent { w: 2, h: 2 })),
        Err(PublishError::NotGpu)
    );
    assert_eq!(ring.publish(true, None), Err(PublishError::NoExtent));
    assert_eq!(ring.generation(), 0);
}
