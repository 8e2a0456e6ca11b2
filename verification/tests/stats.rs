use lightbox_render::stats::{EngineStats, RecomputeProbe};
use lightbox_render::types::NodeId;

#[test]
fn counters_accumulate_and_reset() {
    let mut p = RecomputeProbe::new();
    p.note_eval(NodeId("test.gain"));
    p.note_eval(NodeId("xform.display"));
    p.note_cache_hit();
    p.note_cache_miss();
    p.set_vram_bytes(4096);
    let s = p.snapshot();
    assert_eq!(s.nodes_evaluated, 2);
    assert_eq!(s.cache_hits, 1);
    assert_eq!(s.cache_misses, 1);
    assert_eq!(s.vram_bytes, 4096);

    p.reset();
    let s2 = p.snapshot();
    assert_eq!(s2.nodes_evaluated, 0);
    assert_eq!(s2.cache_hits, 0);
    // The VRAM gauge survives a per-render reset.
    assert_eq!(s2.vram_bytes, 4096);
}

#[test]
fn evictions_add_up_and_wrap() {
    let mut p = RecomputeProbe::default();
    assert_eq!(p.snapshot(), EngineStats::default());
    p.note_evictions(u64::MAX);
    p.note_evictions(3);
    assert_eq!(p.snapshot().cache_evictions, 2);
    assert_eq!(p.snapshot().nodes_evaluated, 0);
}
