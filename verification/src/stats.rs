//! Engine counters and the recompute probe that gathers them.

use vstd::prelude::*;

use crate::types::NodeId;

verus! {

/// A snapshot of engine counters.
#[derive(Clone, Copy, Debug, PartialEq, Eq, Structural)]
pub struct EngineStats {
    /// Nodes actually evaluated (the recompute count).
    pub nodes_evaluated: u64,
    /// Cache hits during the walk.
    pub cache_hits: u64,
    /// Cache misses during the walk.
    pub cache_misses: u64,
    /// Evictions performed to stay within budget.
    pub cache_evictions: u64,
    /// Resident VRAM bytes (pool accounting).
    pub vram_bytes: u64,
}

impl Default for EngineStats {
    fn default() -> (r: EngineStats)
        ensures
            r == zeroed(),
    {
        EngineStats {
            nodes_evaluated: 0,
            cache_hits: 0,
            cache_misses: 0,
            cache_evictions: 0,
            vram_bytes: 0,
        }
    }
}

/// The snapshot with every counter at zero.
pub open spec fn zeroed() -> EngineStats {
    EngineStats {
        nodes_evaluated: 0,
        cache_hits: 0,
        cache_misses: 0,
        cache_evictions: 0,
        vram_bytes: 0,
    }
}

/// `a + n` on a 64-bit counter that wraps around.
pub open spec fn counted(a: u64, n: u64) -> u64 {
    if a + n > u64::MAX {
        (a + n - 0x1_0000_0000_0000_0000) as u64
    } else {
        (a + n) as u64
    }
}

/// The recompute-count probe: counters that the executor and the cache bump.
pub struct RecomputeProbe {
    counters: EngineStats,
}

impl View for RecomputeProbe {
    type V = EngineStats;

    closed spec fn view(&self) -> EngineStats {
        self.counters
    }
}

impl Default for RecomputeProbe {
    fn default() -> (r: RecomputeProbe)
        ensures
            r@ == zeroed(),
    {
        RecomputeProbe { counters: EngineStats::default() }
    }
}

impl RecomputeProbe {
    /// A zeroed probe.
    pub fn new() -> (r: RecomputeProbe)
        ensures
            r@ == zeroed(),
    {
        RecomputeProbe { counters: EngineStats::default() }
    }

    /// A snapshot of the current counters.
    pub fn snapshot(&self) -> (r: EngineStats)
        ensures
            r == self@,
    {
        self.counters
    }

    /// Records that a node was evaluated; every node counts alike.
    pub fn note_eval(&mut self, node: NodeId)
        ensures
            final(self)@ == (EngineStats {
                nodes_evaluated: counted(old(self)@.nodes_evaluated, 1),
                ..old(self)@
            }),
    {
        self.counters.nodes_evaluated = self.counters.nodes_evaluated.wrapping_add(1);
    }

    /// Records a cache hit (a tile served without recompute).
    pub fn note_cache_hit(&mut self)
        ensures
            final(self)@ == (EngineStats {
                cache_hits: counted(old(self)@.cache_hits, 1),
                ..old(self)@
            }),
    {
        self.counters.cache_hits = self.counters.cache_hits.wrapping_add(1);
    }

    /// Records a cache miss (a lookup that will drive a recompute).
    pub fn note_cache_miss(&mut self)
        ensures
            final(self)@ == (EngineStats {
                cache_misses: counted(old(self)@.cache_misses, 1),
                ..old(self)@
            }),
    {
        self.counters.cache_misses = self.counters.cache_misses.wrapping_add(1);
    }

    /// Records `n` cache evictions.
    pub fn note_evictions(&mut self, n: u64)
        ensures
            final(self)@ == (EngineStats {
                cache_evictions: counted(old(self)@.cache_evictions, n),
                ..old(self)@
            }),
    {
        self.counters.cache_evictions = self.counters.cache_evictions.wrapping_add(n);
    }

    /// Sets the resident-VRAM gauge.
    pub fn set_vram_bytes(&mut self, bytes: u64)
        ensures
            final(self)@ == (EngineStats { vram_bytes: bytes, ..old(self)@ }),
    {
        self.counters.vram_bytes = bytes;
    }

    /// Resets the counters. The VRAM gauge is not a per-render counter and is
    /// left intact.
    pub fn reset(&mut self)
        ensures
            final(self)@ == (EngineStats { vram_bytes: old(self)@.vram_bytes, ..zeroed() }),
    {
        let vram_bytes: u64 = self.counters.vram_bytes;
        self.counters = EngineStats::default();
        self.counters.vram_bytes = vram_bytes;
    }
}

/// A counter adds up, modulo 2^64.
pub proof fn law_counters_add_up(a: u64, n: u64)
    ensures
        a + n <= u64::MAX ==> counted(a, n) == a + n,
        a + n > u64::MAX ==> counted(a, n) + 0x1_0000_0000_0000_0000 == a + n,
{
}

} // verus!
