//! The canvas ring: which texture each published generation is copied into.

use vstd::prelude::*;

use crate::types::Extent;

verus! {

/// Distinct display textures the publisher cycles through.
pub const RING: u64 = 3;

/// Why a tile cannot be published.
#[derive(Clone, Copy, Debug, PartialEq, Eq, Structural)]
pub enum PublishError {
    /// The source is not a GPU tile.
    NotGpu,
    /// The source has no extent.
    NoExtent,
}

/// A decision to publish: copy the source into texture `slot` of the ring,
/// remade first where `rebuild` says so, then announce `generation`.
#[derive(Clone, Copy, Debug, PartialEq, Eq, Structural)]
pub struct Publication {
    /// The generation to announce.
    pub generation: u64,
    /// The ring texture to copy into.
    pub slot: usize,
    /// Whether the ring has to be remade for `extent`.
    pub rebuild: bool,
    /// The ring's extent, which is the frame's.
    pub extent: Extent,
}

/// The extent of the ring's textures for a requested extent: at least one
/// pixel each way.
pub open spec fn ring_extent(e: Extent) -> Extent {
    Extent { w: if e.w == 0 { 1 } else { e.w }, h: if e.h == 0 { 1 } else { e.h } }
}

/// The ring texture that holds a generation.
pub open spec fn slot_of(generation: u64) -> int {
    generation as int % RING as int
}

/// The publisher's bookkeeping.
pub struct CanvasRing {
    generation: u64,
    extent: Extent,
}

impl CanvasRing {
    /// The most recently published generation.
    pub closed spec fn published(&self) -> u64 {
        self.generation
    }

    /// The extent of the ring's textures.
    pub closed spec fn size(&self) -> Extent {
        self.extent
    }

    /// A ring sized to `extent`, at generation zero.
    pub fn new(extent: Extent) -> (r: CanvasRing)
        ensures
            r.published() == 0,
            r.size() == ring_extent(extent),
    {
        CanvasRing {
            generation: 0,
            extent: Extent {
                w: if extent.w == 0 { 1 } else { extent.w },
                h: if extent.h == 0 { 1 } else { extent.h },
            },
        }
    }

    /// The most recently published generation.
    pub fn generation(&self) -> (r: u64)
        ensures
            r == self.published(),
    {
        self.generation
    }

    /// The extent of the ring's textures.
    pub fn extent(&self) -> (r: Extent)
        ensures
            r == self.size(),
    {
        self.extent
    }

    /// The ring texture that holds the most recently published generation.
    pub fn current_slot(&self) -> (r: usize)
        ensures
            r == slot_of(self.published()),
    {
        (self.generation % RING) as usize
    }

    /// Decides the next publication of a source tile: it must be a GPU tile
    /// with an extent. The ring is remade when its extent differs.
    pub fn publish(&mut self, is_gpu: bool, source: Option<Extent>) -> (r: Result<
        Publication,
        PublishError,
    >)
        requires
            old(self).published() < u64::MAX,
        ensures
            match r {
                Err(PublishError::NotGpu) => !is_gpu,
                Err(PublishError::NoExtent) => is_gpu && source is None,
                Ok(p) => {
                    &&& is_gpu && source is Some
                    &&& p.generation == old(self).published() + 1
                    &&& p.slot == slot_of(p.generation)
                    &&& p.rebuild == (old(self).size() != source->Some_0)
                    &&& p.extent == if p.rebuild {
                        ring_extent(source->Some_0)
                    } else {
                        source->Some_0
                    }
                    &&& final(self).published() == p.generation
                    &&& final(self).size() == p.extent
                },
            },
            r is Err ==> *final(self) == *old(self),
    {
        if !is_gpu {
            return Err(PublishError::NotGpu);
        }
        let wanted: Extent = match source {
            Some(e) => e,
            None => {
                return Err(PublishError::NoExtent);
            },
        };
        let rebuild: bool = self.extent != wanted;
        if rebuild {
            self.extent = Extent {
                w: if wanted.w == 0 { 1 } else { wanted.w },
                h: if wanted.h == 0 { 1 } else { wanted.h },
            };
        }
        self.generation = self.generation + 1;
        Ok(
            Publication {
                generation: self.generation,
                slot: (self.generation % RING) as usize,
                rebuild,
                extent: self.extent,
            },
        )
    }
}

/// The texture being written for a generation differs from those of the two
/// generations before it, so a reader that lags by one frame never reads the
/// texture being overwritten.
pub proof fn law_recent_generations_keep_their_textures(generation: u64)
    requires
        generation >= 2,
    ensures
        slot_of(generation) != slot_of((generation - 1) as u64),
        slot_of(generation) != slot_of((generation - 2) as u64),
        0 <= slot_of(generation) < RING,
{
}

/// A ring is as large as its frames, and at least one pixel each way.
pub proof fn law_rings_are_never_empty(e: Extent)
    ensures
        ring_extent(e).w >= 1 && ring_extent(e).h >= 1,
        e.w > 0 ==> ring_extent(e).w == e.w,
        e.h > 0 ==> ring_extent(e).h == e.h,
        e.w == 0 ==> ring_extent(e).w == 1,
        e.h == 0 ==> ring_extent(e).h == 1,
{
}

/// Generations take the three textures in turn: the next generation but two
/// comes back to the same one.
pub proof fn law_textures_are_taken_in_turn(generation: u64)
    requires
        generation <= u64::MAX - 3,
    ensures
        slot_of((generation + 3) as u64) == slot_of(generation),
        slot_of((generation + 1) as u64) == if slot_of(generation) == 2 {
            0
        } else {
            slot_of(generation) + 1
        },
        slot_of(0) == 0,
{
}

} // verus!
