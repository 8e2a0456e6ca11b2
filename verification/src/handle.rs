//! Tile handles: shared references to a tile on the GPU or on the host.

use std::sync::Arc;

use vstd::prelude::*;

use crate::tile::PixelBuf;
use crate::types::Extent;
use crate::types::TilePrecision;

verus! {

/// The GPU-resident backing of a tile: `G` is the texture, the rest its shape.
pub struct GpuTile<G> {
    /// The texture and what goes with it.
    pub texture: G,
    /// Its extent.
    pub extent: Extent,
    /// Its storage precision.
    pub precision: TilePrecision,
}

enum TileStorage<G> {
    Gpu(Arc<GpuTile<G>>),
    Cpu(Arc<PixelBuf>),
}

/// A reference-counted handle to a tile, from whichever backend produced it. A
/// handle without a tile stands for one that is not produced yet.
pub struct TileHandle<G> {
    storage: Option<TileStorage<G>>,
}

/// What a handle refers to.
pub enum Tile<G> {
    /// Nothing yet.
    Empty,
    /// A texture.
    Gpu(GpuTile<G>),
    /// Host pixels.
    Cpu(PixelBuf),
}

impl<G> View for TileHandle<G> {
    type V = Tile<G>;

    closed spec fn view(&self) -> Tile<G> {
        match self.storage {
            None => Tile::Empty,
            Some(TileStorage::Gpu(g)) => Tile::Gpu(*g),
            Some(TileStorage::Cpu(p)) => Tile::Cpu(*p),
        }
    }
}

impl<G> Default for TileHandle<G> {
    /// The handle without a tile.
    fn default() -> (r: TileHandle<G>)
        ensures
            r@ is Empty,
    {
        TileHandle { storage: None }
    }
}

impl<G> TileHandle<G> {
    /// A handle to a texture.
    pub fn gpu(texture: G, extent: Extent, precision: TilePrecision) -> (r: TileHandle<G>)
        ensures
            r@ == Tile::Gpu(GpuTile { texture, extent, precision }),
    {
        TileHandle {
            storage: Some(TileStorage::Gpu(Arc::new(GpuTile { texture, extent, precision }))),
        }
    }

    /// A handle to host pixels.
    pub fn from_cpu(pixels: PixelBuf) -> (r: TileHandle<G>)
        ensures
            r@ == Tile::<G>::Cpu(pixels),
    {
        TileHandle { storage: Some(TileStorage::Cpu(Arc::new(pixels))) }
    }

    /// Another handle to the same tile.
    pub fn share(&self) -> (r: TileHandle<G>)
        ensures
            r@ == self@,
    {
        match &self.storage {
            None => TileHandle { storage: None },
            Some(TileStorage::Gpu(g)) => TileHandle {
                storage: Some(TileStorage::Gpu(Arc::clone(g))),
            },
            Some(TileStorage::Cpu(p)) => TileHandle {
                storage: Some(TileStorage::Cpu(Arc::clone(p))),
            },
        }
    }

    /// Whether the handle has no tile.
    pub fn is_empty(&self) -> (r: bool)
        ensures
            r == self@ is Empty,
    {
        self.storage.is_none()
    }

    /// The tile's extent, if there is a tile.
    pub fn extent(&self) -> (r: Option<Extent>)
        ensures
            r == match self@ {
                Tile::Empty => None,
                Tile::Gpu(g) => Some(g.extent),
                Tile::Cpu(p) => Some(p.extent),
            },
    {
        match &self.storage {
            Some(TileStorage::Gpu(g)) => Some(g.extent),
            Some(TileStorage::Cpu(p)) => Some(p.extent),
            None => None,
        }
    }

    /// The tile's precision, if it is a texture.
    pub fn precision(&self) -> (r: Option<TilePrecision>)
        ensures
            r == match self@ {
                Tile::Gpu(g) => Some(g.precision),
                _ => None,
            },
    {
        match &self.storage {
            Some(TileStorage::Gpu(g)) => Some(g.precision),
            _ => None,
        }
    }

    /// The texture, if the tile is one.
    pub fn texture(&self) -> (r: Option<&G>)
        ensures
            match self@ {
                Tile::Gpu(g) => r == Some(&g.texture),
                _ => r is None,
            },
    {
        match &self.storage {
            Some(TileStorage::Gpu(g)) => Some(&g.texture),
            _ => None,
        }
    }

    /// The host pixels, if the tile is on the host.
    pub fn cpu(&self) -> (r: Option<&PixelBuf>)
        ensures
            match self@ {
                Tile::Cpu(p) => r == Some(&p),
                _ => r is None,
            },
    {
        match &self.storage {
            Some(TileStorage::Cpu(p)) => Some(&**p),
            _ => None,
        }
    }
}

} // verus!
