//! The decision core of a tiled, node-graph photo renderer: region algebra,
//! pixel-buffer layout, develop-node parameters and graph splicing, GPU pass
//! planning, render scheduling, device-loss recovery and histogram readback.
//!
//! Everything here works on integers, bytes and IEEE-754 bit patterns; the
//! floating-point pixel math, the GPU calls and the threads live in the
//! application crate around it.

pub mod bytes;
pub mod edit;
pub mod graph;
pub mod handle;
pub mod ieee;
pub mod node;
pub mod nodes;
pub mod params;
pub mod recover;
pub mod sched;
pub mod source;
pub mod stats;
pub mod text;
pub mod tile;
pub mod types;
