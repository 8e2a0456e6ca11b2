//! The node library: develop nodes, the resampling node, and how a node's GPU
//! passes are laid out.

pub mod global;
pub mod gpu;
pub mod resize;
pub mod support;
