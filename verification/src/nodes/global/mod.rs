//! The develop toolset's nodes: the stages a recipe is compiled into, and how
//! they are registered and spliced into a render graph.

pub mod bw_mix;
pub mod clarity;
pub mod color_grade;
pub mod contrast;
pub mod controls;
pub mod creative_lut;
pub mod dehaze;
pub mod exposure;
pub mod grain;
pub mod hsl;
pub mod invalidate;
pub mod laws;
pub mod node;
pub mod noise_reduction;
pub mod segment;
pub mod sharpen;
pub mod texture;
pub mod tone_curve;
pub mod tone_recovery;
pub mod vibrance_sat;
pub mod vignette;
pub mod white_balance;
pub mod whites_blacks;

pub use bw_mix::{BwMixFactory, BwMixNode};
pub use clarity::{ClarityFactory, ClarityNode};
pub use color_grade::{ColorGradeFactory, ColorGradeNode};
pub use contrast::{ContrastFactory, ContrastNode};
pub use creative_lut::{CreativeLutFactory, CreativeLutNode, LookResolver};
pub use dehaze::{DehazeFactory, DehazeNode};
pub use exposure::{ExposureFactory, ExposureNode};
pub use grain::{GrainFactory, GrainNode};
pub use hsl::{HslFactory, HslNode};
pub use noise_reduction::{NoiseReductionFactory, NoiseReductionNode};
pub use sharpen::{SharpenFactory, SharpenNode};
pub use texture::{TextureFactory, TextureNode};
pub use tone_curve::{ToneCurveFactory, ToneCurveNode};
pub use tone_recovery::{ToneRecoveryFactory, ToneRecoveryNode};
pub use vibrance_sat::{VibranceSatFactory, VibranceSatNode};
pub use vignette::{VignetteFactory, VignetteNode};
pub use white_balance::{WhiteBalanceFactory, WhiteBalanceNode};
pub use whites_blacks::{WhitesBlacksFactory, WhitesBlacksNode};
pub use invalidate::invalidates;
pub use node::{GlobalNode, NodeFactory, Prepared};
pub use segment::{build_tone_color_segment, build_wb_segment, register_global_nodes};
