//! `global.dehaze`: dark-channel haze removal with a guided-filter refined
//! transmission map.

use vstd::prelude::*;

use crate::bytes::law_words_lie_end_to_end;
use crate::bytes::le32;
use crate::bytes::le_words;
use crate::bytes::pack_words;
use crate::edit::GlobalStages;
use crate::ieee::Double;
use crate::ieee::Single;
use crate::nodes::global::node::declare_float;
use crate::nodes::global::node::float_decl;
use crate::nodes::global::node::lemma_conforms_in_order;
use crate::nodes::global::node::lemma_find;
use crate::nodes::global::node::GlobalNode;
use crate::nodes::global::node::NodeFactory;
use crate::nodes::global::node::Prepared;
use crate::nodes::gpu::haze_plan;
use crate::nodes::gpu::with_haze;
use crate::nodes::gpu::GpuPlan;
use crate::params::block_of;
use crate::params::declared;
use crate::params::float_field;
use crate::params::float_of;
use crate::params::lookup_float;
use crate::params::lookup_float_or;
use crate::params::named;
use crate::params::Declared;
use crate::params::Field;
use crate::params::FieldDecl;
use crate::params::Named;
use crate::params::ParamBlock;
use crate::types::NodeId;

verus! {

/// Dark-channel half-window, pixels.
pub const R_DARK: u32 = 7;

/// Refining filter half-window, pixels. Two windows are chained.
pub const REFINE_RADIUS: u32 = 8;

/// The `global.dehaze` develop node.
#[derive(Clone, Copy, Debug, PartialEq, Eq, Structural)]
pub struct DehazeNode {}

/// The parameters an evaluation reads.
#[derive(Clone, Copy, Debug, PartialEq, Eq, Structural)]
pub struct DehazeParams {
    /// Slider position.
    pub dehaze: Double,
}

/// The parameters found in a block; what is missing is neutral.
pub open spec fn dehaze_params(block: Seq<Named>) -> DehazeParams {
    DehazeParams {
        dehaze: lookup_float_or(block, "dehaze"@, Double { bits: 0 }),
    }
}

/// The words of the uniform buffer.
pub open spec fn dehaze_layout(weights: [Single; 3], dehaze: Single) -> Seq<u32> {
    seq![weights[0].bits, weights[1].bits, weights[2].bits, dehaze.bits]
}

impl DehazeNode {
    /// A fresh node.
    pub fn new() -> (r: DehazeNode)
        ensures
            r == (DehazeNode {  }),
    {
        DehazeNode {  }
    }

    /// The parameters of an evaluation, read from its block.
    pub fn params_from(params: &ParamBlock) -> (r: DehazeParams)
        ensures
            r == dehaze_params(params@),
    {
        DehazeParams {
            dehaze: params.get_f64_or("dehaze", Double { bits: 0 }),
        }
    }

    /// The uniform buffer: luma weights and the slider.
    pub fn uniforms(weights: [Single; 3], dehaze: Single) -> (r: Vec<u8>)
        ensures
            r@ == le_words(dehaze_layout(weights, dehaze)),
    {
        let words: Vec<u32> = vec![weights[0].bits, weights[1].bits, weights[2].bits, dehaze.bits];
        assert(words@ =~= seq![weights[0].bits, weights[1].bits, weights[2].bits, dehaze.bits]);
        pack_words(&words)
    }

    /// The node's GPU passes.
    pub fn gpu_plan(&self) -> (r: GpuPlan)
        ensures
            r@ == haze_plan(),
            r@.sound(),
    {
        with_haze()
    }
}

impl GlobalNode for DehazeNode {
    open spec fn name() -> Seq<char> {
        "global.dehaze"@
    }

    open spec fn identity(p: GlobalStages, f: Prepared) -> bool {
        p.presence.dehaze.zero()
    }

    open spec fn ready(p: GlobalStages, f: Prepared) -> bool {
        p.presence.dehaze.finite()
    }

    open spec fn block(p: GlobalStages, f: Prepared) -> Seq<Named> {
        seq![
            float_of("dehaze"@, p.presence.dehaze),
        ]
    }

    open spec fn schema() -> Seq<Declared> {
        seq![
            float_decl("dehaze"@),
        ]
    }

    open spec fn apron() -> int {
        R_DARK + 2 * REFINE_RADIUS
    }

    fn id() -> (r: NodeId) {
        NodeId("global.dehaze")
    }

    fn is_identity(p: &GlobalStages, f: &Prepared) -> (r: bool) {
        p.presence.dehaze.is_zero()
    }

    fn param_block(p: &GlobalStages, f: &Prepared) -> (r: ParamBlock) {
        let mut fields: Vec<Field> = Vec::new();
        fields.push(float_field("dehaze", p.presence.dehaze));
        assert(named(fields@) =~= Self::block(*p, *f));
        block_of(fields)
    }

    fn params_schema() -> (r: Vec<FieldDecl>) {
        let mut r: Vec<FieldDecl> = Vec::new();
        r.push(declare_float("dehaze"));
        assert(declared(r@) =~= Self::schema());
        r
    }

    fn margin() -> (r: u32) {
        R_DARK + 2 * REFINE_RADIUS
    }

    proof fn law_takes_only_declared_params(p: GlobalStages, f: Prepared) {
        lemma_conforms_in_order(Self::block(p, f), Self::schema());
    }
}

/// Reading a block gives back what the recipe held.
pub proof fn law_dehaze_params_round_trip(p: GlobalStages, f: Prepared)
    ensures
        dehaze_params(DehazeNode::block(p, f)) == (DehazeParams {
            dehaze: p.presence.dehaze.as_double(),
        }),
        lookup_float(DehazeNode::block(p, f), "dehaze"@) == Some(p.presence.dehaze.as_double()),
{
    let block = DehazeNode::block(p, f);
    lemma_find(block, 0);
}

/// An evaluation reads each parameter under its own name; a missing one is at
/// its default.
pub proof fn law_dehaze_params_are_read_by_name(block: Seq<Named>)
    ensures
        lookup_float(block, "dehaze"@) matches Some(v) ==> dehaze_params(block).dehaze == v,
        lookup_float(block, "dehaze"@) is None ==> dehaze_params(block).dehaze == (Double { bits: 0 }),
{
}

/// Each number has its own place in the uniform buffer, and the rest is padding.
pub proof fn law_dehaze_numbers_have_their_own_places(weights: [Single; 3], dehaze: Single)
    ensures
        le_words(dehaze_layout(weights, dehaze)).len() == 16,
        le_words(dehaze_layout(weights, dehaze)).subrange(0, 4) == le32(weights[0].bits),
        le_words(dehaze_layout(weights, dehaze)).subrange(4, 8) == le32(weights[1].bits),
        le_words(dehaze_layout(weights, dehaze)).subrange(8, 12) == le32(weights[2].bits),
        le_words(dehaze_layout(weights, dehaze)).subrange(12, 16) == le32(dehaze.bits),
{
    let words = dehaze_layout(weights, dehaze);
    law_words_lie_end_to_end(words, 0);
    law_words_lie_end_to_end(words, 1);
    law_words_lie_end_to_end(words, 2);
    law_words_lie_end_to_end(words, 3);
}

/// Makes [`DehazeNode`]s.
#[derive(Clone, Copy, Debug, PartialEq, Eq, Structural)]
pub struct DehazeFactory {}

impl NodeFactory for DehazeFactory {
    type Node = DehazeNode;

    open spec fn fresh() -> DehazeNode {
        DehazeNode {  }
    }

    fn instantiate(&self) -> (r: DehazeNode) {
        DehazeNode::new()
    }
}

} // verus!
