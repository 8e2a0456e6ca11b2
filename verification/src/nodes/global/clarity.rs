//! `global.clarity`: guided-filter local contrast on encoded luma.

use vstd::prelude::*;

use crate::bytes::law_words_lie_end_to_end;
use crate::bytes::le32;
use crate::bytes::le_words;
use crate::bytes::pack_words;
use crate::edit::GlobalStages;
use crate::ieee::Double;
use crate::ieee::Single;
use crate::nodes::global::node::declare_float;
use crate::nodes::global::node::float_decl;
use crate::nodes::global::node::lemma_conforms_in_order;
use crate::nodes::global::node::lemma_find;
use crate::nodes::global::node::GlobalNode;
use crate::nodes::global::node::NodeFactory;
use crate::nodes::global::node::Prepared;
use crate::nodes::gpu::filter_plan;
use crate::nodes::gpu::with_filter;
use crate::nodes::gpu::GpuPlan;
use crate::params::block_of;
use crate::params::declared;
use crate::params::float_field;
use crate::params::float_of;
use crate::params::lookup_float;
use crate::params::lookup_float_or;
use crate::params::named;
use crate::params::Declared;
use crate::params::Field;
use crate::params::FieldDecl;
use crate::params::Named;
use crate::params::ParamBlock;
use crate::types::NodeId;

verus! {

/// Guided-filter half-window, pixels. Two windows are chained.
pub const GUIDE_RADIUS: u32 = 12;

/// The `global.clarity` develop node.
#[derive(Clone, Copy, Debug, PartialEq, Eq, Structural)]
pub struct ClarityNode {}

/// The parameters an evaluation reads.
#[derive(Clone, Copy, Debug, PartialEq, Eq, Structural)]
pub struct ClarityParams {
    /// Slider position.
    pub clarity: Double,
}

/// The parameters found in a block; what is missing is neutral.
pub open spec fn clarity_params(block: Seq<Named>) -> ClarityParams {
    ClarityParams {
        clarity: lookup_float_or(block, "clarity"@, Double { bits: 0 }),
    }
}

/// The words of the uniform buffer.
pub open spec fn clarity_layout(weights: [Single; 3], clarity: Single) -> Seq<u32> {
    seq![weights[0].bits, weights[1].bits, weights[2].bits, clarity.bits]
}

impl ClarityNode {
    /// A fresh node.
    pub fn new() -> (r: ClarityNode)
        ensures
            r == (ClarityNode {  }),
    {
        ClarityNode {  }
    }

    /// The parameters of an evaluation, read from its block.
    pub fn params_from(params: &ParamBlock) -> (r: ClarityParams)
        ensures
            r == clarity_params(params@),
    {
        ClarityParams {
            clarity: params.get_f64_or("clarity", Double { bits: 0 }),
        }
    }

    /// The uniform buffer: luma weights and the slider.
    pub fn uniforms(weights: [Single; 3], clarity: Single) -> (r: Vec<u8>)
        ensures
            r@ == le_words(clarity_layout(weights, clarity)),
    {
        let words: Vec<u32> = vec![weights[0].bits, weights[1].bits, weights[2].bits, clarity.bits];
        assert(words@ =~= seq![weights[0].bits, weights[1].bits, weights[2].bits, clarity.bits]);
        pack_words(&words)
    }

    /// The node's GPU passes.
    pub fn gpu_plan(&self) -> (r: GpuPlan)
        ensures
            r@ == filter_plan("pass_a"@, "pass_c"@),
            r@.sound(),
    {
        with_filter("pass_a", "pass_c")
    }
}

impl GlobalNode for ClarityNode {
    open spec fn name() -> Seq<char> {
        "global.clarity"@
    }

    open spec fn identity(p: GlobalStages, f: Prepared) -> bool {
        p.presence.clarity.zero()
    }

    open spec fn ready(p: GlobalStages, f: Prepared) -> bool {
        p.presence.clarity.finite()
    }

    open spec fn block(p: GlobalStages, f: Prepared) -> Seq<Named> {
        seq![
            float_of("clarity"@, p.presence.clarity),
        ]
    }

    open spec fn schema() -> Seq<Declared> {
        seq![
            float_decl("clarity"@),
        ]
    }

    open spec fn apron() -> int {
        2 * GUIDE_RADIUS
    }

    fn id() -> (r: NodeId) {
        NodeId("global.clarity")
    }

    fn is_identity(p: &GlobalStages, f: &Prepared) -> (r: bool) {
        p.presence.clarity.is_zero()
    }

    fn param_block(p: &GlobalStages, f: &Prepared) -> (r: ParamBlock) {
        let mut fields: Vec<Field> = Vec::new();
        fields.push(float_field("clarity", p.presence.clarity));
        assert(named(fields@) =~= Self::block(*p, *f));
        block_of(fields)
    }

    fn params_schema() -> (r: Vec<FieldDecl>) {
        let mut r: Vec<FieldDecl> = Vec::new();
        r.push(declare_float("clarity"));
        assert(declared(r@) =~= Self::schema());
        r
    }

    fn margin() -> (r: u32) {
        2 * GUIDE_RADIUS
    }

    proof fn law_takes_only_declared_params(p: GlobalStages, f: Prepared) {
        lemma_conforms_in_order(Self::block(p, f), Self::schema());
    }
}

/// Reading a block gives back what the recipe held.
pub proof fn law_clarity_params_round_trip(p: GlobalStages, f: Prepared)
    ensures
        clarity_params(ClarityNode::block(p, f)) == (ClarityParams {
            clarity: p.presence.clarity.as_double(),
        }),
        lookup_float(ClarityNode::block(p, f), "clarity"@) == Some(p.presence.clarity.as_double()),
{
    let block = ClarityNode::block(p, f);
    lemma_find(block, 0);
}

/// An evaluation reads each parameter under its own name; a missing one is at
/// its default.
pub proof fn law_clarity_params_are_read_by_name(block: Seq<Named>)
    ensures
        lookup_float(block, "clarity"@) matches Some(v) ==> clarity_params(block).clarity == v,
        lookup_float(block, "clarity"@) is None ==> clarity_params(block).clarity == (Double { bits: 0 }),
{
}

/// Each number has its own place in the uniform buffer, and the rest is padding.
pub proof fn law_clarity_numbers_have_their_own_places(weights: [Single; 3], clarity: Single)
    ensures
        le_words(clarity_layout(weights, clarity)).len() == 16,
        le_words(clarity_layout(weights, clarity)).subrange(0, 4) == le32(weights[0].bits),
        le_words(clarity_layout(weights, clarity)).subrange(4, 8) == le32(weights[1].bits),
        le_words(clarity_layout(weights, clarity)).subrange(8, 12) == le32(weights[2].bits),
        le_words(clarity_layout(weights, clarity)).subrange(12, 16) == le32(clarity.bits),
{
    let words = clarity_layout(weights, clarity);
    law_words_lie_end_to_end(words, 0);
    law_words_lie_end_to_end(words, 1);
    law_words_lie_end_to_end(words, 2);
    law_words_lie_end_to_end(words, 3);
}

/// Makes [`ClarityNode`]s.
#[derive(Clone, Copy, Debug, PartialEq, Eq, Structural)]
pub struct ClarityFactory {}

impl NodeFactory for ClarityFactory {
    type Node = ClarityNode;

    open spec fn fresh() -> ClarityNode {
        ClarityNode {  }
    }

    fn instantiate(&self) -> (r: ClarityNode) {
        ClarityNode::new()
    }
}

} // verus!
