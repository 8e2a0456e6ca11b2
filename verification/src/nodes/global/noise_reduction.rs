//! `global.noise_reduction`: two joint bilateral filters over luma and chroma.

use vstd::prelude::*;

use crate::bytes::law_words_lie_end_to_end;
use crate::bytes::le32;
use crate::bytes::le_words;
use crate::bytes::pack_words;
use crate::edit::GlobalStages;
use crate::ieee::Double;
use crate::ieee::Single;
use crate::nodes::global::node::declare_float;
use crate::nodes::global::node::float_decl;
use crate::nodes::global::node::lemma_conforms_in_order;
use crate::nodes::global::node::lemma_find;
use crate::nodes::global::node::names_apart;
use crate::nodes::global::node::GlobalNode;
use crate::nodes::global::node::NodeFactory;
use crate::nodes::global::node::Prepared;
use crate::nodes::gpu::uniform_plan;
use crate::nodes::gpu::with_uniform;
use crate::nodes::gpu::GpuPlan;
use crate::params::block_of;
use crate::params::declared;
use crate::params::float_field;
use crate::params::float_of;
use crate::params::lookup_float;
use crate::params::lookup_float_or;
use crate::params::named;
use crate::params::Declared;
use crate::params::Field;
use crate::params::FieldDecl;
use crate::params::Named;
use crate::params::ParamBlock;
use crate::types::NodeId;

verus! {

/// Luminance half-window, pixels.
pub const LUMA_RADIUS: u32 = 3;

/// Chroma half-window, pixels: the wider of the two.
pub const CHROMA_RADIUS: u32 = 5;

/// The `global.noise_reduction` develop node.
#[derive(Clone, Copy, Debug, PartialEq, Eq, Structural)]
pub struct NoiseReductionNode {}

/// The parameters an evaluation reads.
#[derive(Clone, Copy, Debug, PartialEq, Eq, Structural)]
pub struct NoiseReductionParams {
    /// Luminance strength.
    pub luma: Double,
    /// Luminance detail.
    pub luma_detail: Double,
    /// Chroma strength.
    pub chroma: Double,
    /// Chroma detail.
    pub chroma_detail: Double,
}

/// The parameters found in a block; what is missing is neutral.
pub open spec fn noise_reduction_params(block: Seq<Named>) -> NoiseReductionParams {
    NoiseReductionParams {
        luma: lookup_float_or(block, "luma"@, Double { bits: 0 }),
        luma_detail: lookup_float_or(block, "luma_detail"@, Double { bits: 0 }),
        chroma: lookup_float_or(block, "chroma"@, Double { bits: 0 }),
        chroma_detail: lookup_float_or(block, "chroma_detail"@, Double { bits: 0 }),
    }
}

/// The words of the uniform buffer.
pub open spec fn noise_reduction_layout(weights: [Single; 3], luma: Single, luma_detail: Single, chroma: Single, chroma_detail: Single) -> Seq<u32> {
    seq![weights[0].bits, weights[1].bits, weights[2].bits, luma.bits, luma_detail.bits, chroma.bits, chroma_detail.bits, 0]
}

impl NoiseReductionNode {
    /// A fresh node.
    pub fn new() -> (r: NoiseReductionNode)
        ensures
            r == (NoiseReductionNode {  }),
    {
        NoiseReductionNode {  }
    }

    /// The parameters of an evaluation, read from its block.
    pub fn params_from(params: &ParamBlock) -> (r: NoiseReductionParams)
        ensures
            r == noise_reduction_params(params@),
    {
        NoiseReductionParams {
            luma: params.get_f64_or("luma", Double { bits: 0 }),
            luma_detail: params.get_f64_or("luma_detail", Double { bits: 0 }),
            chroma: params.get_f64_or("chroma", Double { bits: 0 }),
            chroma_detail: params.get_f64_or("chroma_detail", Double { bits: 0 }),
        }
    }

    /// The uniform buffer: luma weights and the four sliders, then padding.
    pub fn uniforms(weights: [Single; 3], luma: Single, luma_detail: Single, chroma: Single, chroma_detail: Single) -> (r: Vec<u8>)
        ensures
            r@ == le_words(noise_reduction_layout(weights, luma, luma_detail, chroma, chroma_detail)),
    {
        let words: Vec<u32> = vec![weights[0].bits, weights[1].bits, weights[2].bits, luma.bits, luma_detail.bits, chroma.bits, chroma_detail.bits, 0];
        assert(words@ =~= seq![weights[0].bits, weights[1].bits, weights[2].bits, luma.bits, luma_detail.bits, chroma.bits, chroma_detail.bits, 0]);
        pack_words(&words)
    }

    /// The node's GPU passes.
    pub fn gpu_plan(&self) -> (r: GpuPlan)
        ensures
            r@ == uniform_plan(),
            r@.sound(),
    {
        with_uniform()
    }
}

impl GlobalNode for NoiseReductionNode {
    open spec fn name() -> Seq<char> {
        "global.noise_reduction"@
    }

    /// Without strength the detail sliders have nothing to shape.
    open spec fn identity(p: GlobalStages, f: Prepared) -> bool {
        p.detail.nr.luma.zero() && p.detail.nr.chroma.zero()
    }

    open spec fn ready(p: GlobalStages, f: Prepared) -> bool {
        p.detail.nr.luma.finite() && p.detail.nr.luma_detail.finite() && p.detail.nr.chroma.finite() && p.detail.nr.chroma_detail.finite()
    }

    open spec fn block(p: GlobalStages, f: Prepared) -> Seq<Named> {
        seq![
            float_of("luma"@, p.detail.nr.luma),
            float_of("luma_detail"@, p.detail.nr.luma_detail),
            float_of("chroma"@, p.detail.nr.chroma),
            float_of("chroma_detail"@, p.detail.nr.chroma_detail),
        ]
    }

    open spec fn schema() -> Seq<Declared> {
        seq![
            float_decl("luma"@),
            float_decl("luma_detail"@),
            float_decl("chroma"@),
            float_decl("chroma_detail"@),
        ]
    }

    open spec fn apron() -> int {
        CHROMA_RADIUS as int
    }

    fn id() -> (r: NodeId) {
        NodeId("global.noise_reduction")
    }

    fn is_identity(p: &GlobalStages, f: &Prepared) -> (r: bool) {
        p.detail.nr.luma.is_zero() && p.detail.nr.chroma.is_zero()
    }

    fn param_block(p: &GlobalStages, f: &Prepared) -> (r: ParamBlock) {
        let mut fields: Vec<Field> = Vec::new();
        fields.push(float_field("luma", p.detail.nr.luma));
        fields.push(float_field("luma_detail", p.detail.nr.luma_detail));
        fields.push(float_field("chroma", p.detail.nr.chroma));
        fields.push(float_field("chroma_detail", p.detail.nr.chroma_detail));
        assert(named(fields@) =~= Self::block(*p, *f));
        block_of(fields)
    }

    fn params_schema() -> (r: Vec<FieldDecl>) {
        let mut r: Vec<FieldDecl> = Vec::new();
        r.push(declare_float("luma"));
        r.push(declare_float("luma_detail"));
        r.push(declare_float("chroma"));
        r.push(declare_float("chroma_detail"));
        assert(declared(r@) =~= Self::schema());
        r
    }

    fn margin() -> (r: u32) {
        CHROMA_RADIUS
    }

    proof fn law_takes_only_declared_params(p: GlobalStages, f: Prepared) {
        lemma_conforms_in_order(Self::block(p, f), Self::schema());
    }
}

/// Reading a block gives back what the recipe held.
pub proof fn law_noise_reduction_params_round_trip(p: GlobalStages, f: Prepared)
    ensures
        noise_reduction_params(NoiseReductionNode::block(p, f)) == (NoiseReductionParams {
            luma: p.detail.nr.luma.as_double(),
            luma_detail: p.detail.nr.luma_detail.as_double(),
            chroma: p.detail.nr.chroma.as_double(),
            chroma_detail: p.detail.nr.chroma_detail.as_double(),
        }),
        lookup_float(NoiseReductionNode::block(p, f), "luma"@) == Some(p.detail.nr.luma.as_double()),
        lookup_float(NoiseReductionNode::block(p, f), "luma_detail"@) == Some(p.detail.nr.luma_detail.as_double()),
        lookup_float(NoiseReductionNode::block(p, f), "chroma"@) == Some(p.detail.nr.chroma.as_double()),
        lookup_float(NoiseReductionNode::block(p, f), "chroma_detail"@) == Some(p.detail.nr.chroma_detail.as_double()),
{
    let block = NoiseReductionNode::block(p, f);
    reveal_strlit("luma");
    reveal_strlit("luma_detail");
    reveal_strlit("chroma");
    reveal_strlit("chroma_detail");
    assert("luma"@.len() != "luma_detail"@.len());
    assert("luma"@.len() != "chroma"@.len());
    assert("luma"@.len() != "chroma_detail"@.len());
    assert("luma_detail"@.len() != "chroma"@.len());
    assert("luma_detail"@.len() != "chroma_detail"@.len());
    assert("chroma"@.len() != "chroma_detail"@.len());
    assert(names_apart(block));
    lemma_find(block, 0);
    lemma_find(block, 1);
    lemma_find(block, 2);
    lemma_find(block, 3);
}

/// An evaluation reads each parameter under its own name; a missing one is at
/// its default.
pub proof fn law_noise_reduction_params_are_read_by_name(block: Seq<Named>)
    ensures
        lookup_float(block, "luma"@) matches Some(v) ==> noise_reduction_params(block).luma == v,
        lookup_float(block, "luma"@) is None ==> noise_reduction_params(block).luma == (Double { bits: 0 }),
        lookup_float(block, "luma_detail"@) matches Some(v) ==> noise_reduction_params(block).luma_detail == v,
        lookup_float(block, "luma_detail"@) is None ==> noise_reduction_params(block).luma_detail == (Double { bits: 0 }),
        lookup_float(block, "chroma"@) matches Some(v) ==> noise_reduction_params(block).chroma == v,
        lookup_float(block, "chroma"@) is None ==> noise_reduction_params(block).chroma == (Double { bits: 0 }),
        lookup_float(block, "chroma_detail"@) matches Some(v) ==> noise_reduction_params(block).chroma_detail == v,
        lookup_float(block, "chroma_detail"@) is None ==> noise_reduction_params(block).chroma_detail == (Double { bits: 0 }),
{
}

/// Each number has its own place in the uniform buffer, and the rest is padding.
pub proof fn law_noise_reduction_numbers_have_their_own_places(weights: [Single; 3], luma: Single, luma_detail: Single, chroma: Single, chroma_detail: Single)
    ensures
        le_words(noise_reduction_layout(weights, luma, luma_detail, chroma, chroma_detail)).len() == 32,
        le_words(noise_reduction_layout(weights, luma, luma_detail, chroma, chroma_detail)).subrange(0, 4) == le32(weights[0].bits),
        le_words(noise_reduction_layout(weights, luma, luma_detail, chroma, chroma_detail)).subrange(4, 8) == le32(weights[1].bits),
        le_words(noise_reduction_layout(weights, luma, luma_detail, chroma, chroma_detail)).subrange(8, 12) == le32(weights[2].bits),
        le_words(noise_reduction_layout(weights, luma, luma_detail, chroma, chroma_detail)).subrange(12, 16) == le32(luma.bits),
        le_words(noise_reduction_layout(weights, luma, luma_detail, chroma, chroma_detail)).subrange(16, 20) == le32(luma_detail.bits),
        le_words(noise_reduction_layout(weights, luma, luma_detail, chroma, chroma_detail)).subrange(20, 24) == le32(chroma.bits),
        le_words(noise_reduction_layout(weights, luma, luma_detail, chroma, chroma_detail)).subrange(24, 28) == le32(chroma_detail.bits),
        le_words(noise_reduction_layout(weights, luma, luma_detail, chroma, chroma_detail)).subrange(28, 32) == le32(0),
{
    let words = noise_reduction_layout(weights, luma, luma_detail, chroma, chroma_detail);
    law_words_lie_end_to_end(words, 0);
    law_words_lie_end_to_end(words, 1);
    law_words_lie_end_to_end(words, 2);
    law_words_lie_end_to_end(words, 3);
    law_words_lie_end_to_end(words, 4);
    law_words_lie_end_to_end(words, 5);
    law_words_lie_end_to_end(words, 6);
    law_words_lie_end_to_end(words, 7);
}

/// Makes [`NoiseReductionNode`]s.
#[derive(Clone, Copy, Debug, PartialEq, Eq, Structural)]
pub struct NoiseReductionFactory {}

impl NodeFactory for NoiseReductionFactory {
    type Node = NoiseReductionNode;

    open spec fn fresh() -> NoiseReductionNode {
        NoiseReductionNode {  }
    }

    fn instantiate(&self) -> (r: NoiseReductionNode) {
        NoiseReductionNode::new()
    }
}

} // verus!
