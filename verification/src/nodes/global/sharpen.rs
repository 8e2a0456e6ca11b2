//! `global.sharpen`: a Gaussian unsharp mask on encoded luma.

use vstd::prelude::*;

use crate::bytes::law_words_lie_end_to_end;
use crate::bytes::le32;
use crate::bytes::le_words;
use crate::bytes::pack_words;
use crate::edit::GlobalStages;
use crate::ieee::Double;
use crate::ieee::Single;
use crate::nodes::global::node::declare_float;
use crate::nodes::global::node::float_decl;
use crate::nodes::global::node::lemma_conforms_in_order;
use crate::nodes::global::node::lemma_find;
use crate::nodes::global::node::names_apart;
use crate::nodes::global::node::GlobalNode;
use crate::nodes::global::node::NodeFactory;
use crate::nodes::global::node::Prepared;
use crate::nodes::gpu::filter_plan;
use crate::nodes::gpu::with_filter;
use crate::nodes::gpu::GpuPlan;
use crate::params::block_of;
use crate::params::declared;
use crate::params::float_field;
use crate::params::float_of;
use crate::params::lookup_float;
use crate::params::lookup_float_or;
use crate::params::named;
use crate::params::Declared;
use crate::params::Field;
use crate::params::FieldDecl;
use crate::params::Named;
use crate::params::ParamBlock;
use crate::types::NodeId;

verus! {

/// Worst-case Gaussian half-window, pixels.
pub const MAX_BLUR_RADIUS: u32 = 9;

/// Half-window of the edge mask, pixels.
pub const MASK_RADIUS: u32 = 2;

/// The blur window plus the mask window, whatever the radius is set to.
pub const APRON: u32 = MAX_BLUR_RADIUS + MASK_RADIUS;

/// The `global.sharpen` develop node.
#[derive(Clone, Copy, Debug, PartialEq, Eq, Structural)]
pub struct SharpenNode {}

/// The parameters an evaluation reads.
#[derive(Clone, Copy, Debug, PartialEq, Eq, Structural)]
pub struct SharpenParams {
    /// Strength.
    pub amount: Double,
    /// Gaussian sigma, pixels.
    pub radius: Double,
    /// Halo suppression.
    pub detail: Double,
    /// Edge masking.
    pub masking: Double,
}

/// The parameters found in a block; what is missing is neutral.
pub open spec fn sharpen_params(block: Seq<Named>) -> SharpenParams {
    SharpenParams {
        amount: lookup_float_or(block, "amount"@, Double { bits: 0 }),
        radius: lookup_float_or(block, "radius"@, Double { bits: 0x3ff0_0000_0000_0000 }),
        detail: lookup_float_or(block, "detail"@, Double { bits: 0 }),
        masking: lookup_float_or(block, "masking"@, Double { bits: 0 }),
    }
}

/// The words of the uniform buffer.
pub open spec fn sharpen_layout(weights: [Single; 3], amount: Single, radius: Single, detail: Single, masking: Single) -> Seq<u32> {
    seq![weights[0].bits, weights[1].bits, weights[2].bits, amount.bits, radius.bits, detail.bits, masking.bits, 0]
}

impl SharpenNode {
    /// A fresh node.
    pub fn new() -> (r: SharpenNode)
        ensures
            r == (SharpenNode {  }),
    {
        SharpenNode {  }
    }

    /// The parameters of an evaluation, read from its block.
    pub fn params_from(params: &ParamBlock) -> (r: SharpenParams)
        ensures
            r == sharpen_params(params@),
    {
        SharpenParams {
            amount: params.get_f64_or("amount", Double { bits: 0 }),
            radius: params.get_f64_or("radius", Double { bits: 0x3ff0_0000_0000_0000 }),
            detail: params.get_f64_or("detail", Double { bits: 0 }),
            masking: params.get_f64_or("masking", Double { bits: 0 }),
        }
    }

    /// The uniform buffer: luma weights and the four sliders, then padding.
    pub fn uniforms(weights: [Single; 3], amount: Single, radius: Single, detail: Single, masking: Single) -> (r: Vec<u8>)
        ensures
            r@ == le_words(sharpen_layout(weights, amount, radius, detail, masking)),
    {
        let words: Vec<u32> = vec![weights[0].bits, weights[1].bits, weights[2].bits, amount.bits, radius.bits, detail.bits, masking.bits, 0];
        assert(words@ =~= seq![weights[0].bits, weights[1].bits, weights[2].bits, amount.bits, radius.bits, detail.bits, masking.bits, 0]);
        pack_words(&words)
    }

    /// The node's GPU passes.
    pub fn gpu_plan(&self) -> (r: GpuPlan)
        ensures
            r@ == filter_plan("pass_h"@, "pass_v"@),
            r@.sound(),
    {
        with_filter("pass_h", "pass_v")
    }
}

impl GlobalNode for SharpenNode {
    open spec fn name() -> Seq<char> {
        "global.sharpen"@
    }

    /// Without an amount the other sliders have nothing to scale.
    open spec fn identity(p: GlobalStages, f: Prepared) -> bool {
        p.detail.sharpen.amount.zero()
    }

    open spec fn ready(p: GlobalStages, f: Prepared) -> bool {
        p.detail.sharpen.amount.finite() && p.detail.sharpen.radius.finite() && p.detail.sharpen.detail.finite() && p.detail.sharpen.masking.finite()
    }

    open spec fn block(p: GlobalStages, f: Prepared) -> Seq<Named> {
        seq![
            float_of("amount"@, p.detail.sharpen.amount),
            float_of("radius"@, p.detail.sharpen.radius),
            float_of("detail"@, p.detail.sharpen.detail),
            float_of("masking"@, p.detail.sharpen.masking),
        ]
    }

    open spec fn schema() -> Seq<Declared> {
        seq![
            float_decl("amount"@),
            float_decl("radius"@),
            float_decl("detail"@),
            float_decl("masking"@),
        ]
    }

    open spec fn apron() -> int {
        APRON as int
    }

    fn id() -> (r: NodeId) {
        NodeId("global.sharpen")
    }

    fn is_identity(p: &GlobalStages, f: &Prepared) -> (r: bool) {
        p.detail.sharpen.amount.is_zero()
    }

    fn param_block(p: &GlobalStages, f: &Prepared) -> (r: ParamBlock) {
        let mut fields: Vec<Field> = Vec::new();
        fields.push(float_field("amount", p.detail.sharpen.amount));
        fields.push(float_field("radius", p.detail.sharpen.radius));
        fields.push(float_field("detail", p.detail.sharpen.detail));
        fields.push(float_field("masking", p.detail.sharpen.masking));
        assert(named(fields@) =~= Self::block(*p, *f));
        block_of(fields)
    }

    fn params_schema() -> (r: Vec<FieldDecl>) {
        let mut r: Vec<FieldDecl> = Vec::new();
        r.push(declare_float("amount"));
        r.push(declare_float("radius"));
        r.push(declare_float("detail"));
        r.push(declare_float("masking"));
        assert(declared(r@) =~= Self::schema());
        r
    }

    fn margin() -> (r: u32) {
        APRON
    }

    proof fn law_takes_only_declared_params(p: GlobalStages, f: Prepared) {
        lemma_conforms_in_order(Self::block(p, f), Self::schema());
    }
}

/// Reading a block gives back what the recipe held.
pub proof fn law_sharpen_params_round_trip(p: GlobalStages, f: Prepared)
    ensures
        sharpen_params(SharpenNode::block(p, f)) == (SharpenParams {
            amount: p.detail.sharpen.amount.as_double(),
            radius: p.detail.sharpen.radius.as_double(),
            detail: p.detail.sharpen.detail.as_double(),
            masking: p.detail.sharpen.masking.as_double(),
        }),
        lookup_float(SharpenNode::block(p, f), "amount"@) == Some(p.detail.sharpen.amount.as_double()),
        lookup_float(SharpenNode::block(p, f), "radius"@) == Some(p.detail.sharpen.radius.as_double()),
        lookup_float(SharpenNode::block(p, f), "detail"@) == Some(p.detail.sharpen.detail.as_double()),
        lookup_float(SharpenNode::block(p, f), "masking"@) == Some(p.detail.sharpen.masking.as_double()),
{
    let block = SharpenNode::block(p, f);
    reveal_strlit("amount");
    reveal_strlit("radius");
    reveal_strlit("detail");
    reveal_strlit("masking");
    assert("amount"@[0] != "radius"@[0]);
    assert("amount"@[0] != "detail"@[0]);
    assert("amount"@.len() != "masking"@.len());
    assert("radius"@[0] != "detail"@[0]);
    assert("radius"@.len() != "masking"@.len());
    assert("detail"@.len() != "masking"@.len());
    assert(names_apart(block));
    lemma_find(block, 0);
    lemma_find(block, 1);
    lemma_find(block, 2);
    lemma_find(block, 3);
}

/// An evaluation reads each parameter under its own name; a missing one is at
/// its default.
pub proof fn law_sharpen_params_are_read_by_name(block: Seq<Named>)
    ensures
        lookup_float(block, "amount"@) matches Some(v) ==> sharpen_params(block).amount == v,
        lookup_float(block, "amount"@) is None ==> sharpen_params(block).amount == (Double { bits: 0 }),
        lookup_float(block, "radius"@) matches Some(v) ==> sharpen_params(block).radius == v,
        lookup_float(block, "radius"@) is None ==> sharpen_params(block).radius == (Double { bits: 0x3ff0_0000_0000_0000 }),
        lookup_float(block, "detail"@) matches Some(v) ==> sharpen_params(block).detail == v,
        lookup_float(block, "detail"@) is None ==> sharpen_params(block).detail == (Double { bits: 0 }),
        lookup_float(block, "masking"@) matches Some(v) ==> sharpen_params(block).masking == v,
        lookup_float(block, "masking"@) is None ==> sharpen_params(block).masking == (Double { bits: 0 }),
{
}

/// Each number has its own place in the uniform buffer, and the rest is padding.
pub proof fn law_sharpen_numbers_have_their_own_places(weights: [Single; 3], amount: Single, radius: Single, detail: Single, masking: Single)
    ensures
        le_words(sharpen_layout(weights, amount, radius, detail, masking)).len() == 32,
        le_words(sharpen_layout(weights, amount, radius, detail, masking)).subrange(0, 4) == le32(weights[0].bits),
        le_words(sharpen_layout(weights, amount, radius, detail, masking)).subrange(4, 8) == le32(weights[1].bits),
        le_words(sharpen_layout(weights, amount, radius, detail, masking)).subrange(8, 12) == le32(weights[2].bits),
        le_words(sharpen_layout(weights, amount, radius, detail, masking)).subrange(12, 16) == le32(amount.bits),
        le_words(sharpen_layout(weights, amount, radius, detail, masking)).subrange(16, 20) == le32(radius.bits),
        le_words(sharpen_layout(weights, amount, radius, detail, masking)).subrange(20, 24) == le32(detail.bits),
        le_words(sharpen_layout(weights, amount, radius, detail, masking)).subrange(24, 28) == le32(masking.bits),
        le_words(sharpen_layout(weights, amount, radius, detail, masking)).subrange(28, 32) == le32(0),
{
    let words = sharpen_layout(weights, amount, radius, detail, masking);
    law_words_lie_end_to_end(words, 0);
    law_words_lie_end_to_end(words, 1);
    law_words_lie_end_to_end(words, 2);
    law_words_lie_end_to_end(words, 3);
    law_words_lie_end_to_end(words, 4);
    law_words_lie_end_to_end(words, 5);
    law_words_lie_end_to_end(words, 6);
    law_words_lie_end_to_end(words, 7);
}

/// Makes [`SharpenNode`]s.
#[derive(Clone, Copy, Debug, PartialEq, Eq, Structural)]
pub struct SharpenFactory {}

impl NodeFactory for SharpenFactory {
    type Node = SharpenNode;

    open spec fn fresh() -> SharpenNode {
        SharpenNode {  }
    }

    fn instantiate(&self) -> (r: SharpenNode) {
        SharpenNode::new()
    }
}

} // verus!
