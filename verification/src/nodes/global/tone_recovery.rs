//! `global.tone_recovery`: highlight and shadow recovery over a guided-filter base.

use vstd::prelude::*;

use crate::bytes::law_words_lie_end_to_end;
use crate::bytes::le32;
use crate::bytes::le_words;
use crate::bytes::pack_words;
use crate::edit::GlobalStages;
use crate::ieee::Double;
use crate::ieee::Single;
use crate::nodes::global::node::declare_float;
use crate::nodes::global::node::float_decl;
use crate::nodes::global::node::lemma_conforms_in_order;
use crate::nodes::global::node::lemma_find;
use crate::nodes::global::node::names_apart;
use crate::nodes::global::node::GlobalNode;
use crate::nodes::global::node::NodeFactory;
use crate::nodes::global::node::Prepared;
use crate::nodes::gpu::filter_plan;
use crate::nodes::gpu::with_filter;
use crate::nodes::gpu::GpuPlan;
use crate::params::block_of;
use crate::params::declared;
use crate::params::float_field;
use crate::params::float_of;
use crate::params::lookup_float;
use crate::params::lookup_float_or;
use crate::params::named;
use crate::params::Declared;
use crate::params::Field;
use crate::params::FieldDecl;
use crate::params::Named;
use crate::params::ParamBlock;
use crate::types::NodeId;

verus! {

/// Guided-filter half-window, pixels. Two windows are chained.
pub const GUIDE_RADIUS: u32 = 8;

/// The `global.tone_recovery` develop node.
#[derive(Clone, Copy, Debug, PartialEq, Eq, Structural)]
pub struct ToneRecoveryNode {}

/// The parameters an evaluation reads.
#[derive(Clone, Copy, Debug, PartialEq, Eq, Structural)]
pub struct ToneRecoveryParams {
    /// Highlight slider.
    pub highlights: Double,
    /// Shadow slider.
    pub shadows: Double,
}

/// The parameters found in a block; what is missing is neutral.
pub open spec fn tone_recovery_params(block: Seq<Named>) -> ToneRecoveryParams {
    ToneRecoveryParams {
        highlights: lookup_float_or(block, "highlights"@, Double { bits: 0 }),
        shadows: lookup_float_or(block, "shadows"@, Double { bits: 0 }),
    }
}

/// The words of the uniform buffer.
pub open spec fn tone_recovery_layout(weights: [Single; 3], highlights: Single, shadows: Single) -> Seq<u32> {
    seq![weights[0].bits, weights[1].bits, weights[2].bits, highlights.bits, shadows.bits, 0, 0, 0]
}

impl ToneRecoveryNode {
    /// A fresh node.
    pub fn new() -> (r: ToneRecoveryNode)
        ensures
            r == (ToneRecoveryNode {  }),
    {
        ToneRecoveryNode {  }
    }

    /// The parameters of an evaluation, read from its block.
    pub fn params_from(params: &ParamBlock) -> (r: ToneRecoveryParams)
        ensures
            r == tone_recovery_params(params@),
    {
        ToneRecoveryParams {
            highlights: params.get_f64_or("highlights", Double { bits: 0 }),
            shadows: params.get_f64_or("shadows", Double { bits: 0 }),
        }
    }

    /// The uniform buffer: luma weights, both sliders, then padding.
    pub fn uniforms(weights: [Single; 3], highlights: Single, shadows: Single) -> (r: Vec<u8>)
        ensures
            r@ == le_words(tone_recovery_layout(weights, highlights, shadows)),
    {
        let words: Vec<u32> = vec![weights[0].bits, weights[1].bits, weights[2].bits, highlights.bits, shadows.bits, 0, 0, 0];
        assert(words@ =~= seq![weights[0].bits, weights[1].bits, weights[2].bits, highlights.bits, shadows.bits, 0, 0, 0]);
        pack_words(&words)
    }

    /// The node's GPU passes.
    pub fn gpu_plan(&self) -> (r: GpuPlan)
        ensures
            r@ == filter_plan("pass_a"@, "pass_c"@),
            r@.sound(),
    {
        with_filter("pass_a", "pass_c")
    }
}

impl GlobalNode for ToneRecoveryNode {
    open spec fn name() -> Seq<char> {
        "global.tone_recovery"@
    }

    open spec fn identity(p: GlobalStages, f: Prepared) -> bool {
        p.highlights.zero() && p.shadows.zero()
    }

    open spec fn ready(p: GlobalStages, f: Prepared) -> bool {
        p.highlights.finite() && p.shadows.finite()
    }

    open spec fn block(p: GlobalStages, f: Prepared) -> Seq<Named> {
        seq![
            float_of("highlights"@, p.highlights),
            float_of("shadows"@, p.shadows),
        ]
    }

    open spec fn schema() -> Seq<Declared> {
        seq![
            float_decl("highlights"@),
            float_decl("shadows"@),
        ]
    }

    open spec fn apron() -> int {
        2 * GUIDE_RADIUS
    }

    fn id() -> (r: NodeId) {
        NodeId("global.tone_recovery")
    }

    fn is_identity(p: &GlobalStages, f: &Prepared) -> (r: bool) {
        p.highlights.is_zero() && p.shadows.is_zero()
    }

    fn param_block(p: &GlobalStages, f: &Prepared) -> (r: ParamBlock) {
        let mut fields: Vec<Field> = Vec::new();
        fields.push(float_field("highlights", p.highlights));
        fields.push(float_field("shadows", p.shadows));
        assert(named(fields@) =~= Self::block(*p, *f));
        block_of(fields)
    }

    fn params_schema() -> (r: Vec<FieldDecl>) {
        let mut r: Vec<FieldDecl> = Vec::new();
        r.push(declare_float("highlights"));
        r.push(declare_float("shadows"));
        assert(declared(r@) =~= Self::schema());
        r
    }

    fn margin() -> (r: u32) {
        2 * GUIDE_RADIUS
    }

    proof fn law_takes_only_declared_params(p: GlobalStages, f: Prepared) {
        lemma_conforms_in_order(Self::block(p, f), Self::schema());
    }
}

/// Reading a block gives back what the recipe held.
pub proof fn law_tone_recovery_params_round_trip(p: GlobalStages, f: Prepared)
    ensures
        tone_recovery_params(ToneRecoveryNode::block(p, f)) == (ToneRecoveryParams {
            highlights: p.highlights.as_double(),
            shadows: p.shadows.as_double(),
        }),
        lookup_float(ToneRecoveryNode::block(p, f), "highlights"@) == Some(p.highlights.as_double()),
        lookup_float(ToneRecoveryNode::block(p, f), "shadows"@) == Some(p.shadows.as_double()),
{
    let block = ToneRecoveryNode::block(p, f);
    reveal_strlit("highlights");
    reveal_strlit("shadows");
    assert("highlights"@.len() != "shadows"@.len());
    assert(names_apart(block));
    lemma_find(block, 0);
    lemma_find(block, 1);
}

/// An evaluation reads each parameter under its own name; a missing one is at
/// its default.
pub proof fn law_tone_recovery_params_are_read_by_name(block: Seq<Named>)
    ensures
        lookup_float(block, "highlights"@) matches Some(v) ==> tone_recovery_params(block).highlights == v,
        lookup_float(block, "highlights"@) is None ==> tone_recovery_params(block).highlights == (Double { bits: 0 }),
        lookup_float(block, "shadows"@) matches Some(v) ==> tone_recovery_params(block).shadows == v,
        lookup_float(block, "shadows"@) is None ==> tone_recovery_params(block).shadows == (Double { bits: 0 }),
{
}

/// Each number has its own place in the uniform buffer, and the rest is padding.
pub proof fn law_tone_recovery_numbers_have_their_own_places(weights: [Single; 3], highlights: Single, shadows: Single)
    ensures
        le_words(tone_recovery_layout(weights, highlights, shadows)).len() == 32,
        le_words(tone_recovery_layout(weights, highlights, shadows)).subrange(0, 4) == le32(weights[0].bits),
        le_words(tone_recovery_layout(weights, highlights, shadows)).subrange(4, 8) == le32(weights[1].bits),
        le_words(tone_recovery_layout(weights, highlights, shadows)).subrange(8, 12) == le32(weights[2].bits),
        le_words(tone_recovery_layout(weights, highlights, shadows)).subrange(12, 16) == le32(highlights.bits),
        le_words(tone_recovery_layout(weights, highlights, shadows)).subrange(16, 20) == le32(shadows.bits),
        le_words(tone_recovery_layout(weights, highlights, shadows)).subrange(20, 24) == le32(0),
        le_words(tone_recovery_layout(weights, highlights, shadows)).subrange(24, 28) == le32(0),
        le_words(tone_recovery_layout(weights, highlights, shadows)).subrange(28, 32) == le32(0),
{
    let words = tone_recovery_layout(weights, highlights, shadows);
    law_words_lie_end_to_end(words, 0);
    law_words_lie_end_to_end(words, 1);
    law_words_lie_end_to_end(words, 2);
    law_words_lie_end_to_end(words, 3);
    law_words_lie_end_to_end(words, 4);
    law_words_lie_end_to_end(words, 5);
    law_words_lie_end_to_end(words, 6);
    law_words_lie_end_to_end(words, 7);
}

/// Makes [`ToneRecoveryNode`]s.
#[derive(Clone, Copy, Debug, PartialEq, Eq, Structural)]
pub struct ToneRecoveryFactory {}

impl NodeFactory for ToneRecoveryFactory {
    type Node = ToneRecoveryNode;

    open spec fn fresh() -> ToneRecoveryNode {
        ToneRecoveryNode {  }
    }

    fn instantiate(&self) -> (r: ToneRecoveryNode) {
        ToneRecoveryNode::new()
    }
}

} // verus!
