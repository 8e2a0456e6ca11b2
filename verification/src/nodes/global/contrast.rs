//! `global.contrast`: a power curve pinned at encoded mid-gray and at both ends.

use vstd::prelude::*;

use crate::bytes::law_words_lie_end_to_end;
use crate::bytes::le32;
use crate::bytes::le_words;
use crate::bytes::pack_words;
use crate::edit::GlobalStages;
use crate::ieee::Double;
use crate::ieee::Single;
use crate::nodes::global::node::declare_float;
use crate::nodes::global::node::float_decl;
use crate::nodes::global::node::lemma_conforms_in_order;
use crate::nodes::global::node::lemma_find;
use crate::nodes::global::node::GlobalNode;
use crate::nodes::global::node::NodeFactory;
use crate::nodes::global::node::Prepared;
use crate::nodes::gpu::uniform_plan;
use crate::nodes::gpu::with_uniform;
use crate::nodes::gpu::GpuPlan;
use crate::params::block_of;
use crate::params::declared;
use crate::params::float_field;
use crate::params::float_of;
use crate::params::lookup_float;
use crate::params::lookup_float_or;
use crate::params::named;
use crate::params::Declared;
use crate::params::Field;
use crate::params::FieldDecl;
use crate::params::Named;
use crate::params::ParamBlock;
use crate::types::NodeId;

verus! {

/// The `global.contrast` develop node.
#[derive(Clone, Copy, Debug, PartialEq, Eq, Structural)]
pub struct ContrastNode {}

/// The parameters an evaluation reads.
#[derive(Clone, Copy, Debug, PartialEq, Eq, Structural)]
pub struct ContrastParams {
    /// Slider position.
    pub amount: Double,
}

/// The parameters found in a block; what is missing is neutral.
pub open spec fn contrast_params(block: Seq<Named>) -> ContrastParams {
    ContrastParams {
        amount: lookup_float_or(block, "amount"@, Double { bits: 0 }),
    }
}

/// The words of the uniform buffer.
pub open spec fn contrast_layout(gamma: Single, pivot: Single) -> Seq<u32> {
    seq![gamma.bits, pivot.bits, 0, 0]
}

impl ContrastNode {
    /// A fresh node.
    pub fn new() -> (r: ContrastNode)
        ensures
            r == (ContrastNode {  }),
    {
        ContrastNode {  }
    }

    /// The parameters of an evaluation, read from its block.
    pub fn params_from(params: &ParamBlock) -> (r: ContrastParams)
        ensures
            r == contrast_params(params@),
    {
        ContrastParams {
            amount: params.get_f64_or("amount", Double { bits: 0 }),
        }
    }

    /// The uniform buffer: exponent and pivot, then padding.
    pub fn uniforms(gamma: Single, pivot: Single) -> (r: Vec<u8>)
        ensures
            r@ == le_words(contrast_layout(gamma, pivot)),
    {
        let words: Vec<u32> = vec![gamma.bits, pivot.bits, 0, 0];
        assert(words@ =~= seq![gamma.bits, pivot.bits, 0, 0]);
        pack_words(&words)
    }

    /// The node's GPU passes.
    pub fn gpu_plan(&self) -> (r: GpuPlan)
        ensures
            r@ == uniform_plan(),
            r@.sound(),
    {
        with_uniform()
    }
}

impl GlobalNode for ContrastNode {
    open spec fn name() -> Seq<char> {
        "global.contrast"@
    }

    open spec fn identity(p: GlobalStages, f: Prepared) -> bool {
        p.contrast.zero()
    }

    open spec fn ready(p: GlobalStages, f: Prepared) -> bool {
        p.contrast.finite()
    }

    open spec fn block(p: GlobalStages, f: Prepared) -> Seq<Named> {
        seq![
            float_of("amount"@, p.contrast),
        ]
    }

    open spec fn schema() -> Seq<Declared> {
        seq![
            float_decl("amount"@),
        ]
    }

    open spec fn apron() -> int {
        0
    }

    fn id() -> (r: NodeId) {
        NodeId("global.contrast")
    }

    fn is_identity(p: &GlobalStages, f: &Prepared) -> (r: bool) {
        p.contrast.is_zero()
    }

    fn param_block(p: &GlobalStages, f: &Prepared) -> (r: ParamBlock) {
        let mut fields: Vec<Field> = Vec::new();
        fields.push(float_field("amount", p.contrast));
        assert(named(fields@) =~= Self::block(*p, *f));
        block_of(fields)
    }

    fn params_schema() -> (r: Vec<FieldDecl>) {
        let mut r: Vec<FieldDecl> = Vec::new();
        r.push(declare_float("amount"));
        assert(declared(r@) =~= Self::schema());
        r
    }

    fn margin() -> (r: u32) {
        0
    }

    proof fn law_takes_only_declared_params(p: GlobalStages, f: Prepared) {
        lemma_conforms_in_order(Self::block(p, f), Self::schema());
    }
}

/// Reading a block gives back what the recipe held.
pub proof fn law_contrast_params_round_trip(p: GlobalStages, f: Prepared)
    ensures
        contrast_params(ContrastNode::block(p, f)) == (ContrastParams {
            amount: p.contrast.as_double(),
        }),
        lookup_float(ContrastNode::block(p, f), "amount"@) == Some(p.contrast.as_double()),
{
    let block = ContrastNode::block(p, f);
    lemma_find(block, 0);
}

/// An evaluation reads each parameter under its own name; a missing one is at
/// its default.
pub proof fn law_contrast_params_are_read_by_name(block: Seq<Named>)
    ensures
        lookup_float(block, "amount"@) matches Some(v) ==> contrast_params(block).amount == v,
        lookup_float(block, "amount"@) is None ==> contrast_params(block).amount == (Double { bits: 0 }),
{
}

/// Each number has its own place in the uniform buffer, and the rest is padding.
pub proof fn law_contrast_numbers_have_their_own_places(gamma: Single, pivot: Single)
    ensures
        le_words(contrast_layout(gamma, pivot)).len() == 16,
        le_words(contrast_layout(gamma, pivot)).subrange(0, 4) == le32(gamma.bits),
        le_words(contrast_layout(gamma, pivot)).subrange(4, 8) == le32(pivot.bits),
        le_words(contrast_layout(gamma, pivot)).subrange(8, 12) == le32(0),
        le_words(contrast_layout(gamma, pivot)).subrange(12, 16) == le32(0),
{
    let words = contrast_layout(gamma, pivot);
    law_words_lie_end_to_end(words, 0);
    law_words_lie_end_to_end(words, 1);
    law_words_lie_end_to_end(words, 2);
    law_words_lie_end_to_end(words, 3);
}

/// Makes [`ContrastNode`]s.
#[derive(Clone, Copy, Debug, PartialEq, Eq, Structural)]
pub struct ContrastFactory {}

impl NodeFactory for ContrastFactory {
    type Node = ContrastNode;

    open spec fn fresh() -> ContrastNode {
        ContrastNode {  }
    }

    fn instantiate(&self) -> (r: ContrastNode) {
        ContrastNode::new()
    }
}

} // verus!
