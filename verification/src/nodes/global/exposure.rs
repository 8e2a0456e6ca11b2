//! `global.exposure`: a scene-linear gain in stops.

use vstd::prelude::*;

use crate::bytes::law_words_lie_end_to_end;
use crate::bytes::le32;
use crate::bytes::le_words;
use crate::bytes::pack_words;
use crate::edit::GlobalStages;
use crate::ieee::Double;
use crate::ieee::Single;
use crate::nodes::global::node::declare_float;
use crate::nodes::global::node::float_decl;
use crate::nodes::global::node::lemma_conforms_in_order;
use crate::nodes::global::node::lemma_find;
use crate::nodes::global::node::GlobalNode;
use crate::nodes::global::node::NodeFactory;
use crate::nodes::global::node::Prepared;
use crate::nodes::gpu::uniform_plan;
use crate::nodes::gpu::with_uniform;
use crate::nodes::gpu::GpuPlan;
use crate::params::block_of;
use crate::params::declared;
use crate::params::float_field;
use crate::params::float_of;
use crate::params::lookup_float;
use crate::params::lookup_float_or;
use crate::params::named;
use crate::params::Declared;
use crate::params::Field;
use crate::params::FieldDecl;
use crate::params::Named;
use crate::params::ParamBlock;
use crate::types::NodeId;

verus! {

/// The `global.exposure` develop node.
#[derive(Clone, Copy, Debug, PartialEq, Eq, Structural)]
pub struct ExposureNode {}

/// The parameters an evaluation reads.
#[derive(Clone, Copy, Debug, PartialEq, Eq, Structural)]
pub struct ExposureParams {
    /// Stops.
    pub ev: Double,
}

/// The parameters found in a block; what is missing is neutral.
pub open spec fn exposure_params(block: Seq<Named>) -> ExposureParams {
    ExposureParams {
        ev: lookup_float_or(block, "ev"@, Double { bits: 0 }),
    }
}

/// The words of the uniform buffer.
pub open spec fn exposure_layout(ev: Single) -> Seq<u32> {
    seq![ev.bits, 0, 0, 0]
}

impl ExposureNode {
    /// A fresh node.
    pub fn new() -> (r: ExposureNode)
        ensures
            r == (ExposureNode {  }),
    {
        ExposureNode {  }
    }

    /// The parameters of an evaluation, read from its block.
    pub fn params_from(params: &ParamBlock) -> (r: ExposureParams)
        ensures
            r == exposure_params(params@),
    {
        ExposureParams {
            ev: params.get_f64_or("ev", Double { bits: 0 }),
        }
    }

    /// The uniform buffer: stops, then padding.
    pub fn uniforms(ev: Single) -> (r: Vec<u8>)
        ensures
            r@ == le_words(exposure_layout(ev)),
    {
        let words: Vec<u32> = vec![ev.bits, 0, 0, 0];
        assert(words@ =~= seq![ev.bits, 0, 0, 0]);
        pack_words(&words)
    }

    /// The node's GPU passes.
    pub fn gpu_plan(&self) -> (r: GpuPlan)
        ensures
            r@ == uniform_plan(),
            r@.sound(),
    {
        with_uniform()
    }
}

impl GlobalNode for ExposureNode {
    open spec fn name() -> Seq<char> {
        "global.exposure"@
    }

    open spec fn identity(p: GlobalStages, f: Prepared) -> bool {
        p.exposure.zero()
    }

    open spec fn ready(p: GlobalStages, f: Prepared) -> bool {
        p.exposure.finite()
    }

    open spec fn block(p: GlobalStages, f: Prepared) -> Seq<Named> {
        seq![
            float_of("ev"@, p.exposure),
        ]
    }

    open spec fn schema() -> Seq<Declared> {
        seq![
            float_decl("ev"@),
        ]
    }

    open spec fn apron() -> int {
        0
    }

    fn id() -> (r: NodeId) {
        NodeId("global.exposure")
    }

    fn is_identity(p: &GlobalStages, f: &Prepared) -> (r: bool) {
        p.exposure.is_zero()
    }

    fn param_block(p: &GlobalStages, f: &Prepared) -> (r: ParamBlock) {
        let mut fields: Vec<Field> = Vec::new();
        fields.push(float_field("ev", p.exposure));
        assert(named(fields@) =~= Self::block(*p, *f));
        block_of(fields)
    }

    fn params_schema() -> (r: Vec<FieldDecl>) {
        let mut r: Vec<FieldDecl> = Vec::new();
        r.push(declare_float("ev"));
        assert(declared(r@) =~= Self::schema());
        r
    }

    fn margin() -> (r: u32) {
        0
    }

    proof fn law_takes_only_declared_params(p: GlobalStages, f: Prepared) {
        lemma_conforms_in_order(Self::block(p, f), Self::schema());
    }
}

/// Reading a block gives back what the recipe held.
pub proof fn law_exposure_params_round_trip(p: GlobalStages, f: Prepared)
    ensures
        exposure_params(ExposureNode::block(p, f)) == (ExposureParams {
            ev: p.exposure.as_double(),
        }),
        lookup_float(ExposureNode::block(p, f), "ev"@) == Some(p.exposure.as_double()),
{
    let block = ExposureNode::block(p, f);
    lemma_find(block, 0);
}

/// An evaluation reads each parameter under its own name; a missing one is at
/// its default.
pub proof fn law_exposure_params_are_read_by_name(block: Seq<Named>)
    ensures
        lookup_float(block, "ev"@) matches Some(v) ==> exposure_params(block).ev == v,
        lookup_float(block, "ev"@) is None ==> exposure_params(block).ev == (Double { bits: 0 }),
{
}

/// Each number has its own place in the uniform buffer, and the rest is padding.
pub proof fn law_exposure_numbers_have_their_own_places(ev: Single)
    ensures
        le_words(exposure_layout(ev)).len() == 16,
        le_words(exposure_layout(ev)).subrange(0, 4) == le32(ev.bits),
        le_words(exposure_layout(ev)).subrange(4, 8) == le32(0),
        le_words(exposure_layout(ev)).subrange(8, 12) == le32(0),
        le_words(exposure_layout(ev)).subrange(12, 16) == le32(0),
{
    let words = exposure_layout(ev);
    law_words_lie_end_to_end(words, 0);
    law_words_lie_end_to_end(words, 1);
    law_words_lie_end_to_end(words, 2);
    law_words_lie_end_to_end(words, 3);
}

/// Makes [`ExposureNode`]s.
#[derive(Clone, Copy, Debug, PartialEq, Eq, Structural)]
pub struct ExposureFactory {}

impl NodeFactory for ExposureFactory {
    type Node = ExposureNode;

    open spec fn fresh() -> ExposureNode {
        ExposureNode {  }
    }

    fn instantiate(&self) -> (r: ExposureNode) {
        ExposureNode::new()
    }
}

} // verus!
