//! `global.vibrance_sat`: chroma scaling, uniform and chroma-weighted.

use vstd::prelude::*;

use crate::bytes::le_words;
use crate::bytes::pack_words;
use crate::edit::GlobalStages;
use crate::edit::Treatment;
use crate::ieee::Double;
use crate::ieee::Single;
use crate::nodes::global::node::append_words;
use crate::nodes::global::node::declare_float;
use crate::nodes::global::node::float_decl;
use crate::nodes::global::node::lemma_conforms_in_order;
use crate::nodes::global::node::lemma_find;
use crate::nodes::global::node::names_apart;
use crate::nodes::global::node::GlobalNode;
use crate::nodes::global::node::NodeFactory;
use crate::nodes::global::node::Prepared;
use crate::nodes::gpu::storage_plan;
use crate::nodes::gpu::with_storage;
use crate::nodes::gpu::GpuPlan;
use crate::params::block_of;
use crate::params::declared;
use crate::params::float_field;
use crate::params::float_of;
use crate::params::lookup_float;
use crate::params::lookup_float_or;
use crate::params::named;
use crate::params::Declared;
use crate::params::Field;
use crate::params::FieldDecl;
use crate::params::Named;
use crate::params::ParamBlock;
use crate::types::NodeId;

verus! {

/// The `global.vibrance_sat` develop node.
#[derive(Clone, Copy, Debug, PartialEq, Eq, Structural)]
pub struct VibranceSatNode {}

/// The parameters an evaluation reads.
#[derive(Clone, Copy, Debug, PartialEq, Eq, Structural)]
pub struct VibranceSatParams {
    /// Vibrance slider.
    pub vibrance: Double,
    /// Saturation slider.
    pub saturation: Double,
}

/// The parameters found in a block; what is missing is neutral.
pub open spec fn vibrance_sat_params(block: Seq<Named>) -> VibranceSatParams {
    VibranceSatParams {
        vibrance: lookup_float_or(block, "vibrance"@, Double { bits: 0 }),
        saturation: lookup_float_or(block, "saturation"@, Double { bits: 0 }),
    }
}

impl VibranceSatNode {
    /// A fresh node.
    pub fn new() -> (r: VibranceSatNode)
        ensures
            r == (VibranceSatNode {  }),
    {
        VibranceSatNode {  }
    }

    /// The parameters of an evaluation, read from its block.
    pub fn params_from(params: &ParamBlock) -> (r: VibranceSatParams)
        ensures
            r == vibrance_sat_params(params@),
    {
        VibranceSatParams {
            vibrance: params.get_f64_or("vibrance", Double { bits: 0 }),
            saturation: params.get_f64_or("saturation", Double { bits: 0 }),
        }
    }

    /// The node's GPU passes.
    pub fn gpu_plan(&self) -> (r: GpuPlan)
        ensures
            r@ == storage_plan(),
            r@.sound(),
    {
        with_storage()
    }
}

impl GlobalNode for VibranceSatNode {
    open spec fn name() -> Seq<char> {
        "global.vibrance_sat"@
    }

    /// A monochrome recipe has no colour left to scale.
    open spec fn identity(p: GlobalStages, f: Prepared) -> bool {
        p.treatment is BlackAndWhite || (p.vibrance.zero() && p.saturation.zero())
    }

    open spec fn ready(p: GlobalStages, f: Prepared) -> bool {
        p.vibrance.finite() && p.saturation.finite()
    }

    open spec fn block(p: GlobalStages, f: Prepared) -> Seq<Named> {
        seq![
            float_of("vibrance"@, p.vibrance),
            float_of("saturation"@, p.saturation),
        ]
    }

    open spec fn schema() -> Seq<Declared> {
        seq![
            float_decl("vibrance"@),
            float_decl("saturation"@),
        ]
    }

    open spec fn apron() -> int {
        0
    }

    fn id() -> (r: NodeId) {
        NodeId("global.vibrance_sat")
    }

    fn is_identity(p: &GlobalStages, f: &Prepared) -> (r: bool) {
        p.treatment == Treatment::BlackAndWhite || (p.vibrance.is_zero() && p.saturation.is_zero())
    }

    fn param_block(p: &GlobalStages, f: &Prepared) -> (r: ParamBlock) {
        let mut fields: Vec<Field> = Vec::new();
        fields.push(float_field("vibrance", p.vibrance));
        fields.push(float_field("saturation", p.saturation));
        assert(named(fields@) =~= Self::block(*p, *f));
        block_of(fields)
    }

    fn params_schema() -> (r: Vec<FieldDecl>) {
        let mut r: Vec<FieldDecl> = Vec::new();
        r.push(declare_float("vibrance"));
        r.push(declare_float("saturation"));
        assert(declared(r@) =~= Self::schema());
        r
    }

    fn margin() -> (r: u32) {
        0
    }

    proof fn law_takes_only_declared_params(p: GlobalStages, f: Prepared) {
        lemma_conforms_in_order(Self::block(p, f), Self::schema());
    }
}

/// Reading a block gives back what the recipe held.
pub proof fn law_vibrance_sat_params_round_trip(p: GlobalStages, f: Prepared)
    ensures
        vibrance_sat_params(VibranceSatNode::block(p, f)) == (VibranceSatParams {
            vibrance: p.vibrance.as_double(),
            saturation: p.saturation.as_double(),
        }),
        lookup_float(VibranceSatNode::block(p, f), "vibrance"@) == Some(p.vibrance.as_double()),
        lookup_float(VibranceSatNode::block(p, f), "saturation"@) == Some(p.saturation.as_double()),
{
    let block = VibranceSatNode::block(p, f);
    reveal_strlit("vibrance");
    reveal_strlit("saturation");
    assert("vibrance"@.len() != "saturation"@.len());
    assert(names_apart(block));
    lemma_find(block, 0);
    lemma_find(block, 1);
}

/// The centre of the skin-hue protection band, degrees (the single `54`).
pub const SKIN_HUE_CENTER_BITS: u32 = 0x4258_0000;

/// The half-width of the skin-hue protection band, degrees (the single `20`).
pub const SKIN_HALF_WIDTH_BITS: u32 = 0x41a0_0000;

impl VibranceSatNode {
    /// The storage buffer: the colour-space matrices, both sliders, and the
    /// skin-hue band.
    pub fn data(matrices: &Vec<u32>, vibrance: Single, saturation: Single) -> (r: Vec<u8>)
        ensures
            r@ == le_words(
                matrices@ + seq![
                    vibrance.bits,
                    saturation.bits,
                    SKIN_HUE_CENTER_BITS,
                    SKIN_HALF_WIDTH_BITS,
                ],
            ),
    {
        let mut words: Vec<u32> = Vec::new();
        append_words(&mut words, matrices);
        words.push(vibrance.bits);
        words.push(saturation.bits);
        words.push(SKIN_HUE_CENTER_BITS);
        words.push(SKIN_HALF_WIDTH_BITS);
        assert(words@ =~= matrices@ + seq![
            vibrance.bits,
            saturation.bits,
            SKIN_HUE_CENTER_BITS,
            SKIN_HALF_WIDTH_BITS,
        ]);
        pack_words(&words)
    }
}

/// An evaluation reads each parameter under its own name; a missing one is at
/// its default.
pub proof fn law_vibrance_sat_params_are_read_by_name(block: Seq<Named>)
    ensures
        lookup_float(block, "vibrance"@) matches Some(v) ==> vibrance_sat_params(block).vibrance == v,
        lookup_float(block, "vibrance"@) is None ==> vibrance_sat_params(block).vibrance == (Double { bits: 0 }),
        lookup_float(block, "saturation"@) matches Some(v) ==> vibrance_sat_params(block).saturation == v,
        lookup_float(block, "saturation"@) is None ==> vibrance_sat_params(block).saturation == (Double { bits: 0 }),
{
}

/// Makes [`VibranceSatNode`]s.
#[derive(Clone, Copy, Debug, PartialEq, Eq, Structural)]
pub struct VibranceSatFactory {}

impl NodeFactory for VibranceSatFactory {
    type Node = VibranceSatNode;

    open spec fn fresh() -> VibranceSatNode {
        VibranceSatNode {  }
    }

    fn instantiate(&self) -> (r: VibranceSatNode) {
        VibranceSatNode::new()
    }
}

} // verus!
