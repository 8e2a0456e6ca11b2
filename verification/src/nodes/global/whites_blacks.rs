//! `global.whites_blacks`: an endpoint remap in the encoded domain.

use vstd::prelude::*;

use crate::bytes::law_words_lie_end_to_end;
use crate::bytes::le32;
use crate::bytes::le_words;
use crate::bytes::pack_words;
use crate::edit::GlobalStages;
use crate::ieee::Double;
use crate::ieee::Single;
use crate::nodes::global::node::declare_float;
use crate::nodes::global::node::float_decl;
use crate::nodes::global::node::lemma_conforms_in_order;
use crate::nodes::global::node::lemma_find;
use crate::nodes::global::node::names_apart;
use crate::nodes::global::node::GlobalNode;
use crate::nodes::global::node::NodeFactory;
use crate::nodes::global::node::Prepared;
use crate::nodes::gpu::uniform_plan;
use crate::nodes::gpu::with_uniform;
use crate::nodes::gpu::GpuPlan;
use crate::params::block_of;
use crate::params::declared;
use crate::params::float_field;
use crate::params::float_of;
use crate::params::lookup_float;
use crate::params::lookup_float_or;
use crate::params::named;
use crate::params::Declared;
use crate::params::Field;
use crate::params::FieldDecl;
use crate::params::Named;
use crate::params::ParamBlock;
use crate::types::NodeId;

verus! {

/// The `global.whites_blacks` develop node.
#[derive(Clone, Copy, Debug, PartialEq, Eq, Structural)]
pub struct WhitesBlacksNode {}

/// The parameters an evaluation reads.
#[derive(Clone, Copy, Debug, PartialEq, Eq, Structural)]
pub struct WhitesBlacksParams {
    /// White slider.
    pub whites: Double,
    /// Black slider.
    pub blacks: Double,
}

/// The parameters found in a block; what is missing is neutral.
pub open spec fn whites_blacks_params(block: Seq<Named>) -> WhitesBlacksParams {
    WhitesBlacksParams {
        whites: lookup_float_or(block, "whites"@, Double { bits: 0 }),
        blacks: lookup_float_or(block, "blacks"@, Double { bits: 0 }),
    }
}

/// The words of the uniform buffer.
pub open spec fn whites_blacks_layout(black_point: Single, white_point: Single) -> Seq<u32> {
    seq![black_point.bits, white_point.bits, 0, 0]
}

impl WhitesBlacksNode {
    /// A fresh node.
    pub fn new() -> (r: WhitesBlacksNode)
        ensures
            r == (WhitesBlacksNode {  }),
    {
        WhitesBlacksNode {  }
    }

    /// The parameters of an evaluation, read from its block.
    pub fn params_from(params: &ParamBlock) -> (r: WhitesBlacksParams)
        ensures
            r == whites_blacks_params(params@),
    {
        WhitesBlacksParams {
            whites: params.get_f64_or("whites", Double { bits: 0 }),
            blacks: params.get_f64_or("blacks", Double { bits: 0 }),
        }
    }

    /// The uniform buffer: both input levels, then padding.
    pub fn uniforms(black_point: Single, white_point: Single) -> (r: Vec<u8>)
        ensures
            r@ == le_words(whites_blacks_layout(black_point, white_point)),
    {
        let words: Vec<u32> = vec![black_point.bits, white_point.bits, 0, 0];
        assert(words@ =~= seq![black_point.bits, white_point.bits, 0, 0]);
        pack_words(&words)
    }

    /// The node's GPU passes.
    pub fn gpu_plan(&self) -> (r: GpuPlan)
        ensures
            r@ == uniform_plan(),
            r@.sound(),
    {
        with_uniform()
    }
}

impl GlobalNode for WhitesBlacksNode {
    open spec fn name() -> Seq<char> {
        "global.whites_blacks"@
    }

    open spec fn identity(p: GlobalStages, f: Prepared) -> bool {
        p.whites.zero() && p.blacks.zero()
    }

    open spec fn ready(p: GlobalStages, f: Prepared) -> bool {
        p.whites.finite() && p.blacks.finite()
    }

    open spec fn block(p: GlobalStages, f: Prepared) -> Seq<Named> {
        seq![
            float_of("whites"@, p.whites),
            float_of("blacks"@, p.blacks),
        ]
    }

    open spec fn schema() -> Seq<Declared> {
        seq![
            float_decl("whites"@),
            float_decl("blacks"@),
        ]
    }

    open spec fn apron() -> int {
        0
    }

    fn id() -> (r: NodeId) {
        NodeId("global.whites_blacks")
    }

    fn is_identity(p: &GlobalStages, f: &Prepared) -> (r: bool) {
        p.whites.is_zero() && p.blacks.is_zero()
    }

    fn param_block(p: &GlobalStages, f: &Prepared) -> (r: ParamBlock) {
        let mut fields: Vec<Field> = Vec::new();
        fields.push(float_field("whites", p.whites));
        fields.push(float_field("blacks", p.blacks));
        assert(named(fields@) =~= Self::block(*p, *f));
        block_of(fields)
    }

    fn params_schema() -> (r: Vec<FieldDecl>) {
        let mut r: Vec<FieldDecl> = Vec::new();
        r.push(declare_float("whites"));
        r.push(declare_float("blacks"));
        assert(declared(r@) =~= Self::schema());
        r
    }

    fn margin() -> (r: u32) {
        0
    }

    proof fn law_takes_only_declared_params(p: GlobalStages, f: Prepared) {
        lemma_conforms_in_order(Self::block(p, f), Self::schema());
    }
}

/// Reading a block gives back what the recipe held.
pub proof fn law_whites_blacks_params_round_trip(p: GlobalStages, f: Prepared)
    ensures
        whites_blacks_params(WhitesBlacksNode::block(p, f)) == (WhitesBlacksParams {
            whites: p.whites.as_double(),
            blacks: p.blacks.as_double(),
        }),
        lookup_float(WhitesBlacksNode::block(p, f), "whites"@) == Some(p.whites.as_double()),
        lookup_float(WhitesBlacksNode::block(p, f), "blacks"@) == Some(p.blacks.as_double()),
{
    let block = WhitesBlacksNode::block(p, f);
    reveal_strlit("whites");
    reveal_strlit("blacks");
    assert("whites"@[0] != "blacks"@[0]);
    assert(names_apart(block));
    lemma_find(block, 0);
    lemma_find(block, 1);
}

/// An evaluation reads each parameter under its own name; a missing one is at
/// its default.
pub proof fn law_whites_blacks_params_are_read_by_name(block: Seq<Named>)
    ensures
        lookup_float(block, "whites"@) matches Some(v) ==> whites_blacks_params(block).whites == v,
        lookup_float(block, "whites"@) is None ==> whites_blacks_params(block).whites == (Double { bits: 0 }),
        lookup_float(block, "blacks"@) matches Some(v) ==> whites_blacks_params(block).blacks == v,
        lookup_float(block, "blacks"@) is None ==> whites_blacks_params(block).blacks == (Double { bits: 0 }),
{
}

/// Each number has its own place in the uniform buffer, and the rest is padding.
pub proof fn law_whites_blacks_numbers_have_their_own_places(black_point: Single, white_point: Single)
    ensures
        le_words(whites_blacks_layout(black_point, white_point)).len() == 16,
        le_words(whites_blacks_layout(black_point, white_point)).subrange(0, 4) == le32(black_point.bits),
        le_words(whites_blacks_layout(black_point, white_point)).subrange(4, 8) == le32(white_point.bits),
        le_words(whites_blacks_layout(black_point, white_point)).subrange(8, 12) == le32(0),
        le_words(whites_blacks_layout(black_point, white_point)).subrange(12, 16) == le32(0),
{
    let words = whites_blacks_layout(black_point, white_point);
    law_words_lie_end_to_end(words, 0);
    law_words_lie_end_to_end(words, 1);
    law_words_lie_end_to_end(words, 2);
    law_words_lie_end_to_end(words, 3);
}

/// Makes [`WhitesBlacksNode`]s.
#[derive(Clone, Copy, Debug, PartialEq, Eq, Structural)]
pub struct WhitesBlacksFactory {}

impl NodeFactory for WhitesBlacksFactory {
    type Node = WhitesBlacksNode;

    open spec fn fresh() -> WhitesBlacksNode {
        WhitesBlacksNode {  }
    }

    fn instantiate(&self) -> (r: WhitesBlacksNode) {
        WhitesBlacksNode::new()
    }
}

} // verus!
