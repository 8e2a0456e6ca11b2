//! `global.texture`: boosts or suppresses the band between two box blurs of encoded luma.

use vstd::prelude::*;

use crate::bytes::law_words_lie_end_to_end;
use crate::bytes::le32;
use crate::bytes::le_words;
use crate::bytes::pack_words;
use crate::edit::GlobalStages;
use crate::ieee::Double;
use crate::ieee::Single;
use crate::nodes::global::node::declare_float;
use crate::nodes::global::node::float_decl;
use crate::nodes::global::node::lemma_conforms_in_order;
use crate::nodes::global::node::lemma_find;
use crate::nodes::global::node::GlobalNode;
use crate::nodes::global::node::NodeFactory;
use crate::nodes::global::node::Prepared;
use crate::nodes::gpu::uniform_plan;
use crate::nodes::gpu::with_uniform;
use crate::nodes::gpu::GpuPlan;
use crate::params::block_of;
use crate::params::declared;
use crate::params::float_field;
use crate::params::float_of;
use crate::params::lookup_float;
use crate::params::lookup_float_or;
use crate::params::named;
use crate::params::Declared;
use crate::params::Field;
use crate::params::FieldDecl;
use crate::params::Named;
use crate::params::ParamBlock;
use crate::types::NodeId;

verus! {

/// The fine box-blur radius: finer grain is left out of the band.
pub const R1: u32 = 2;

/// The coarse box-blur radius: broader shape is left out of the band.
pub const R2: u32 = 6;

/// The `global.texture` develop node.
#[derive(Clone, Copy, Debug, PartialEq, Eq, Structural)]
pub struct TextureNode {}

/// The parameters an evaluation reads.
#[derive(Clone, Copy, Debug, PartialEq, Eq, Structural)]
pub struct TextureParams {
    /// Slider position.
    pub texture: Double,
}

/// The parameters found in a block; what is missing is neutral.
pub open spec fn texture_params(block: Seq<Named>) -> TextureParams {
    TextureParams {
        texture: lookup_float_or(block, "texture"@, Double { bits: 0 }),
    }
}

/// The words of the uniform buffer.
pub open spec fn texture_layout(weights: [Single; 3], texture: Single) -> Seq<u32> {
    seq![weights[0].bits, weights[1].bits, weights[2].bits, texture.bits]
}

impl TextureNode {
    /// A fresh node.
    pub fn new() -> (r: TextureNode)
        ensures
            r == (TextureNode {  }),
    {
        TextureNode {  }
    }

    /// The parameters of an evaluation, read from its block.
    pub fn params_from(params: &ParamBlock) -> (r: TextureParams)
        ensures
            r == texture_params(params@),
    {
        TextureParams {
            texture: params.get_f64_or("texture", Double { bits: 0 }),
        }
    }

    /// The uniform buffer: luma weights and the slider.
    pub fn uniforms(weights: [Single; 3], texture: Single) -> (r: Vec<u8>)
        ensures
            r@ == le_words(texture_layout(weights, texture)),
    {
        let words: Vec<u32> = vec![weights[0].bits, weights[1].bits, weights[2].bits, texture.bits];
        assert(words@ =~= seq![weights[0].bits, weights[1].bits, weights[2].bits, texture.bits]);
        pack_words(&words)
    }

    /// The node's GPU passes.
    pub fn gpu_plan(&self) -> (r: GpuPlan)
        ensures
            r@ == uniform_plan(),
            r@.sound(),
    {
        with_uniform()
    }
}

impl GlobalNode for TextureNode {
    open spec fn name() -> Seq<char> {
        "global.texture"@
    }

    open spec fn identity(p: GlobalStages, f: Prepared) -> bool {
        p.presence.texture.zero()
    }

    open spec fn ready(p: GlobalStages, f: Prepared) -> bool {
        p.presence.texture.finite()
    }

    open spec fn block(p: GlobalStages, f: Prepared) -> Seq<Named> {
        seq![
            float_of("texture"@, p.presence.texture),
        ]
    }

    open spec fn schema() -> Seq<Declared> {
        seq![
            float_decl("texture"@),
        ]
    }

    open spec fn apron() -> int {
        R2 as int
    }

    fn id() -> (r: NodeId) {
        NodeId("global.texture")
    }

    fn is_identity(p: &GlobalStages, f: &Prepared) -> (r: bool) {
        p.presence.texture.is_zero()
    }

    fn param_block(p: &GlobalStages, f: &Prepared) -> (r: ParamBlock) {
        let mut fields: Vec<Field> = Vec::new();
        fields.push(float_field("texture", p.presence.texture));
        assert(named(fields@) =~= Self::block(*p, *f));
        block_of(fields)
    }

    fn params_schema() -> (r: Vec<FieldDecl>) {
        let mut r: Vec<FieldDecl> = Vec::new();
        r.push(declare_float("texture"));
        assert(declared(r@) =~= Self::schema());
        r
    }

    fn margin() -> (r: u32) {
        R2
    }

    proof fn law_takes_only_declared_params(p: GlobalStages, f: Prepared) {
        lemma_conforms_in_order(Self::block(p, f), Self::schema());
    }
}

/// Reading a block gives back what the recipe held.
pub proof fn law_texture_params_round_trip(p: GlobalStages, f: Prepared)
    ensures
        texture_params(TextureNode::block(p, f)) == (TextureParams {
            texture: p.presence.texture.as_double(),
        }),
        lookup_float(TextureNode::block(p, f), "texture"@) == Some(p.presence.texture.as_double()),
{
    let block = TextureNode::block(p, f);
    lemma_find(block, 0);
}

/// An evaluation reads each parameter under its own name; a missing one is at
/// its default.
pub proof fn law_texture_params_are_read_by_name(block: Seq<Named>)
    ensures
        lookup_float(block, "texture"@) matches Some(v) ==> texture_params(block).texture == v,
        lookup_float(block, "texture"@) is None ==> texture_params(block).texture == (Double { bits: 0 }),
{
}

/// Each number has its own place in the uniform buffer, and the rest is padding.
pub proof fn law_texture_numbers_have_their_own_places(weights: [Single; 3], texture: Single)
    ensures
        le_words(texture_layout(weights, texture)).len() == 16,
        le_words(texture_layout(weights, texture)).subrange(0, 4) == le32(weights[0].bits),
        le_words(texture_layout(weights, texture)).subrange(4, 8) == le32(weights[1].bits),
        le_words(texture_layout(weights, texture)).subrange(8, 12) == le32(weights[2].bits),
        le_words(texture_layout(weights, texture)).subrange(12, 16) == le32(texture.bits),
{
    let words = texture_layout(weights, texture);
    law_words_lie_end_to_end(words, 0);
    law_words_lie_end_to_end(words, 1);
    law_words_lie_end_to_end(words, 2);
    law_words_lie_end_to_end(words, 3);
}

/// Makes [`TextureNode`]s.
#[derive(Clone, Copy, Debug, PartialEq, Eq, Structural)]
pub struct TextureFactory {}

impl NodeFactory for TextureFactory {
    type Node = TextureNode;

    open spec fn fresh() -> TextureNode {
        TextureNode {  }
    }

    fn instantiate(&self) -> (r: TextureNode) {
        TextureNode::new()
    }
}

} // verus!
