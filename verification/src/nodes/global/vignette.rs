//! `fx.vignette`: the post-crop vignette, centred on the cropped canvas.

use vstd::prelude::*;

use crate::bytes::law_words_lie_end_to_end;
use crate::bytes::le32;
use crate::bytes::le_words;
use crate::bytes::pack_words;
use crate::edit::GlobalStages;
use crate::edit::PostCropVignette;
use crate::ieee::Double;
use crate::ieee::Single;
use crate::nodes::global::node::declare_float;
use crate::nodes::global::node::float_decl;
use crate::nodes::global::node::int_decl;
use crate::nodes::global::node::int_of;
use crate::nodes::global::node::lemma_conforms_in_order;
use crate::nodes::global::node::lemma_find;
use crate::nodes::global::node::names_apart;
use crate::nodes::global::node::GlobalNode;
use crate::nodes::global::node::NodeFactory;
use crate::nodes::global::node::Prepared;
use crate::nodes::gpu::uniform_plan;
use crate::nodes::gpu::with_uniform;
use crate::nodes::gpu::GpuPlan;
use crate::params::block_of;
use crate::params::declared;
use crate::params::float_field;
use crate::params::float_of;
use crate::params::lookup_float;
use crate::params::lookup_float_or;
use crate::params::lookup_int;
use crate::params::named;
use crate::params::Declared;
use crate::params::Field;
use crate::params::FieldDecl;
use crate::params::Named;
use crate::params::ParamBlock;
use crate::params::ParamKind;
use crate::params::ParamValue;
use crate::types::Extent;
use crate::types::NodeId;
use crate::types::Roi;

verus! {

/// The `fx.vignette` develop node.
#[derive(Clone, Copy, Debug, PartialEq, Eq, Structural)]
pub struct VignetteNode {}

/// The parameters an evaluation reads.
#[derive(Clone, Copy, Debug, PartialEq, Eq, Structural)]
pub struct VignetteParams {
    /// Strength; negative darkens.
    pub amount: Double,
    /// Radius of half strength.
    pub midpoint: Double,
    /// Ellipse or circle.
    pub roundness: Double,
    /// Edge softness.
    pub feather: Double,
    /// Highlight protection.
    pub highlights: Double,
}

/// The canvas that the falloff is normalized against, and the tile's origin in
/// it.
#[derive(Clone, Copy, Debug, PartialEq, Eq, Structural)]
pub struct CanvasFrame {
    /// The canvas.
    pub canvas: Extent,
    /// The tile's left edge.
    pub off_x: i64,
    /// The tile's top edge.
    pub off_y: i64,
}

/// The parameters found in a block; what is missing is neutral.
pub open spec fn vignette_params(block: Seq<Named>) -> VignetteParams {
    VignetteParams {
        amount: lookup_float_or(block, "amount"@, Double { bits: 0 }),
        midpoint: lookup_float_or(block, "midpoint"@, Double { bits: 0x4049_0000_0000_0000 }),
        roundness: lookup_float_or(block, "roundness"@, Double { bits: 0 }),
        feather: lookup_float_or(block, "feather"@, Double { bits: 0x4049_0000_0000_0000 }),
        highlights: lookup_float_or(block, "highlights"@, Double { bits: 0 }),
    }
}

/// A canvas side found in a block: zero where it is missing or negative, and
/// kept modulo 2^32.
pub open spec fn canvas_side(block: Seq<Named>, name: Seq<char>) -> u32 {
    match lookup_int(block, name) {
        Some(v) => if v < 0 {
            0
        } else {
            (v as int % 0x1_0000_0000) as u32
        },
        None => 0,
    }
}

/// The canvas an evaluation works in: the one in its block with the tile at its
/// own origin, or else the tile itself.
pub open spec fn frame_of(block: Seq<Named>, tile: Extent, out: Roi) -> CanvasFrame {
    let w = canvas_side(block, "canvas_w"@);
    let h = canvas_side(block, "canvas_h"@);
    if w == 0 || h == 0 {
        CanvasFrame { canvas: tile, off_x: 0, off_y: 0 }
    } else {
        CanvasFrame { canvas: Extent { w, h }, off_x: out.x as i64, off_y: out.y as i64 }
    }
}

fn side_from(params: &ParamBlock, name: &str) -> (r: u32)
    ensures
        r == canvas_side(params@, name@),
{
    match params.get_i64(name) {
        Some(v) => if v < 0 {
            0
        } else {
            (v % 0x1_0000_0000) as u32
        },
        None => 0,
    }
}

/// Resolves the canvas an evaluation works in, falling back to the tile's own
/// extent when its block names none.
pub fn canvas_frame(params: &ParamBlock, tile: Extent, out: Roi) -> (r: CanvasFrame)
    ensures
        r == frame_of(params@, tile, out),
{
    let w: u32 = side_from(params, "canvas_w");
    let h: u32 = side_from(params, "canvas_h");
    if w == 0 || h == 0 {
        CanvasFrame { canvas: tile, off_x: 0, off_y: 0 }
    } else {
        CanvasFrame { canvas: Extent { w, h }, off_x: out.x as i64, off_y: out.y as i64 }
    }
}

/// The parameters for a canvas.
pub open spec fn canvas_block(v: PostCropVignette, canvas: Extent) -> Seq<Named> {
    seq![
        float_of("amount"@, v.amount),
        float_of("midpoint"@, v.midpoint),
        float_of("roundness"@, v.roundness),
        float_of("feather"@, v.feather),
        float_of("highlights"@, v.highlights),
        int_of("canvas_w"@, canvas.w as i64),
        int_of("canvas_h"@, canvas.h as i64),
    ]
}

/// Whether every number of a vignette is finite.
pub open spec fn finite_vignette(v: PostCropVignette) -> bool {
    v.amount.finite() && v.midpoint.finite() && v.roundness.finite() && v.feather.finite() && v.highlights.finite()
}

/// The words of the uniform buffer.
pub open spec fn vignette_layout(weights: [Single; 3], amount: Single, scale_x: Single, scale_y: Single, mid_radius: Single, half_width: Single, highlights: Single, canvas_w: Single, canvas_h: Single, off_x: u32, off_y: u32) -> Seq<u32> {
    seq![weights[0].bits, weights[1].bits, weights[2].bits, amount.bits, scale_x.bits, scale_y.bits, mid_radius.bits, half_width.bits, highlights.bits, canvas_w.bits, canvas_h.bits, 0, off_x, off_y, 0, 0]
}

impl VignetteNode {
    /// A fresh node.
    pub fn new() -> (r: VignetteNode)
        ensures
            r == (VignetteNode {  }),
    {
        VignetteNode {  }
    }

    /// The parameters of an evaluation, read from its block.
    pub fn params_from(params: &ParamBlock) -> (r: VignetteParams)
        ensures
            r == vignette_params(params@),
    {
        VignetteParams {
            amount: params.get_f64_or("amount", Double { bits: 0 }),
            midpoint: params.get_f64_or("midpoint", Double { bits: 0x4049_0000_0000_0000 }),
            roundness: params.get_f64_or("roundness", Double { bits: 0 }),
            feather: params.get_f64_or("feather", Double { bits: 0x4049_0000_0000_0000 }),
            highlights: params.get_f64_or("highlights", Double { bits: 0 }),
        }
    }

    /// The recipe's vignette and the canvas its falloff is normalized against.
    pub fn param_block_with_canvas(p: &GlobalStages, canvas: Extent) -> (r: ParamBlock)
        requires
            finite_vignette(p.effects.postcrop_vignette),
        ensures
            r@ == canvas_block(p.effects.postcrop_vignette, canvas),
    {
        let v: &PostCropVignette = &p.effects.postcrop_vignette;
        let mut fields: Vec<Field> = Vec::new();
        fields.push(float_field("amount", v.amount));
        fields.push(float_field("midpoint", v.midpoint));
        fields.push(float_field("roundness", v.roundness));
        fields.push(float_field("feather", v.feather));
        fields.push(float_field("highlights", v.highlights));
        fields.push(Field { name: "canvas_w", value: ParamValue::Int(canvas.w as i64) });
        fields.push(Field { name: "canvas_h", value: ParamValue::Int(canvas.h as i64) });
        assert(named(fields@) =~= canvas_block(*v, canvas));
        block_of(fields)
    }

    /// The uniform buffer: luma weights, strength, axis scales, radius and
    /// softness of the falloff, highlight protection, canvas size, and the
    /// tile origin as two's-complement words.
    pub fn uniforms(
        weights: [Single; 3],
        amount: Single,
        scale_x: Single,
        scale_y: Single,
        mid_radius: Single,
        half_width: Single,
        highlights: Single,
        canvas_w: Single,
        canvas_h: Single,
        off_x: u32,
        off_y: u32,
    ) -> (r: Vec<u8>)
        ensures
            r@ == le_words(vignette_layout(weights, amount, scale_x, scale_y, mid_radius, half_width, highlights, canvas_w, canvas_h, off_x, off_y)),
    {
        let words: Vec<u32> = vec![
            weights[0].bits, weights[1].bits, weights[2].bits, amount.bits,
            scale_x.bits, scale_y.bits, mid_radius.bits, half_width.bits,
            highlights.bits, canvas_w.bits, canvas_h.bits, 0,
            off_x, off_y, 0, 0
        ];
        assert(words@ =~= seq![
            weights[0].bits,
            weights[1].bits,
            weights[2].bits,
            amount.bits,
            scale_x.bits,
            scale_y.bits,
            mid_radius.bits,
            half_width.bits,
            highlights.bits,
            canvas_w.bits,
            canvas_h.bits,
            0,
            off_x,
            off_y,
            0,
            0,
        ]);
        pack_words(&words)
    }

    /// The node's GPU passes.
    pub fn gpu_plan(&self) -> (r: GpuPlan)
        ensures
            r@ == uniform_plan(),
            r@.sound(),
    {
        with_uniform()
    }
}

impl GlobalNode for VignetteNode {
    open spec fn name() -> Seq<char> {
        "fx.vignette"@
    }

    /// Without an amount the shape sliders have nothing to shape.
    open spec fn identity(p: GlobalStages, f: Prepared) -> bool {
        p.effects.postcrop_vignette.amount.zero()
    }

    open spec fn ready(p: GlobalStages, f: Prepared) -> bool {
        finite_vignette(p.effects.postcrop_vignette)
    }

    /// Without a canvas the tile takes its place.
    open spec fn block(p: GlobalStages, f: Prepared) -> Seq<Named> {
        canvas_block(p.effects.postcrop_vignette, Extent { w: 0, h: 0 })
    }

    open spec fn schema() -> Seq<Declared> {
        seq![
            float_decl("amount"@),
            float_decl("midpoint"@),
            float_decl("roundness"@),
            float_decl("feather"@),
            float_decl("highlights"@),
            int_decl("canvas_w"@),
            int_decl("canvas_h"@),
        ]
    }

    open spec fn apron() -> int {
        0
    }

    fn id() -> (r: NodeId) {
        NodeId("fx.vignette")
    }

    fn is_identity(p: &GlobalStages, f: &Prepared) -> (r: bool) {
        p.effects.postcrop_vignette.amount.is_zero()
    }

    fn param_block(p: &GlobalStages, f: &Prepared) -> (r: ParamBlock) {
        VignetteNode::param_block_with_canvas(p, Extent { w: 0, h: 0 })
    }

    fn params_schema() -> (r: Vec<FieldDecl>) {
        let mut r: Vec<FieldDecl> = Vec::new();
        r.push(declare_float("amount"));
        r.push(declare_float("midpoint"));
        r.push(declare_float("roundness"));
        r.push(declare_float("feather"));
        r.push(declare_float("highlights"));
        r.push(FieldDecl { name: "canvas_w", kind: ParamKind::Int });
        r.push(FieldDecl { name: "canvas_h", kind: ParamKind::Int });
        assert(declared(r@) =~= Self::schema());
        r
    }

    fn margin() -> (r: u32) {
        0
    }

    proof fn law_takes_only_declared_params(p: GlobalStages, f: Prepared) {
        lemma_conforms_in_order(Self::block(p, f), Self::schema());
    }
}

/// Reading a block gives back the recipe's vignette. A block for a canvas keeps
/// the tile at its own origin in it; a block without one falls back to the
/// tile.
pub proof fn law_vignette_params_round_trip(
    v: PostCropVignette,
    canvas: Extent,
    tile: Extent,
    out: Roi,
)
    ensures
        vignette_params(canvas_block(v, canvas)) == (VignetteParams {
            amount: v.amount.as_double(),
            midpoint: v.midpoint.as_double(),
            roundness: v.roundness.as_double(),
            feather: v.feather.as_double(),
            highlights: v.highlights.as_double(),
        }),
        frame_of(canvas_block(v, canvas), tile, out) == if canvas.w == 0 || canvas.h == 0 {
            CanvasFrame { canvas: tile, off_x: 0, off_y: 0 }
        } else {
            CanvasFrame { canvas, off_x: out.x as i64, off_y: out.y as i64 }
        },
        lookup_float(canvas_block(v, canvas), "amount"@) == Some(v.amount.as_double()),
        lookup_float(canvas_block(v, canvas), "midpoint"@) == Some(v.midpoint.as_double()),
        lookup_float(canvas_block(v, canvas), "roundness"@) == Some(v.roundness.as_double()),
        lookup_float(canvas_block(v, canvas), "feather"@) == Some(v.feather.as_double()),
        lookup_float(canvas_block(v, canvas), "highlights"@) == Some(v.highlights.as_double()),
        lookup_int(canvas_block(v, canvas), "canvas_w"@) == Some(canvas.w as i64),
        lookup_int(canvas_block(v, canvas), "canvas_h"@) == Some(canvas.h as i64),
{
    let block = canvas_block(v, canvas);
    reveal_strlit("amount");
    reveal_strlit("midpoint");
    reveal_strlit("roundness");
    reveal_strlit("feather");
    reveal_strlit("highlights");
    reveal_strlit("canvas_w");
    reveal_strlit("canvas_h");
    assert("amount"@.len() != "midpoint"@.len());
    assert("amount"@.len() != "roundness"@.len());
    assert("amount"@.len() != "feather"@.len());
    assert("amount"@.len() != "highlights"@.len());
    assert("amount"@.len() != "canvas_w"@.len());
    assert("amount"@.len() != "canvas_h"@.len());
    assert("midpoint"@.len() != "roundness"@.len());
    assert("midpoint"@.len() != "feather"@.len());
    assert("midpoint"@.len() != "highlights"@.len());
    assert("midpoint"@[0] != "canvas_w"@[0]);
    assert("midpoint"@[0] != "canvas_h"@[0]);
    assert("roundness"@.len() != "feather"@.len());
    assert("roundness"@.len() != "highlights"@.len());
    assert("roundness"@.len() != "canvas_w"@.len());
    assert("roundness"@.len() != "canvas_h"@.len());
    assert("feather"@.len() != "highlights"@.len());
    assert("feather"@.len() != "canvas_w"@.len());
    assert("feather"@.len() != "canvas_h"@.len());
    assert("highlights"@.len() != "canvas_w"@.len());
    assert("highlights"@.len() != "canvas_h"@.len());
    assert("canvas_w"@[7] != "canvas_h"@[7]);
    assert(names_apart(block));
    lemma_find(block, 0);
    lemma_find(block, 1);
    lemma_find(block, 2);
    lemma_find(block, 3);
    lemma_find(block, 4);
    lemma_find(block, 5);
    lemma_find(block, 6);
}

/// An evaluation reads each parameter under its own name; a missing one is at
/// its default.
pub proof fn law_vignette_params_are_read_by_name(block: Seq<Named>)
    ensures
        lookup_float(block, "amount"@) matches Some(v) ==> vignette_params(block).amount == v,
        lookup_float(block, "amount"@) is None ==> vignette_params(block).amount == (Double { bits: 0 }),
        lookup_float(block, "midpoint"@) matches Some(v) ==> vignette_params(block).midpoint == v,
        lookup_float(block, "midpoint"@) is None ==> vignette_params(block).midpoint == (Double { bits: 0x4049_0000_0000_0000 }),
        lookup_float(block, "roundness"@) matches Some(v) ==> vignette_params(block).roundness == v,
        lookup_float(block, "roundness"@) is None ==> vignette_params(block).roundness == (Double { bits: 0 }),
        lookup_float(block, "feather"@) matches Some(v) ==> vignette_params(block).feather == v,
        lookup_float(block, "feather"@) is None ==> vignette_params(block).feather == (Double { bits: 0x4049_0000_0000_0000 }),
        lookup_float(block, "highlights"@) matches Some(v) ==> vignette_params(block).highlights == v,
        lookup_float(block, "highlights"@) is None ==> vignette_params(block).highlights == (Double { bits: 0 }),
{
}

/// A recipe's own block names no canvas and holds the recipe's vignette.
pub proof fn law_a_recipe_names_no_canvas(p: GlobalStages, f: Prepared)
    ensures
        lookup_int(VignetteNode::block(p, f), "canvas_w"@) == Some(0i64),
        lookup_int(VignetteNode::block(p, f), "canvas_h"@) == Some(0i64),
        lookup_float(VignetteNode::block(p, f), "amount"@) == Some(
            p.effects.postcrop_vignette.amount.as_double(),
        ),
        lookup_float(VignetteNode::block(p, f), "midpoint"@) == Some(
            p.effects.postcrop_vignette.midpoint.as_double(),
        ),
        lookup_float(VignetteNode::block(p, f), "roundness"@) == Some(
            p.effects.postcrop_vignette.roundness.as_double(),
        ),
        lookup_float(VignetteNode::block(p, f), "feather"@) == Some(
            p.effects.postcrop_vignette.feather.as_double(),
        ),
        lookup_float(VignetteNode::block(p, f), "highlights"@) == Some(
            p.effects.postcrop_vignette.highlights.as_double(),
        ),
{
    law_vignette_params_round_trip(
        p.effects.postcrop_vignette,
        Extent { w: 0, h: 0 },
        Extent { w: 0, h: 0 },
        Roi { x: 0, y: 0, w: 0, h: 0 },
    );
}

/// A tile stands in the canvas at its own origin when its block names a canvas
/// with two positive sides, and is its own canvas otherwise. Sides are kept
/// modulo 2^32.
pub proof fn law_a_tile_keeps_its_place_in_the_canvas(
    block: Seq<Named>,
    w: i64,
    h: i64,
    tile: Extent,
    out: Roi,
)
    requires
        lookup_int(block, "canvas_w"@) == Some(w),
        lookup_int(block, "canvas_h"@) == Some(h),
    ensures
        ({
            let r = frame_of(block, tile, out);
            let cw: int = if w <= 0 { 0 } else { w as int % 0x1_0000_0000 };
            let ch: int = if h <= 0 { 0 } else { h as int % 0x1_0000_0000 };
            &&& cw > 0 && ch > 0 ==> r.canvas.w == cw && r.canvas.h == ch && r.off_x == out.x
                && r.off_y == out.y
            &&& cw == 0 || ch == 0 ==> r.canvas == tile && r.off_x == 0 && r.off_y == 0
        }),
{
}

/// Without a canvas in its block a tile is its own canvas.
pub proof fn law_without_a_canvas_the_tile_is_the_canvas(
    block: Seq<Named>,
    tile: Extent,
    out: Roi,
)
    requires
        lookup_int(block, "canvas_w"@) is None || lookup_int(block, "canvas_h"@) is None,
    ensures
        frame_of(block, tile, out).canvas == tile,
        frame_of(block, tile, out).off_x == 0,
        frame_of(block, tile, out).off_y == 0,
{
}

/// Each number has its own place in the uniform buffer, and the rest is padding.
pub proof fn law_vignette_numbers_have_their_own_places(weights: [Single; 3], amount: Single, scale_x: Single, scale_y: Single, mid_radius: Single, half_width: Single, highlights: Single, canvas_w: Single, canvas_h: Single, off_x: u32, off_y: u32)
    ensures
        le_words(vignette_layout(weights, amount, scale_x, scale_y, mid_radius, half_width, highlights, canvas_w, canvas_h, off_x, off_y)).len() == 64,
        le_words(vignette_layout(weights, amount, scale_x, scale_y, mid_radius, half_width, highlights, canvas_w, canvas_h, off_x, off_y)).subrange(0, 4) == le32(weights[0].bits),
        le_words(vignette_layout(weights, amount, scale_x, scale_y, mid_radius, half_width, highlights, canvas_w, canvas_h, off_x, off_y)).subrange(4, 8) == le32(weights[1].bits),
        le_words(vignette_layout(weights, amount, scale_x, scale_y, mid_radius, half_width, highlights, canvas_w, canvas_h, off_x, off_y)).subrange(8, 12) == le32(weights[2].bits),
        le_words(vignette_layout(weights, amount, scale_x, scale_y, mid_radius, half_width, highlights, canvas_w, canvas_h, off_x, off_y)).subrange(12, 16) == le32(amount.bits),
        le_words(vignette_layout(weights, amount, scale_x, scale_y, mid_radius, half_width, highlights, canvas_w, canvas_h, off_x, off_y)).subrange(16, 20) == le32(scale_x.bits),
        le_words(vignette_layout(weights, amount, scale_x, scale_y, mid_radius, half_width, highlights, canvas_w, canvas_h, off_x, off_y)).subrange(20, 24) == le32(scale_y.bits),
        le_words(vignette_layout(weights, amount, scale_x, scale_y, mid_radius, half_width, highlights, canvas_w, canvas_h, off_x, off_y)).subrange(24, 28) == le32(mid_radius.bits),
        le_words(vignette_layout(weights, amount, scale_x, scale_y, mid_radius, half_width, highlights, canvas_w, canvas_h, off_x, off_y)).subrange(28, 32) == le32(half_width.bits),
        le_words(vignette_layout(weights, amount, scale_x, scale_y, mid_radius, half_width, highlights, canvas_w, canvas_h, off_x, off_y)).subrange(32, 36) == le32(highlights.bits),
        le_words(vignette_layout(weights, amount, scale_x, scale_y, mid_radius, half_width, highlights, canvas_w, canvas_h, off_x, off_y)).subrange(36, 40) == le32(canvas_w.bits),
        le_words(vignette_layout(weights, amount, scale_x, scale_y, mid_radius, half_width, highlights, canvas_w, canvas_h, off_x, off_y)).subrange(40, 44) == le32(canvas_h.bits),
        le_words(vignette_layout(weights, amount, scale_x, scale_y, mid_radius, half_width, highlights, canvas_w, canvas_h, off_x, off_y)).subrange(44, 48) == le32(0),
        le_words(vignette_layout(weights, amount, scale_x, scale_y, mid_radius, half_width, highlights, canvas_w, canvas_h, off_x, off_y)).subrange(48, 52) == le32(off_x),
        le_words(vignette_layout(weights, amount, scale_x, scale_y, mid_radius, half_width, highlights, canvas_w, canvas_h, off_x, off_y)).subrange(52, 56) == le32(off_y),
        le_words(vignette_layout(weights, amount, scale_x, scale_y, mid_radius, half_width, highlights, canvas_w, canvas_h, off_x, off_y)).subrange(56, 60) == le32(0),
        le_words(vignette_layout(weights, amount, scale_x, scale_y, mid_radius, half_width, highlights, canvas_w, canvas_h, off_x, off_y)).subrange(60, 64) == le32(0),
{
    let words = vignette_layout(weights, amount, scale_x, scale_y, mid_radius, half_width, highlights, canvas_w, canvas_h, off_x, off_y);
    law_words_lie_end_to_end(words, 0);
    law_words_lie_end_to_end(words, 1);
    law_words_lie_end_to_end(words, 2);
    law_words_lie_end_to_end(words, 3);
    law_words_lie_end_to_end(words, 4);
    law_words_lie_end_to_end(words, 5);
    law_words_lie_end_to_end(words, 6);
    law_words_lie_end_to_end(words, 7);
    law_words_lie_end_to_end(words, 8);
    law_words_lie_end_to_end(words, 9);
    law_words_lie_end_to_end(words, 10);
    law_words_lie_end_to_end(words, 11);
    law_words_lie_end_to_end(words, 12);
    law_words_lie_end_to_end(words, 13);
    law_words_lie_end_to_end(words, 14);
    law_words_lie_end_to_end(words, 15);
}

/// Makes [`VignetteNode`]s.
#[derive(Clone, Copy, Debug, PartialEq, Eq, Structural)]
pub struct VignetteFactory {}

impl NodeFactory for VignetteFactory {
    type Node = VignetteNode;

    open spec fn fresh() -> VignetteNode {
        VignetteNode {  }
    }

    fn instantiate(&self) -> (r: VignetteNode) {
        VignetteNode::new()
    }
}

} // verus!
