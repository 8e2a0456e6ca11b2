//! `global.tone_curve`: point and parametric tone curves.

use vstd::prelude::*;

use crate::bytes::law_words_lie_end_to_end;
use crate::bytes::le32;
use crate::bytes::le_words;
use crate::bytes::pack_words;
use crate::edit::GlobalStages;
use crate::edit::ToneCurve;
use crate::ieee::Double;
use crate::ieee::ONE;
use crate::nodes::global::node::declare_float;
use crate::nodes::global::node::float_decl;
use crate::nodes::global::node::lemma_conforms_in_order;
use crate::nodes::global::node::lemma_find;
use crate::nodes::global::node::names_apart;
use crate::nodes::global::node::text_decl;
use crate::nodes::global::node::text_of;
use crate::nodes::global::node::GlobalNode;
use crate::nodes::global::node::NodeFactory;
use crate::nodes::global::node::PointText;
use crate::nodes::global::node::Prepared;
use crate::nodes::gpu::curve_plan;
use crate::nodes::gpu::with_curves;
use crate::nodes::gpu::GpuPlan;
use crate::params::block_of;
use crate::params::declared;
use crate::params::float_field;
use crate::params::float_of;
use crate::params::lookup_float;
use crate::params::lookup_float_or;
use crate::params::lookup_text;
use crate::params::named;
use crate::params::Declared;
use crate::params::Field;
use crate::params::FieldDecl;
use crate::params::Named;
use crate::params::ParamBlock;
use crate::params::ParamKind;
use crate::params::ParamValue;
use crate::text::append_piece;
use crate::text::join;
use crate::text::lemma_split_join;
use crate::text::split;
use crate::text::split_first;
use crate::text::split_once_text;
use crate::text::split_text;
use crate::text::texts;
use crate::types::NodeId;

verus! {

/// The `global.tone_curve` develop node.
#[derive(Clone, Copy, Debug, PartialEq, Eq, Structural)]
pub struct ToneCurveNode {}

/// A curve point in decimal, mathematically.
pub struct Point {
    /// Input.
    pub x: Seq<char>,
    /// Output.
    pub y: Seq<char>,
}

impl View for PointText {
    type V = Point;

    open spec fn view(&self) -> Point {
        Point { x: self.x@, y: self.y@ }
    }
}

/// A list of curve points in decimal, mathematically.
pub open spec fn points(v: Seq<PointText>) -> Seq<Point> {
    Seq::new(v.len(), |i: int| v[i]@)
}

/// A point's text: `x,y`.
pub open spec fn point_text(p: Point) -> Seq<char> {
    p.x.push(',') + p.y
}

/// The texts of a list of points.
pub open spec fn point_texts(ps: Seq<Point>) -> Seq<Seq<char>> {
    Seq::new(ps.len(), |i: int| point_text(ps[i]))
}

/// A curve's text: its points with a semicolon between each two.
pub open spec fn curve_text(v: Seq<PointText>) -> Seq<char> {
    join(point_texts(points(v)), ';')
}

/// The points among the pieces of a text: a piece without a comma is dropped.
pub open spec fn points_of_pieces(pieces: Seq<Seq<char>>) -> Seq<Point>
    decreases pieces.len(),
{
    if pieces.len() == 0 {
        Seq::empty()
    } else {
        let rest = points_of_pieces(pieces.drop_last());
        match split_first(pieces.last(), ',') {
            Some((x, y)) => rest.push(Point { x, y }),
            None => rest,
        }
    }
}

/// The points of a text.
pub open spec fn decoded_points(s: Seq<char>) -> Seq<Point> {
    if s.len() == 0 {
        Seq::empty()
    } else {
        points_of_pieces(split(s, ';'))
    }
}

/// Encodes control points as `x0,y0;x1,y1;...`.
pub fn encode_points(v: &Vec<PointText>) -> (r: String)
    ensures
        r@ == curve_text(v@),
{
    let mut s: String = String::new();
    let mut i: usize = 0;
    let ghost pieces = point_texts(points(v@));
    assert(pieces.take(0) =~= Seq::<Seq<char>>::empty());
    while i < v.len()
        invariant
            i <= v.len(),
            pieces == point_texts(points(v@)),
            s@ == join(pieces.take(i as int), ';'),
        decreases v.len() - i,
    {
        let mut piece: String = v[i].x.clone();
        piece.push(',');
        piece.append(v[i].y.as_str());
        let ghost next = pieces.take(i as int + 1);
        assert(piece@ == pieces[i as int]);
        assert(next.drop_last() =~= pieces.take(i as int));
        append_piece(&mut s, i == 0, ';', piece.as_str());
        if i == 0 {
            assert(s@ =~= next[0]);
        }
        i = i + 1;
    }
    assert(pieces.take(i as int) =~= pieces);
    s
}

/// Decodes control points. A piece without a comma is dropped; whether the
/// coordinates are numbers is for the caller to see.
pub fn decode_points(s: &str) -> (r: Vec<PointText>)
    ensures
        points(r@) == decoded_points(s@),
{
    let mut r: Vec<PointText> = Vec::new();
    if s.is_empty() {
        assert(points(r@) =~= Seq::<Point>::empty());
        return r;
    }
    let pieces: Vec<String> = split_text(s, ';');
    let ghost all = split(s@, ';');
    let mut i: usize = 0;
    assert(all.take(0) =~= Seq::<Seq<char>>::empty());
    assert(points(r@) =~= Seq::<Point>::empty());
    while i < pieces.len()
        invariant
            i <= pieces.len(),
            texts(pieces@) == all,
            points(r@) == points_of_pieces(all.take(i as int)),
        decreases pieces.len() - i,
    {
        let ghost next = all.take(i as int + 1);
        assert(next.drop_last() =~= all.take(i as int));
        assert(next.last() == pieces@[i as int]@);
        let ghost before = points(r@);
        if let Some((x, y)) = split_once_text(pieces[i].as_str(), ',') {
            let ghost p = Point { x: x@, y: y@ };
            r.push(PointText { x, y });
            assert(points(r@) =~= before.push(p));
        }
        i = i + 1;
    }
    assert(all.take(i as int) =~= all);
    r
}

/// Coordinates that hold no separator, as decimal numbers never do.
pub open spec fn plain_points(ps: Seq<Point>) -> bool {
    forall|i: int|
        0 <= i < ps.len() ==> !(#[trigger] ps[i]).x.contains(',') && !ps[i].x.contains(';')
            && !ps[i].y.contains(';')
}

/// Decoding an encoded curve gives back its points.
pub proof fn law_points_round_trip(ps: Seq<Point>)
    requires
        plain_points(ps),
    ensures
        decoded_points(join(point_texts(ps), ';')) == ps,
{
    let pieces = point_texts(ps);
    if ps.len() == 0 {
        assert(decoded_points(join(pieces, ';')) =~= ps);
    } else {
        assert forall|i: int| 0 <= i < pieces.len() implies !(#[trigger] pieces[i]).contains(';') by {
            let p = ps[i];
            assert forall|k: int| 0 <= k < pieces[i].len() implies pieces[i][k] != ';' by {
                if k < p.x.len() {
                    assert(pieces[i][k] == p.x[k]);
                } else if k > p.x.len() {
                    assert(pieces[i][k] == p.y[k - p.x.len() - 1]);
                }
            }
        }
        lemma_split_join(pieces, ';');
        lemma_pieces_round_trip(ps);
        lemma_join_len(pieces);
    }
}

proof fn lemma_join_len(pieces: Seq<Seq<char>>)
    requires
        pieces.len() > 0,
        pieces.last().len() > 0,
    ensures
        join(pieces, ';').len() > 0,
{
}

proof fn lemma_pieces_round_trip(ps: Seq<Point>)
    requires
        plain_points(ps),
    ensures
        points_of_pieces(point_texts(ps)) == ps,
    decreases ps.len(),
{
    if ps.len() > 0 {
        let rest = ps.drop_last();
        assert(plain_points(rest)) by {
            assert forall|i: int| 0 <= i < rest.len() implies !(#[trigger] rest[i]).x.contains(',')
                && !rest[i].x.contains(';') && !rest[i].y.contains(';') by {
                assert(rest[i] == ps[i]);
            }
        }
        lemma_pieces_round_trip(rest);
        assert(point_texts(ps).drop_last() =~= point_texts(rest));
        let p = ps.last();
        assert(p == ps[ps.len() - 1]);
        lemma_split_first_point(p);
        assert(rest.push(p) =~= ps);
    } else {
        assert(points_of_pieces(point_texts(ps)) =~= ps);
    }
}

proof fn lemma_split_first_point(p: Point)
    requires
        !p.x.contains(','),
    ensures
        split_first(point_text(p), ',') == Some((p.x, p.y)),
{
    let s = point_text(p);
    let n = p.x.len() as int;
    s.index_of_first_ensures(',');
    assert(s[n] == ',');
    assert(s.contains(','));
    let i = s.index_of_first(',')->Some_0;
    if i < n {
        assert(s[i] == p.x[i]);
        assert(p.x.contains(','));
    }
    assert(i == n);
    assert(s.take(n) =~= p.x);
    assert(s.skip(n + 1) =~= p.y);
}

/// The points of the text parameter called `name`; none where it is missing.
pub open spec fn curve_params(block: Seq<Named>, name: Seq<char>) -> Seq<Point> {
    match lookup_text(block, name) {
        Some(t) => decoded_points(t),
        None => Seq::empty(),
    }
}

fn points_from(params: &ParamBlock, name: &str) -> (r: Vec<PointText>)
    ensures
        points(r@) == curve_params(params@, name@),
{
    match params.get_str(name) {
        Some(t) => decode_points(t),
        None => {
            let r: Vec<PointText> = Vec::new();
            assert(points(r@) =~= Seq::<Point>::empty());
            r
        },
    }
}

/// The curves an evaluation bakes.
#[derive(Clone, Debug, PartialEq, Eq)]
pub struct CurveParams {
    /// Points of the composite curve.
    pub rgb: Vec<PointText>,
    /// Points of the red curve.
    pub r: Vec<PointText>,
    /// Points of the green curve.
    pub g: Vec<PointText>,
    /// Points of the blue curve.
    pub b: Vec<PointText>,
    /// Highlight region.
    pub highlights: Double,
    /// Light region.
    pub lights: Double,
    /// Dark region.
    pub darks: Double,
    /// Shadow region.
    pub shadows: Double,
    /// First split.
    pub split0: Double,
    /// Second split.
    pub split1: Double,
    /// Third split.
    pub split2: Double,
}

/// `c` holds the curves found in a block; missing splits are at the quarters.
pub open spec fn curves_of(block: Seq<Named>, c: CurveParams) -> bool {
    &&& points(c.rgb@) == curve_params(block, "rgb_pts"@)
    &&& points(c.r@) == curve_params(block, "r_pts"@)
    &&& points(c.g@) == curve_params(block, "g_pts"@)
    &&& points(c.b@) == curve_params(block, "b_pts"@)
    &&& c.highlights == lookup_float_or(block, "p_highlights"@, Double { bits: 0 })
    &&& c.lights == lookup_float_or(block, "p_lights"@, Double { bits: 0 })
    &&& c.darks == lookup_float_or(block, "p_darks"@, Double { bits: 0 })
    &&& c.shadows == lookup_float_or(block, "p_shadows"@, Double { bits: 0 })
    &&& c.split0 == lookup_float_or(block, "p_split0"@, Double { bits: 0x3fd0_0000_0000_0000 })
    &&& c.split1 == lookup_float_or(block, "p_split1"@, Double { bits: 0x3fe0_0000_0000_0000 })
    &&& c.split2 == lookup_float_or(block, "p_split2"@, Double { bits: 0x3fe8_0000_0000_0000 })
}

/// A straight line from black to white, or too few points to be a curve.
pub open spec fn straight(c: ToneCurve) -> bool {
    c.points.len() < 2 || (c.points.len() == 2 && c.points[0].x.zero() && c.points[0].y.zero()
        && c.points[1].x.bits == ONE && c.points[1].y.bits == ONE)
}

/// Whether a channel curve changes nothing.
pub fn curve_is_identity(c: &ToneCurve) -> (r: bool)
    ensures
        r == straight(*c),
{
    if c.points.len() < 2 {
        return true;
    }
    c.points.len() == 2 && c.points[0].x.is_zero() && c.points[0].y.is_zero()
        && c.points[1].x.bits == ONE && c.points[1].y.bits == ONE
}

/// The words of the uniform buffer.
pub open spec fn tone_curve_layout(samples: u32) -> Seq<u32> {
    seq![samples, 0, 0, 0]
}

impl ToneCurveNode {
    /// A fresh node.
    pub fn new() -> (r: ToneCurveNode)
        ensures
            r == (ToneCurveNode {  }),
    {
        ToneCurveNode {  }
    }

    /// The curves of an evaluation, read from its block: the one place both
    /// backends take them from.
    pub fn curves_from(params: &ParamBlock) -> (r: CurveParams)
        ensures
            curves_of(params@, r),
    {
        CurveParams {
            rgb: points_from(params, "rgb_pts"),
            r: points_from(params, "r_pts"),
            g: points_from(params, "g_pts"),
            b: points_from(params, "b_pts"),
            highlights: params.get_f64_or("p_highlights", Double { bits: 0 }),
            lights: params.get_f64_or("p_lights", Double { bits: 0 }),
            darks: params.get_f64_or("p_darks", Double { bits: 0 }),
            shadows: params.get_f64_or("p_shadows", Double { bits: 0 }),
            split0: params.get_f64_or("p_split0", Double { bits: 0x3fd0_0000_0000_0000 }),
            split1: params.get_f64_or("p_split1", Double { bits: 0x3fe0_0000_0000_0000 }),
            split2: params.get_f64_or("p_split2", Double { bits: 0x3fe8_0000_0000_0000 }),
        }
    }

    /// The uniform buffer: the table length, then padding.
    pub fn uniforms(samples: u32) -> (r: Vec<u8>)
        ensures
            r@ == le_words(tone_curve_layout(samples)),
    {
        let words: Vec<u32> = vec![samples, 0, 0, 0];
        assert(words@ =~= seq![samples, 0, 0, 0]);
        pack_words(&words)
    }

    /// The node's GPU passes.
    pub fn gpu_plan(&self) -> (r: GpuPlan)
        ensures
            r@ == curve_plan(),
            r@.sound(),
    {
        with_curves()
    }
}

impl GlobalNode for ToneCurveNode {
    open spec fn name() -> Seq<char> {
        "global.tone_curve"@
    }

    open spec fn identity(p: GlobalStages, f: Prepared) -> bool {
        straight(p.tone_curve.rgb) && straight(p.tone_curve.r) && straight(p.tone_curve.g)
            && straight(p.tone_curve.b) && p.tone_curve.parametric.identity()
    }

    open spec fn ready(p: GlobalStages, f: Prepared) -> bool {
        p.tone_curve.parametric.highlights.finite() && p.tone_curve.parametric.lights.finite() && p.tone_curve.parametric.darks.finite() && p.tone_curve.parametric.shadows.finite() && p.tone_curve.parametric.splits@[0].finite() && p.tone_curve.parametric.splits@[1].finite() && p.tone_curve.parametric.splits@[2].finite()
    }

    open spec fn block(p: GlobalStages, f: Prepared) -> Seq<Named> {
        seq![
            text_of("rgb_pts"@, curve_text(f.curves.rgb@)),
            text_of("r_pts"@, curve_text(f.curves.r@)),
            text_of("g_pts"@, curve_text(f.curves.g@)),
            text_of("b_pts"@, curve_text(f.curves.b@)),
            float_of("p_highlights"@, p.tone_curve.parametric.highlights),
            float_of("p_lights"@, p.tone_curve.parametric.lights),
            float_of("p_darks"@, p.tone_curve.parametric.darks),
            float_of("p_shadows"@, p.tone_curve.parametric.shadows),
            float_of("p_split0"@, p.tone_curve.parametric.splits@[0]),
            float_of("p_split1"@, p.tone_curve.parametric.splits@[1]),
            float_of("p_split2"@, p.tone_curve.parametric.splits@[2]),
        ]
    }

    open spec fn schema() -> Seq<Declared> {
        seq![
            text_decl("rgb_pts"@),
            text_decl("r_pts"@),
            text_decl("g_pts"@),
            text_decl("b_pts"@),
            float_decl("p_highlights"@),
            float_decl("p_lights"@),
            float_decl("p_darks"@),
            float_decl("p_shadows"@),
            float_decl("p_split0"@),
            float_decl("p_split1"@),
            float_decl("p_split2"@),
        ]
    }

    open spec fn apron() -> int {
        0
    }

    fn id() -> (r: NodeId) {
        NodeId("global.tone_curve")
    }

    fn is_identity(p: &GlobalStages, f: &Prepared) -> (r: bool) {
        curve_is_identity(&p.tone_curve.rgb) && curve_is_identity(&p.tone_curve.r)
            && curve_is_identity(&p.tone_curve.g) && curve_is_identity(&p.tone_curve.b)
            && p.tone_curve.parametric.is_identity()
    }

    fn param_block(p: &GlobalStages, f: &Prepared) -> (r: ParamBlock) {
        let mut fields: Vec<Field> = Vec::new();
        fields.push(Field { name: "rgb_pts", value: ParamValue::Text(encode_points(&f.curves.rgb)) });
        fields.push(Field { name: "r_pts", value: ParamValue::Text(encode_points(&f.curves.r)) });
        fields.push(Field { name: "g_pts", value: ParamValue::Text(encode_points(&f.curves.g)) });
        fields.push(Field { name: "b_pts", value: ParamValue::Text(encode_points(&f.curves.b)) });
        fields.push(float_field("p_highlights", p.tone_curve.parametric.highlights));
        fields.push(float_field("p_lights", p.tone_curve.parametric.lights));
        fields.push(float_field("p_darks", p.tone_curve.parametric.darks));
        fields.push(float_field("p_shadows", p.tone_curve.parametric.shadows));
        fields.push(float_field("p_split0", p.tone_curve.parametric.splits[0]));
        fields.push(float_field("p_split1", p.tone_curve.parametric.splits[1]));
        fields.push(float_field("p_split2", p.tone_curve.parametric.splits[2]));
        assert(named(fields@) =~= Self::block(*p, *f));
        block_of(fields)
    }

    fn params_schema() -> (r: Vec<FieldDecl>) {
        let mut r: Vec<FieldDecl> = Vec::new();
        r.push(FieldDecl { name: "rgb_pts", kind: ParamKind::Text });
        r.push(FieldDecl { name: "r_pts", kind: ParamKind::Text });
        r.push(FieldDecl { name: "g_pts", kind: ParamKind::Text });
        r.push(FieldDecl { name: "b_pts", kind: ParamKind::Text });
        r.push(declare_float("p_highlights"));
        r.push(declare_float("p_lights"));
        r.push(declare_float("p_darks"));
        r.push(declare_float("p_shadows"));
        r.push(declare_float("p_split0"));
        r.push(declare_float("p_split1"));
        r.push(declare_float("p_split2"));
        assert(declared(r@) =~= Self::schema());
        r
    }

    fn margin() -> (r: u32) {
        0
    }

    proof fn law_takes_only_declared_params(p: GlobalStages, f: Prepared) {
        lemma_conforms_in_order(Self::block(p, f), Self::schema());
    }
}

/// No two fields of a block share a name.
proof fn lemma_curve_names_apart(p: GlobalStages, f: Prepared)
    ensures
        names_apart(ToneCurveNode::block(p, f)),
{
    let block = ToneCurveNode::block(p, f);
    reveal_strlit("rgb_pts");
    reveal_strlit("r_pts");
    reveal_strlit("g_pts");
    reveal_strlit("b_pts");
    reveal_strlit("p_highlights");
    reveal_strlit("p_lights");
    reveal_strlit("p_darks");
    reveal_strlit("p_shadows");
    reveal_strlit("p_split0");
    reveal_strlit("p_split1");
    reveal_strlit("p_split2");
    assert("rgb_pts"@.len() != "r_pts"@.len());
    assert("rgb_pts"@.len() != "g_pts"@.len());
    assert("rgb_pts"@.len() != "b_pts"@.len());
    assert("rgb_pts"@.len() != "p_highlights"@.len());
    assert("rgb_pts"@.len() != "p_lights"@.len());
    assert("rgb_pts"@[0] != "p_darks"@[0]);
    assert("rgb_pts"@.len() != "p_shadows"@.len());
    assert("rgb_pts"@.len() != "p_split0"@.len());
    assert("rgb_pts"@.len() != "p_split1"@.len());
    assert("rgb_pts"@.len() != "p_split2"@.len());
    assert("r_pts"@[0] != "g_pts"@[0]);
    assert("r_pts"@[0] != "b_pts"@[0]);
    assert("r_pts"@.len() != "p_highlights"@.len());
    assert("r_pts"@.len() != "p_lights"@.len());
    assert("r_pts"@.len() != "p_darks"@.len());
    assert("r_pts"@.len() != "p_shadows"@.len());
    assert("r_pts"@.len() != "p_split0"@.len());
    assert("r_pts"@.len() != "p_split1"@.len());
    assert("r_pts"@.len() != "p_split2"@.len());
    assert("g_pts"@[0] != "b_pts"@[0]);
    assert("g_pts"@.len() != "p_highlights"@.len());
    assert("g_pts"@.len() != "p_lights"@.len());
    assert("g_pts"@.len() != "p_darks"@.len());
    assert("g_pts"@.len() != "p_shadows"@.len());
    assert("g_pts"@.len() != "p_split0"@.len());
    assert("g_pts"@.len() != "p_split1"@.len());
    assert("g_pts"@.len() != "p_split2"@.len());
    assert("b_pts"@.len() != "p_highlights"@.len());
    assert("b_pts"@.len() != "p_lights"@.len());
    assert("b_pts"@.len() != "p_darks"@.len());
    assert("b_pts"@.len() != "p_shadows"@.len());
    assert("b_pts"@.len() != "p_split0"@.len());
    assert("b_pts"@.len() != "p_split1"@.len());
    assert("b_pts"@.len() != "p_split2"@.len());
    assert("p_highlights"@.len() != "p_lights"@.len());
    assert("p_highlights"@.len() != "p_darks"@.len());
    assert("p_highlights"@.len() != "p_shadows"@.len());
    assert("p_highlights"@.len() != "p_split0"@.len());
    assert("p_highlights"@.len() != "p_split1"@.len());
    assert("p_highlights"@.len() != "p_split2"@.len());
    assert("p_lights"@.len() != "p_darks"@.len());
    assert("p_lights"@.len() != "p_shadows"@.len());
    assert("p_lights"@[2] != "p_split0"@[2]);
    assert("p_lights"@[2] != "p_split1"@[2]);
    assert("p_lights"@[2] != "p_split2"@[2]);
    assert("p_darks"@.len() != "p_shadows"@.len());
    assert("p_darks"@.len() != "p_split0"@.len());
    assert("p_darks"@.len() != "p_split1"@.len());
    assert("p_darks"@.len() != "p_split2"@.len());
    assert("p_shadows"@.len() != "p_split0"@.len());
    assert("p_shadows"@.len() != "p_split1"@.len());
    assert("p_shadows"@.len() != "p_split2"@.len());
    assert("p_split0"@[7] != "p_split1"@[7]);
    assert("p_split0"@[7] != "p_split2"@[7]);
    assert("p_split1"@[7] != "p_split2"@[7]);
    assert(names_apart(block));
}

/// Each curve and each region slider stands in the block under its own name.
pub proof fn law_each_curve_has_its_own_name(p: GlobalStages, f: Prepared)
    ensures
        lookup_text(ToneCurveNode::block(p, f), "rgb_pts"@) == Some(curve_text(f.curves.rgb@)),
        lookup_text(ToneCurveNode::block(p, f), "r_pts"@) == Some(curve_text(f.curves.r@)),
        lookup_text(ToneCurveNode::block(p, f), "g_pts"@) == Some(curve_text(f.curves.g@)),
        lookup_text(ToneCurveNode::block(p, f), "b_pts"@) == Some(curve_text(f.curves.b@)),
        lookup_float(ToneCurveNode::block(p, f), "p_highlights"@) == Some(
            p.tone_curve.parametric.highlights.as_double(),
        ),
        lookup_float(ToneCurveNode::block(p, f), "p_lights"@) == Some(
            p.tone_curve.parametric.lights.as_double(),
        ),
        lookup_float(ToneCurveNode::block(p, f), "p_darks"@) == Some(
            p.tone_curve.parametric.darks.as_double(),
        ),
        lookup_float(ToneCurveNode::block(p, f), "p_shadows"@) == Some(
            p.tone_curve.parametric.shadows.as_double(),
        ),
        lookup_float(ToneCurveNode::block(p, f), "p_split0"@) == Some(
            p.tone_curve.parametric.splits@[0].as_double(),
        ),
        lookup_float(ToneCurveNode::block(p, f), "p_split1"@) == Some(
            p.tone_curve.parametric.splits@[1].as_double(),
        ),
        lookup_float(ToneCurveNode::block(p, f), "p_split2"@) == Some(
            p.tone_curve.parametric.splits@[2].as_double(),
        ),
{
    let block = ToneCurveNode::block(p, f);
    lemma_curve_names_apart(p, f);
    lemma_find(block, 0);
    lemma_find(block, 1);
    lemma_find(block, 2);
    lemma_find(block, 3);
    lemma_find(block, 4);
    lemma_find(block, 5);
    lemma_find(block, 6);
    lemma_find(block, 7);
    lemma_find(block, 8);
    lemma_find(block, 9);
    lemma_find(block, 10);
}

/// An evaluation takes each curve from under its own name; a missing curve has
/// no points, a missing slider is zero and the missing splits are the quarters.
pub proof fn law_curves_are_read_by_name(block: Seq<Named>, c: CurveParams)
    requires
        curves_of(block, c),
    ensures
        lookup_text(block, "rgb_pts"@) matches Some(t) ==> points(c.rgb@) == decoded_points(t),
        lookup_text(block, "rgb_pts"@) is None ==> c.rgb@.len() == 0,
        lookup_text(block, "r_pts"@) matches Some(t) ==> points(c.r@) == decoded_points(t),
        lookup_text(block, "r_pts"@) is None ==> c.r@.len() == 0,
        lookup_text(block, "g_pts"@) matches Some(t) ==> points(c.g@) == decoded_points(t),
        lookup_text(block, "g_pts"@) is None ==> c.g@.len() == 0,
        lookup_text(block, "b_pts"@) matches Some(t) ==> points(c.b@) == decoded_points(t),
        lookup_text(block, "b_pts"@) is None ==> c.b@.len() == 0,
        lookup_float(block, "p_highlights"@) matches Some(v) ==> c.highlights == v,
        lookup_float(block, "p_highlights"@) is None ==> c.highlights == (Double { bits: 0 }),
        lookup_float(block, "p_lights"@) matches Some(v) ==> c.lights == v,
        lookup_float(block, "p_lights"@) is None ==> c.lights == (Double { bits: 0 }),
        lookup_float(block, "p_darks"@) matches Some(v) ==> c.darks == v,
        lookup_float(block, "p_darks"@) is None ==> c.darks == (Double { bits: 0 }),
        lookup_float(block, "p_shadows"@) matches Some(v) ==> c.shadows == v,
        lookup_float(block, "p_shadows"@) is None ==> c.shadows == (Double { bits: 0 }),
        lookup_float(block, "p_split0"@) matches Some(v) ==> c.split0 == v,
        lookup_float(block, "p_split0"@) is None ==> c.split0 == (Double { bits: 0x3fd0_0000_0000_0000 }),
        lookup_float(block, "p_split1"@) matches Some(v) ==> c.split1 == v,
        lookup_float(block, "p_split1"@) is None ==> c.split1 == (Double { bits: 0x3fe0_0000_0000_0000 }),
        lookup_float(block, "p_split2"@) matches Some(v) ==> c.split2 == v,
        lookup_float(block, "p_split2"@) is None ==> c.split2 == (Double { bits: 0x3fe8_0000_0000_0000 }),
{
    assert(points(c.rgb@).len() == c.rgb@.len());
    assert(points(c.r@).len() == c.r@.len());
    assert(points(c.g@).len() == c.g@.len());
    assert(points(c.b@).len() == c.b@.len());
}

/// Reading a block gives back the recipe's curves.
pub proof fn law_curve_params_round_trip(p: GlobalStages, f: Prepared, c: CurveParams)
    requires
        curves_of(ToneCurveNode::block(p, f), c),
    ensures
        plain_points(points(f.curves.rgb@)) ==> points(c.rgb@) == points(f.curves.rgb@),
        plain_points(points(f.curves.r@)) ==> points(c.r@) == points(f.curves.r@),
        plain_points(points(f.curves.g@)) ==> points(c.g@) == points(f.curves.g@),
        plain_points(points(f.curves.b@)) ==> points(c.b@) == points(f.curves.b@),
        c.highlights == p.tone_curve.parametric.highlights.as_double(),
        c.lights == p.tone_curve.parametric.lights.as_double(),
        c.darks == p.tone_curve.parametric.darks.as_double(),
        c.shadows == p.tone_curve.parametric.shadows.as_double(),
        c.split0 == p.tone_curve.parametric.splits@[0].as_double(),
        c.split1 == p.tone_curve.parametric.splits@[1].as_double(),
        c.split2 == p.tone_curve.parametric.splits@[2].as_double(),
{
    let block = ToneCurveNode::block(p, f);
    lemma_curve_names_apart(p, f);
    lemma_find(block, 0);
    lemma_find(block, 1);
    lemma_find(block, 2);
    lemma_find(block, 3);
    lemma_find(block, 4);
    lemma_find(block, 5);
    lemma_find(block, 6);
    lemma_find(block, 7);
    lemma_find(block, 8);
    lemma_find(block, 9);
    lemma_find(block, 10);
    if plain_points(points(f.curves.rgb@)) {
        law_points_round_trip(points(f.curves.rgb@));
    }
    if plain_points(points(f.curves.r@)) {
        law_points_round_trip(points(f.curves.r@));
    }
    if plain_points(points(f.curves.g@)) {
        law_points_round_trip(points(f.curves.g@));
    }
    if plain_points(points(f.curves.b@)) {
        law_points_round_trip(points(f.curves.b@));
    }
}

/// Each number has its own place in the uniform buffer, and the rest is padding.
pub proof fn law_tone_curve_numbers_have_their_own_places(samples: u32)
    ensures
        le_words(tone_curve_layout(samples)).len() == 16,
        le_words(tone_curve_layout(samples)).subrange(0, 4) == le32(samples),
        le_words(tone_curve_layout(samples)).subrange(4, 8) == le32(0),
        le_words(tone_curve_layout(samples)).subrange(8, 12) == le32(0),
        le_words(tone_curve_layout(samples)).subrange(12, 16) == le32(0),
{
    let words = tone_curve_layout(samples);
    law_words_lie_end_to_end(words, 0);
    law_words_lie_end_to_end(words, 1);
    law_words_lie_end_to_end(words, 2);
    law_words_lie_end_to_end(words, 3);
}

/// Makes [`ToneCurveNode`]s.
#[derive(Clone, Copy, Debug, PartialEq, Eq, Structural)]
pub struct ToneCurveFactory {}

impl NodeFactory for ToneCurveFactory {
    type Node = ToneCurveNode;

    open spec fn fresh() -> ToneCurveNode {
        ToneCurveNode {  }
    }

    fn instantiate(&self) -> (r: ToneCurveNode) {
        ToneCurveNode::new()
    }
}

/// A curve's text is its points as `x,y`, with a semicolon between each two.
pub proof fn law_a_curve_is_written_point_by_point(v: Seq<PointText>, p: PointText)
    ensures
        curve_text(Seq::empty()) == Seq::<char>::empty(),
        curve_text(seq![p]) == p.x@.push(',') + p.y@,
        v.len() > 0 ==> curve_text(v.push(p)) == curve_text(v).push(';') + (p.x@.push(',') + p.y@),
{
    assert(point_texts(points(Seq::<PointText>::empty())) =~= Seq::empty());
    assert(point_texts(points(seq![p])) =~= seq![p.x@.push(',') + p.y@]);
    assert(point_texts(points(v.push(p))) =~= point_texts(points(v)).push(p.x@.push(',') + p.y@));
    assert(point_texts(points(v.push(p))).drop_last() =~= point_texts(points(v)));
}

/// A piece of a curve's text is a point exactly if it has a comma: what comes
/// before the first one and what comes after it. Others are dropped.
pub proof fn law_only_pieces_with_a_comma_are_points(
    pieces: Seq<Seq<char>>,
    x: Seq<char>,
    y: Seq<char>,
    other: Seq<char>,
)
    requires
        !x.contains(','),
        !other.contains(','),
    ensures
        points_of_pieces(pieces.push(x.push(',') + y)) == points_of_pieces(pieces).push(
            Point { x, y },
        ),
        points_of_pieces(pieces.push(other)) == points_of_pieces(pieces),
        points_of_pieces(Seq::empty()).len() == 0,
{
    lemma_split_first_point(Point { x, y });
    assert(pieces.push(x.push(',') + y).drop_last() =~= pieces);
    assert(pieces.push(other).drop_last() =~= pieces);
    other.index_of_first_ensures(',');
}

} // verus!
