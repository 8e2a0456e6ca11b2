use lightbox_render::edit::{
    CreativeLut, CurvePoint, GlobalStages, GradeWheel, Grain, HslBand, NoiseReduction,
    PostCropVignette, Sharpen, ToneCurve, Treatment, WbPreset, WhiteBalance,
};
use lightbox_render::ieee::{Double, Single};
use lightbox_render::nodes::global::bw_mix::mix_field;
use lightbox_render::nodes::global::creative_lut::{
    decode_lut_data, encode_lut_data, sampled_cube, table_is_complete, EntryText, LookParams, Lut3D,
    SampledCube,
};
use lightbox_render::nodes::global::grain::{hash_u32, lattice_bits, SEED_COARSE, SEED_FINE};
use lightbox_render::nodes::global::node::{CurveText, PointText};
use lightbox_render::nodes::global::tone_curve::{decode_points, encode_points};
use lightbox_render::nodes::global::vignette::canvas_frame;
use lightbox_render::nodes::global::white_balance::{resolve_temp_tint, PresetEntry};
use lightbox_render::nodes::global::{
    clarity, dehaze, noise_reduction, sharpen, texture, tone_recovery, BwMixNode, ClarityFactory,
    ClarityNode, ColorGradeNode, ContrastNode, CreativeLutNode, DehazeNode, ExposureNode,
    GlobalNode, GrainNode, HslNode, NodeFactory, NoiseReductionNode, Prepared, SharpenNode,
    TextureNode, ToneCurveNode, ToneRecoveryNode, VibranceSatNode, VignetteNode, WhiteBalanceNode,
    WhitesBlacksNode,
};
use lightbox_render::params::{Field, ParamBlock, ParamError, ParamValue};
use lightbox_render::types::{Extent, RenderScale, Roi};

fn s(v: f32) -> Single {
    Single { bits: v.to_bits() }
}

fn d(v: f64) -> Double {
    Double { bits: v.to_bits() }
}

fn num(v: Option<Double>) -> Option<f64> {
    v.map(|d| f64::from_bits(d.bits))
}

fn presets() -> Vec<PresetEntry> {
    let row = |preset, kelvin, tint| PresetEntry {
        preset,
        kelvin: d(kelvin),
        tint: d(tint),
    };
    vec![
        row(WbPreset::Daylight, 5500.0, 10.0),
        row(WbPreset::Cloudy, 6500.0, 10.0),
        row(WbPreset::Shade, 7500.0, 10.0),
        row(WbPreset::Tungsten, 2850.0, 0.0),
        row(WbPreset::Fluorescent, 3800.0, 21.0),
        row(WbPreset::Flash, 5500.0, 0.0),
    ]
}

fn prepared() -> Prepared {
    let zero = d(0.0);
    let one = d(1.0);
    Prepared {
        presets: presets(),
        wb_matrix: [[one, zero, zero], [zero, one, zero], [zero, zero, one]],
        curves: CurveText {
            rgb: Vec::new(),
            r: Vec::new(),
            g: Vec::new(),
            b: Vec::new(),
        },
        look_fraction: zero,
        look_fraction_single: s(0.0),
    }
}

fn empty_block() -> ParamBlock {
    ParamBlock::from_fields(Vec::new()).unwrap()
}

fn float(name: &'static str, v: f64) -> Field {
    Field {
        name,
        value: ParamValue::Float(d(v)),
    }
}

fn roi(x: i32, y: i32, w: u32, h: u32) -> Roi {
    Roi { x, y, w, h }
}

// -- bw_mix ------------------------------------------------------------------

#[test]
fn color_treatment_is_always_identity_regardless_of_mix() {
    let mut g = GlobalStages {
        treatment: Treatment::Color,
        ..GlobalStages::default()
    };
    assert!(BwMixNode::is_identity(&g, &prepared()));
    g.bw.weights[0] = s(90.0);
    assert!(
        BwMixNode::is_identity(&g, &prepared()),
        "Color treatment elides bw_mix even with a non-zero mix"
    );
}

#[test]
fn monochrome_treatment_is_never_identity_even_with_zero_mix() {
    let g = GlobalStages {
        treatment: Treatment::BlackAndWhite,
        ..GlobalStages::default()
    };
    assert!(
        !BwMixNode::is_identity(&g, &prepared()),
        "Monochrome must never be elided, it always desaturates"
    );
}

#[test]
fn param_block_round_trips_mix_weights() {
    let mut g = GlobalStages {
        treatment: Treatment::BlackAndWhite,
        ..GlobalStages::default()
    };
    let weights = [10.0f32, -20.0, 30.0, -40.0, 50.0, -60.0, 70.0, -80.0];
    g.bw.weights = weights.map(s);
    let pb = BwMixNode::param_block(&g, &prepared());
    for (i, &want) in weights.iter().enumerate() {
        assert_eq!(num(pb.get_f64(mix_field(i))), Some(want as f64));
        assert_eq!(BwMixNode::mix_from_params(&pb)[i], d(want as f64));
    }
}

// -- clarity -----------------------------------------------------------------

#[test]
fn is_identity_tracks_the_clarity_field() {
    let mut g = GlobalStages::default();
    assert!(ClarityNode::is_identity(&g, &prepared()));
    g.presence.clarity = s(10.0);
    assert!(!ClarityNode::is_identity(&g, &prepared()));
}

#[test]
fn param_block_carries_clarity() {
    let mut g = GlobalStages::default();
    g.presence.clarity = s(42.0);
    let pb = ClarityNode::param_block(&g, &prepared());
    assert_eq!(num(pb.get_f64("clarity")), Some(42.0));
}

#[test]
fn clarity_plan_pads_by_two_guide_radii() {
    let node = ClarityNode::new();
    let out = roi(5, 5, 40, 40);
    let rois = node.plan(out, s(1.0), &empty_block());
    assert_eq!(rois[0], out.expand(2 * clarity::GUIDE_RADIUS));
    assert_eq!(clarity::GUIDE_RADIUS, 12);
}

// -- color_grade -------------------------------------------------------------

#[test]
fn is_identity_tracks_every_wheels_sat_and_lum_but_not_hue() {
    let mut g = GlobalStages::default();
    assert!(ColorGradeNode::is_identity(&g, &prepared()));
    // A non-default hue with sat=lum=0 is still identity.
    g.color_grade.highlights.hue = s(210.0);
    assert!(ColorGradeNode::is_identity(&g, &prepared()));
    g.color_grade.highlights.sat = s(20.0);
    assert!(!ColorGradeNode::is_identity(&g, &prepared()));
    g.color_grade.highlights.sat = s(0.0);
    g.color_grade.shadows.lum = s(-5.0);
    assert!(!ColorGradeNode::is_identity(&g, &prepared()));
}

#[test]
fn param_block_round_trips_wheel_and_blend_balance_values() {
    let mut g = GlobalStages::default();
    g.color_grade.highlights = GradeWheel {
        hue: s(40.0),
        sat: s(60.0),
        lum: s(5.0),
    };
    g.color_grade.blend = s(70.0);
    g.color_grade.balance = s(-15.0);
    let pb = ColorGradeNode::param_block(&g, &prepared());
    assert_eq!(num(pb.get_f64("hi_hue")), Some(40.0));
    assert_eq!(num(pb.get_f64("hi_sat")), Some(60.0));
    assert_eq!(num(pb.get_f64("hi_lum")), Some(5.0));
    assert_eq!(num(pb.get_f64("blending")), Some(70.0));
    assert_eq!(num(pb.get_f64("balance")), Some(-15.0));
    assert_eq!(num(pb.get_f64("sh_hue")), Some(0.0));
    let read = ColorGradeNode::params_from(&pb);
    assert_eq!(read[6..9], [d(40.0), d(60.0), d(5.0)]);
    assert_eq!(read[12..], [d(70.0), d(-15.0)]);
}

// -- contrast, exposure ------------------------------------------------------

#[test]
fn is_identity_tracks_the_contrast_field() {
    let mut g = GlobalStages::default();
    assert!(ContrastNode::is_identity(&g, &prepared()));
    g.contrast = s(10.0);
    assert!(!ContrastNode::is_identity(&g, &prepared()));
}

#[test]
fn is_identity_tracks_the_exposure_field() {
    let mut g = GlobalStages::default();
    assert!(ExposureNode::is_identity(&g, &prepared()));
    g.exposure = s(0.5);
    assert!(!ExposureNode::is_identity(&g, &prepared()));
}

#[test]
fn param_block_carries_ev() {
    let g = GlobalStages {
        exposure: s(1.25),
        ..GlobalStages::default()
    };
    let pb = ExposureNode::param_block(&g, &prepared());
    assert_eq!(num(pb.get_f64("ev")), Some(1.25));
}

#[test]
fn minus_zero_is_neutral_and_nan_is_not() {
    let mut g = GlobalStages::default();
    g.exposure = s(-0.0);
    assert!(ExposureNode::is_identity(&g, &prepared()));
    g.exposure = s(f32::NAN);
    assert!(!ExposureNode::is_identity(&g, &prepared()));
}

// -- creative_lut ------------------------------------------------------------

fn look(id: &str, amount: f32) -> Option<CreativeLut> {
    Some(CreativeLut {
        id: id.to_owned(),
        amount: s(amount),
    })
}

#[test]
fn is_identity_tracks_presence_and_amount() {
    let mut g = GlobalStages::default();
    assert!(CreativeLutNode::is_identity(&g, &prepared()));

    g.effects.creative_lut = look("some-look", 100.0);
    assert!(!CreativeLutNode::is_identity(&g, &prepared()));

    g.effects.creative_lut = look("some-look", 0.0);
    assert!(CreativeLutNode::is_identity(&g, &prepared()), "amount 0 is identity");
}

#[test]
fn a_look_without_positive_strength_is_identity() {
    let mut g = GlobalStages::default();
    g.effects.creative_lut = look("x", -3.0);
    assert!(CreativeLutNode::is_identity(&g, &prepared()));
    g.effects.creative_lut = look("x", f32::NAN);
    assert!(!CreativeLutNode::is_identity(&g, &prepared()));
}

#[test]
fn param_block_converts_percent_to_fraction() {
    let mut g = GlobalStages::default();
    g.effects.creative_lut = look("look-x", 40.0);
    let mut f = prepared();
    f.look_fraction = d((40.0f32 as f64 / 100.0).clamp(0.0, 2.0));
    let pb = CreativeLutNode::param_block(&g, &f);
    assert!((num(pb.get_f64("amount")).unwrap() - 0.4).abs() < 1e-9);
    assert_eq!(pb.get_str("look_id"), Some("look-x"));
}

#[test]
fn no_resolver_wired_yet_degrades_to_identity() {
    let mut g = GlobalStages::default();
    g.effects.creative_lut = look("unresolvable-hash", 100.0);
    let mut f = prepared();
    f.look_fraction = d(1.0);
    let pb = CreativeLutNode::param_block(&g, &f);
    let q = CreativeLutNode::resolve_from_params(&pb);
    assert!((num(Some(q.amount)).unwrap() - 1.0).abs() < 1e-6);
    assert!(q.table.is_none());
    assert!(maps_corners_to_themselves(&sample(&q)));
}

fn sample(q: &LookParams) -> SampledCube {
    let number = |v: &str| v.parse::<f32>().ok().map(s);
    let narrow = |v: Double| s(f64::from_bits(v.bits) as f32);
    match &q.table {
        Some(t) => {
            let entries = t
                .data
                .iter()
                .map(|e| Some([number(&e.r)?, number(&e.g)?, number(&e.b)?]))
                .collect();
            sampled_cube(q, &entries, t.domain_min.map(narrow), t.domain_max.map(narrow))
        }
        None => sampled_cube(q, &Vec::new(), [s(0.0); 3], [s(1.0); 3]),
    }
}

fn maps_corners_to_themselves(c: &SampledCube) -> bool {
    let mut corners = Vec::new();
    for b in [0.0, 1.0] {
        for g in [0.0, 1.0] {
            for r in [0.0, 1.0] {
                corners.push([s(r), s(g), s(b)]);
            }
        }
    }
    c.size == 2
        && c.data == corners
        && c.domain_min == [s(0.0); 3]
        && c.domain_max == [s(1.0); 3]
}

#[test]
fn incomplete_tables_and_unbounded_domains_sample_the_identity() {
    let lut = Lut3D::from_raw(2, swapped_cube(), [s(0.0); 3], [s(1.0); 3]).unwrap();
    let pb = CreativeLutNode::param_block_with_lut(s(1.0), &lut);
    let q = CreativeLutNode::resolve_from_params(&pb);
    let whole = sample(&q);
    assert_eq!((whole.size, whole.data.len()), (2, 8));
    // Entry 1 is full red, which the table sends to green.
    assert_eq!(whole.data[1], [s(0.0), s(1.0), s(0.0)]);
    assert!(!maps_corners_to_themselves(&whole));
    let entries: Vec<Option<[Single; 3]>> = whole.data.iter().map(|e| Some(*e)).collect();
    let (low, high) = (whole.domain_min, whole.domain_max);
    assert_eq!(sampled_cube(&q, &entries, low, high), whole);
    let mut dropped = entries.clone();
    dropped[3] = None;
    assert!(maps_corners_to_themselves(&sampled_cube(&q, &dropped, low, high)));
    let mut endless = entries.clone();
    endless[3] = Some([s(0.0), s(f32::INFINITY), s(0.0)]);
    assert!(maps_corners_to_themselves(&sampled_cube(&q, &endless, low, high)));
    // A bad entry beside a complete table is only dropped.
    let mut more = entries.clone();
    more.push(Some([s(f32::NAN); 3]));
    assert_eq!(sampled_cube(&q, &more, low, high), whole);
    let far = [s(1.0), s(f32::INFINITY), s(1.0)];
    assert!(maps_corners_to_themselves(&sampled_cube(&q, &entries, low, far)));
    assert!(maps_corners_to_themselves(&sampled_cube(&q, &entries, far, high)));
}

fn entry(r: &str, g: &str, b: &str) -> EntryText {
    EntryText {
        r: r.to_owned(),
        g: g.to_owned(),
        b: b.to_owned(),
    }
}

fn swapped_cube() -> Vec<EntryText> {
    let mut v = Vec::new();
    for b in ["0", "1"] {
        for g in ["0", "1"] {
            for r in ["0", "1"] {
                v.push(entry(b, r, g));
            }
        }
    }
    v
}

#[test]
fn param_block_with_lut_round_trips_through_resolve() {
    let n = 4u32;
    let text = |i: u32| (i as f32 / (n - 1) as f32).to_string();
    let mut data = Vec::new();
    for b in 0..n {
        for g in 0..n {
            for r in 0..n {
                data.push(entry(&text(b), &text(r), &text(g)));
            }
        }
    }
    let lut = Lut3D::from_raw(n, data, [s(0.0); 3], [s(1.0); 3]).unwrap();
    let pb = CreativeLutNode::param_block_with_lut(s(0.75), &lut);
    let q = CreativeLutNode::resolve_from_params(&pb);
    assert!((num(Some(q.amount)).unwrap() - 0.75).abs() < 1e-6);
    let t = q.table.unwrap();
    assert_eq!(t.size, lut.size());
    assert_eq!(t.data.len(), lut.data().len());
    for (a, b) in t.data.iter().zip(lut.data().iter()) {
        for (x, y) in [(&a.r, &b.r), (&a.g, &b.g), (&a.b, &b.b)] {
            let x: f32 = x.parse().unwrap();
            let y: f32 = y.parse().unwrap();
            assert!((x - y).abs() < 1e-5);
        }
    }
}

#[test]
fn a_look_keeps_its_domain_through_its_parameters() {
    let lut = Lut3D::from_raw(2, swapped_cube(), [s(0.0); 3], [s(1.0), s(0.5), s(2.0)]).unwrap();
    let pb = CreativeLutNode::param_block_with_lut(s(0.75), &lut);
    assert!(pb.conforms_to(&CreativeLutNode::params_schema()));
    let t = CreativeLutNode::resolve_from_params(&pb).table.unwrap();
    assert_eq!(&t.data, lut.data());
    assert_eq!(t.domain_max, [d(1.0), d(0.5), d(2.0)]);
    assert_eq!(lut.domain().0, [s(0.0); 3]);
}

#[test]
fn malformed_lut_data_in_params_degrades_to_identity_not_panic() {
    let pb = ParamBlock::from_fields(vec![
        float("amount", 1.0),
        Field {
            name: "lut_size",
            value: ParamValue::Int(5),
        },
        Field {
            name: "lut_data",
            value: ParamValue::Text("garbage;not,numbers".to_owned()),
        },
    ])
    .unwrap();
    let q = CreativeLutNode::resolve_from_params(&pb);
    assert!((num(Some(q.amount)).unwrap() - 1.0).abs() < 1e-6);
    assert!(maps_corners_to_themselves(&sample(&q)));
    let t = q.table.unwrap();
    assert!(!table_is_complete(t.size, t.data.len()));
    assert_eq!(t.domain_max, [d(1.0); 3]);
}

#[test]
fn lut_text_drops_pieces_that_are_not_three_fields() {
    let text = encode_lut_data(&vec![entry("0.5", "1", "-2e3"), entry("a", "b", "c")]);
    assert_eq!(text, "0.5,1,-2e3;a,b,c");
    assert_eq!(
        decode_lut_data("1,2;0.5,1,-2e3;;1,2,3,4;a,b,c"),
        vec![entry("0.5", "1", "-2e3"), entry("a", "b", "c")]
    );
    assert!(decode_lut_data("").is_empty());
    assert_eq!(encode_lut_data(&Vec::new()), "");
}

#[test]
fn looks_must_be_complete_and_finite() {
    let one = [s(1.0); 3];
    assert!(Lut3D::from_raw(1, vec![entry("0", "0", "0")], [s(0.0); 3], one).is_none());
    assert!(Lut3D::from_raw(2, Vec::new(), [s(0.0); 3], one).is_none());
    assert!(Lut3D::from_raw(2, swapped_cube(), [s(f32::NAN); 3], one).is_none());
    assert!(table_is_complete(33, 35_937));
    assert!(!table_is_complete(u32::MAX, usize::MAX));
}

// -- dehaze ------------------------------------------------------------------

#[test]
fn is_identity_tracks_the_dehaze_field() {
    let mut g = GlobalStages::default();
    assert!(DehazeNode::is_identity(&g, &prepared()));
    g.presence.dehaze = s(20.0);
    assert!(!DehazeNode::is_identity(&g, &prepared()));
}

#[test]
fn param_block_carries_dehaze() {
    let mut g = GlobalStages::default();
    g.presence.dehaze = s(-55.0);
    let pb = DehazeNode::param_block(&g, &prepared());
    assert_eq!(num(pb.get_f64("dehaze")), Some(-55.0));
}

#[test]
fn plan_pads_by_r_dark_plus_two_refine_radii() {
    let node = DehazeNode::new();
    let out = roi(5, 5, 50, 50);
    let rois = node.plan(out, s(1.0), &empty_block());
    assert_eq!(rois[0], out.expand(dehaze::R_DARK + 2 * dehaze::REFINE_RADIUS));
    assert_eq!(rois[0], roi(-18, -18, 96, 96));
}

// -- grain -------------------------------------------------------------------

#[test]
fn grain_is_identity_tracks_only_the_amount_field() {
    let mut g = GlobalStages::default();
    assert!(GrainNode::is_identity(&g, &prepared()));
    g.effects.grain.size = s(60.0);
    g.effects.grain.roughness = s(80.0);
    assert!(
        GrainNode::is_identity(&g, &prepared()),
        "size/roughness alone render nothing"
    );
    g.effects.grain.amount = s(25.0);
    assert!(!GrainNode::is_identity(&g, &prepared()));
}

#[test]
fn param_block_carries_every_leaf_field() {
    let mut g = GlobalStages::default();
    g.effects.grain = Grain {
        amount: s(40.0),
        size: s(25.0),
        roughness: s(60.0),
    };
    let pb = GrainNode::param_block(&g, &prepared());
    assert_eq!(num(pb.get_f64("amount")), Some(40.0));
    assert_eq!(num(pb.get_f64("size")), Some(25.0));
    assert_eq!(num(pb.get_f64("roughness")), Some(60.0));
}

#[test]
fn the_hash_is_pinned_to_exact_values() {
    assert_eq!(hash_u32(0), 0x0000_0000);
    assert_eq!(hash_u32(1), 0x6889_90c0);
    assert_eq!(hash_u32(2), 0xd113_2181);
    assert_eq!(hash_u32(0xdead_beef), 0xe628_c683);
}

fn lattice_value(ix: i32, iy: i32, seed: u32) -> f32 {
    lattice_bits(ix, iy, seed) as f32 * (1.0 / 16_777_216.0)
}

#[test]
fn lattice_values_are_pinned_to_exact_values() {
    assert_eq!(lattice_value(0, 0, SEED_FINE), 0.359_352_65);
    assert_eq!(lattice_value(1, 0, SEED_FINE), 0.956_447_66);
    assert_eq!(lattice_value(0, 1, SEED_FINE), 0.163_003_8);
    assert_eq!(lattice_value(-7, -13, SEED_FINE), 0.043_395_28);
}

#[test]
fn the_two_octave_seeds_produce_different_fields() {
    let a = lattice_value(3, 5, SEED_FINE);
    let b = lattice_value(3, 5, SEED_COARSE);
    assert!((a - b).abs() > 1e-6, "a={a} b={b}");
}

#[test]
fn negative_lattice_coordinates_are_handled() {
    let v = lattice_value(-7, -13, SEED_FINE);
    assert!((0.0..1.0).contains(&v), "v={v}");
}

#[test]
fn the_hash_does_not_collide_on_a_sweep() {
    let mut seen: Vec<u32> = (0..20_000u32).map(|x| hash_u32(x.wrapping_mul(0x1_0001))).collect();
    seen.sort_unstable();
    seen.dedup();
    assert_eq!(seen.len(), 20_000);
}

// -- hsl ---------------------------------------------------------------------

#[test]
fn is_identity_tracks_every_band_field() {
    let mut g = GlobalStages::default();
    assert!(HslNode::is_identity(&g, &prepared()));
    g.hsl.bands[3].hue = s(5.0);
    assert!(!HslNode::is_identity(&g, &prepared()));
    g.hsl.bands[3].hue = s(0.0);
    g.hsl.bands[7].lum = s(-2.0);
    assert!(!HslNode::is_identity(&g, &prepared()));
}

#[test]
fn param_block_round_trips_band_values() {
    let mut g = GlobalStages::default();
    g.hsl.bands[2] = HslBand {
        hue: s(40.0),
        sat: s(-20.0),
        lum: s(10.0),
    };
    let pb = HslNode::param_block(&g, &prepared());
    assert_eq!(num(pb.get_f64("b2_hue")), Some(40.0));
    assert_eq!(num(pb.get_f64("b2_sat")), Some(-20.0));
    assert_eq!(num(pb.get_f64("b2_lum")), Some(10.0));
    assert_eq!(num(pb.get_f64("b0_hue")), Some(0.0));
    assert_eq!(
        HslNode::bands_from_params(&pb)[6..9],
        [d(40.0), d(-20.0), d(10.0)]
    );
}

#[test]
fn monochrome_elides_the_color_nodes() {
    let mut g = GlobalStages::default();
    g.hsl.bands[0].sat = s(9.0);
    g.vibrance = s(9.0);
    g.color_grade.global.lum = s(9.0);
    assert!(!HslNode::is_identity(&g, &prepared()));
    assert!(!VibranceSatNode::is_identity(&g, &prepared()));
    assert!(!ColorGradeNode::is_identity(&g, &prepared()));
    g.treatment = Treatment::BlackAndWhite;
    assert!(HslNode::is_identity(&g, &prepared()));
    assert!(VibranceSatNode::is_identity(&g, &prepared()));
    assert!(ColorGradeNode::is_identity(&g, &prepared()));
}

// -- noise_reduction ---------------------------------------------------------

fn nr(luma: f32, luma_detail: f32, chroma: f32, chroma_detail: f32) -> GlobalStages {
    let mut g = GlobalStages::default();
    g.detail.nr = NoiseReduction {
        luma: s(luma),
        luma_detail: s(luma_detail),
        chroma: s(chroma),
        chroma_detail: s(chroma_detail),
    };
    g
}

#[test]
fn is_identity_tracks_the_two_strengths_only() {
    assert!(NoiseReductionNode::is_identity(&GlobalStages::default(), &prepared()));
    assert!(!NoiseReductionNode::is_identity(&nr(20.0, 0.0, 0.0, 0.0), &prepared()));
    assert!(!NoiseReductionNode::is_identity(&nr(0.0, 0.0, 20.0, 0.0), &prepared()));
    // The detail sliders modify a filter with zero blend weight, so on their
    // own they are still neutral.
    assert!(NoiseReductionNode::is_identity(&nr(0.0, 100.0, 0.0, 0.0), &prepared()));
    assert!(NoiseReductionNode::is_identity(&nr(0.0, 0.0, 0.0, 100.0), &prepared()));
}

#[test]
fn noise_reduction_param_block_carries_all_four_controls() {
    let pb = NoiseReductionNode::param_block(&nr(40.0, 55.0, 70.0, 30.0), &prepared());
    assert_eq!(num(pb.get_f64("luma")), Some(40.0));
    assert_eq!(num(pb.get_f64("luma_detail")), Some(55.0));
    assert_eq!(num(pb.get_f64("chroma")), Some(70.0));
    assert_eq!(num(pb.get_f64("chroma_detail")), Some(30.0));
}

#[test]
fn noise_reduction_param_block_round_trips_through_the_declared_schema() {
    let schema = NoiseReductionNode::params_schema();
    let pb = NoiseReductionNode::param_block(&nr(10.0, 20.0, 30.0, 40.0), &prepared());
    assert!(
        pb.conforms_to(&schema),
        "every field this node emits is declared in its schema"
    );
    let q = NoiseReductionNode::params_from(&pb);
    assert_eq!(
        [q.luma, q.luma_detail, q.chroma, q.chroma_detail],
        [d(10.0), d(20.0), d(30.0), d(40.0)]
    );

    let bogus = ParamBlock::from_fields(vec![float("colour", 1.0)]).unwrap();
    assert!(
        !bogus.conforms_to(&schema),
        "the schema must be real, not empty-accept-anything"
    );
}

#[test]
fn plan_pads_by_the_chroma_radius() {
    let node = NoiseReductionNode::new();
    let out = roi(4, 4, 32, 32);
    let want = out.expand(noise_reduction::CHROMA_RADIUS);
    assert_eq!(node.plan(out, s(1.0), &empty_block())[0], want);
    assert_eq!(node.roi_in(out, RenderScale::OneToOne), want);
}

// -- sharpen -----------------------------------------------------------------

fn sharpened(amount: f32, radius: f32, detail: f32, masking: f32) -> GlobalStages {
    let mut g = GlobalStages::default();
    g.detail.sharpen = Sharpen {
        amount: s(amount),
        radius: s(radius),
        detail: s(detail),
        masking: s(masking),
    };
    g
}

#[test]
fn is_identity_tracks_amount_only() {
    let g = GlobalStages::default();
    assert!(
        SharpenNode::is_identity(&g, &prepared()),
        "the default recipe is neutral"
    );

    let mut amount = g;
    amount.detail.sharpen.amount = s(40.0);
    assert!(!SharpenNode::is_identity(&amount, &prepared()));

    for tweak in [
        sharpened(0.0, 3.0, 0.0, 0.0),
        sharpened(0.0, 1.0, 100.0, 0.0),
        sharpened(0.0, 1.0, 0.0, 100.0),
    ] {
        assert!(
            SharpenNode::is_identity(&tweak, &prepared()),
            "amount == 0 is neutral whatever the shaping controls hold"
        );
    }
}

#[test]
fn sharpen_param_block_carries_all_four_controls() {
    let pb = SharpenNode::param_block(&sharpened(85.0, 2.5, 30.0, 60.0), &prepared());
    assert_eq!(num(pb.get_f64("amount")), Some(85.0));
    assert_eq!(num(pb.get_f64("radius")), Some(2.5));
    assert_eq!(num(pb.get_f64("detail")), Some(30.0));
    assert_eq!(num(pb.get_f64("masking")), Some(60.0));
}

#[test]
fn sharpen_param_block_round_trips_through_the_declared_schema() {
    let schema = SharpenNode::params_schema();
    let pb = SharpenNode::param_block(&GlobalStages::default(), &prepared());
    assert_eq!(num(pb.get_f64("radius")), Some(1.0), "default radius is 1.0");
    assert!(
        pb.conforms_to(&schema),
        "every field this node emits is declared in its schema"
    );
    let q = SharpenNode::params_from(&pb);
    assert_eq!([q.amount, q.radius], [d(0.0), d(1.0)]);

    let bogus = ParamBlock::from_fields(vec![float("sharpness", 1.0)]).unwrap();
    assert!(
        !bogus.conforms_to(&schema),
        "the schema must be real, not empty-accept-anything"
    );
}

#[test]
fn plan_pads_by_the_blur_plus_mask_apron() {
    let node = SharpenNode::new();
    let out = roi(5, 5, 40, 40);
    assert_eq!(
        node.plan(out, s(1.0), &empty_block())[0],
        out.expand(sharpen::APRON)
    );
    assert_eq!(
        node.roi_in(out, RenderScale::OneToOne),
        out.expand(sharpen::APRON)
    );
    assert_eq!(sharpen::APRON, 11);
}

// -- texture -----------------------------------------------------------------

#[test]
fn is_identity_tracks_the_texture_field() {
    let mut g = GlobalStages::default();
    assert!(TextureNode::is_identity(&g, &prepared()));
    g.presence.texture = s(15.0);
    assert!(!TextureNode::is_identity(&g, &prepared()));
}

#[test]
fn param_block_carries_texture() {
    let mut g = GlobalStages::default();
    g.presence.texture = s(-33.0);
    let pb = TextureNode::param_block(&g, &prepared());
    assert_eq!(num(pb.get_f64("texture")), Some(-33.0));
}

#[test]
fn plan_pads_by_r2() {
    let node = TextureNode::new();
    let out = roi(5, 5, 40, 40);
    let rois = node.plan(out, s(1.0), &empty_block());
    assert_eq!(rois[0], out.expand(texture::R2));
    assert_eq!((texture::R1, texture::R2), (2, 6));
}

// -- tone_curve --------------------------------------------------------------

fn point(x: &str, y: &str) -> PointText {
    PointText {
        x: x.to_owned(),
        y: y.to_owned(),
    }
}

fn as_text(points: &[(f32, f32)]) -> Vec<PointText> {
    points
        .iter()
        .map(|(x, y)| point(&x.to_string(), &y.to_string()))
        .collect()
}

#[test]
fn encode_decode_points_round_trips() {
    let points = [(0.0f32, 0.0f32), (0.4, 0.6), (1.0, 1.0)];
    let text = encode_points(&as_text(&points));
    assert_eq!(text, "0,0;0.4,0.6;1,1");
    let back = decode_points(&text);
    assert_eq!(points.len(), back.len());
    for (a, b) in points.iter().zip(back.iter()) {
        assert!((a.0 - b.x.parse::<f32>().unwrap()).abs() < 1e-6);
        assert!((a.1 - b.y.parse::<f32>().unwrap()).abs() < 1e-6);
    }
}

#[test]
fn decode_points_never_panics_on_garbage() {
    for text in ["", "garbage", "1,2,3", ";;;", "nan,nan", "0.5", "0.5,"] {
        let pts = decode_points(text);
        for p in pts {
            if let (Ok(x), Ok(y)) = (p.x.parse::<f32>(), p.y.parse::<f32>()) {
                if x.is_finite() && y.is_finite() {
                    panic!("{text} holds no finite point");
                }
            }
        }
    }
}

#[test]
fn decoding_splits_at_the_first_comma() {
    assert_eq!(decode_points("1,2,3"), vec![point("1", "2,3")]);
    assert_eq!(decode_points(";a,b;;c;,"), vec![point("a", "b"), point("", "")]);
    assert!(decode_points("").is_empty());
}

fn curve(points: &[(f32, f32)]) -> ToneCurve {
    ToneCurve {
        points: points
            .iter()
            .map(|(x, y)| CurvePoint { x: s(*x), y: s(*y) })
            .collect(),
    }
}

#[test]
fn is_identity_tracks_every_field() {
    let mut g = GlobalStages::default();
    assert!(ToneCurveNode::is_identity(&g, &prepared()));

    g.tone_curve.rgb = curve(&[(0.0, 0.1), (1.0, 1.0)]);
    assert!(!ToneCurveNode::is_identity(&g, &prepared()));
    g.tone_curve.rgb = ToneCurve::default();
    assert!(ToneCurveNode::is_identity(&g, &prepared()));

    g.tone_curve.parametric.shadows = s(10.0);
    assert!(!ToneCurveNode::is_identity(&g, &prepared()));
}

#[test]
fn moving_only_splits_stays_identity() {
    let mut g = GlobalStages::default();
    g.tone_curve.parametric.splits = [s(0.1), s(0.4), s(0.6)];
    assert!(ToneCurveNode::is_identity(&g, &prepared()));
}

#[test]
fn short_and_straight_channel_curves_are_identity() {
    let mut g = GlobalStages::default();
    g.tone_curve.r = curve(&[]);
    g.tone_curve.g = curve(&[(0.3, 0.9)]);
    g.tone_curve.b = curve(&[(-0.0, 0.0), (1.0, 1.0)]);
    assert!(ToneCurveNode::is_identity(&g, &prepared()));
    g.tone_curve.b = curve(&[(0.0, 0.0), (0.5, 0.5), (1.0, 1.0)]);
    assert!(!ToneCurveNode::is_identity(&g, &prepared()));
}

#[test]
fn curves_read_back_from_their_block() {
    let mut f = prepared();
    f.curves.rgb = as_text(&[(0.0, 0.0), (0.5, 0.7), (1.0, 1.0)]);
    f.curves.b = as_text(&[(0.25, 0.125)]);
    let mut g = GlobalStages::default();
    g.tone_curve.parametric.lights = s(12.0);
    let pb = ToneCurveNode::param_block(&g, &f);
    assert_eq!(pb.get_str("rgb_pts"), Some("0,0;0.5,0.7;1,1"));
    assert_eq!(pb.get_str("r_pts"), Some(""));
    let c = ToneCurveNode::curves_from(&pb);
    assert_eq!(c.rgb, f.curves.rgb);
    assert_eq!(c.b, f.curves.b);
    assert!(c.r.is_empty() && c.g.is_empty());
    assert_eq!(c.lights, d(12.0));
    assert_eq!([c.split0, c.split1, c.split2], [d(0.25), d(0.5), d(0.75)]);
    // An empty block: no points, default splits.
    let e = ToneCurveNode::curves_from(&empty_block());
    assert!(e.rgb.is_empty());
    assert_eq!([e.split0, e.split1, e.split2], [d(0.25), d(0.5), d(0.75)]);
}

// -- tone_recovery, vibrance_sat, whites_blacks ------------------------------

#[test]
fn tone_recovery_is_identity_tracks_both_fields() {
    let mut g = GlobalStages::default();
    assert!(ToneRecoveryNode::is_identity(&g, &prepared()));
    g.highlights = s(5.0);
    assert!(!ToneRecoveryNode::is_identity(&g, &prepared()));
    g.highlights = s(0.0);
    g.shadows = s(-5.0);
    assert!(!ToneRecoveryNode::is_identity(&g, &prepared()));
}

#[test]
fn param_block_carries_highlights_and_shadows() {
    let g = GlobalStages {
        highlights: s(30.0),
        shadows: s(-20.0),
        ..GlobalStages::default()
    };
    let pb = ToneRecoveryNode::param_block(&g, &prepared());
    assert_eq!(num(pb.get_f64("highlights")), Some(30.0));
    assert_eq!(num(pb.get_f64("shadows")), Some(-20.0));
}

#[test]
fn tone_recovery_plan_pads_by_two_guide_radii() {
    let node = ToneRecoveryNode::new();
    let out = roi(10, 10, 100, 100);
    let rois = node.plan(out, s(1.0), &empty_block());
    assert_eq!(rois.len(), 1);
    assert_eq!(rois[0], out.expand(2 * tone_recovery::GUIDE_RADIUS));
}

#[test]
fn vibrance_sat_is_identity_tracks_both_fields() {
    let mut g = GlobalStages::default();
    assert!(VibranceSatNode::is_identity(&g, &prepared()));
    g.vibrance = s(5.0);
    assert!(!VibranceSatNode::is_identity(&g, &prepared()));
    g.vibrance = s(0.0);
    g.saturation = s(-3.0);
    assert!(!VibranceSatNode::is_identity(&g, &prepared()));
}

#[test]
fn whites_blacks_is_identity_tracks_both_fields() {
    let mut g = GlobalStages::default();
    assert!(WhitesBlacksNode::is_identity(&g, &prepared()));
    g.whites = s(5.0);
    assert!(!WhitesBlacksNode::is_identity(&g, &prepared()));
    g.whites = s(0.0);
    g.blacks = s(-5.0);
    assert!(!WhitesBlacksNode::is_identity(&g, &prepared()));
}

#[test]
fn pointwise_nodes_read_only_their_region() {
    let out = roi(-3, 4, 50, 60);
    assert_eq!(ExposureNode::new().plan(out, s(1.0), &empty_block()), vec![out]);
    assert_eq!(HslNode::new().roi_in(out, RenderScale::OneToOne), out);
}

// -- vignette ----------------------------------------------------------------

fn vignette(amount: f32) -> GlobalStages {
    let mut g = GlobalStages::default();
    g.effects.postcrop_vignette.amount = s(amount);
    g
}

#[test]
fn vignette_is_identity_tracks_only_the_amount_field() {
    let mut g = GlobalStages::default();
    assert!(VignetteNode::is_identity(&g, &prepared()));
    // A non-default midpoint/feather/roundness with amount 0 renders nothing.
    g.effects.postcrop_vignette.midpoint = s(10.0);
    g.effects.postcrop_vignette.feather = s(90.0);
    g.effects.postcrop_vignette.roundness = s(-80.0);
    assert!(VignetteNode::is_identity(&g, &prepared()));
    g.effects.postcrop_vignette.amount = s(-40.0);
    assert!(!VignetteNode::is_identity(&g, &prepared()));
}

#[test]
fn param_block_carries_every_leaf_field_and_the_canvas() {
    let mut g = GlobalStages::default();
    g.effects.postcrop_vignette = PostCropVignette {
        amount: s(-55.0),
        midpoint: s(30.0),
        roundness: s(20.0),
        feather: s(70.0),
        highlights: s(45.0),
    };
    let pb = VignetteNode::param_block_with_canvas(&g, Extent { w: 1200, h: 800 });
    assert_eq!(num(pb.get_f64("amount")), Some(-55.0));
    assert_eq!(num(pb.get_f64("midpoint")), Some(30.0));
    assert_eq!(num(pb.get_f64("roundness")), Some(20.0));
    assert_eq!(num(pb.get_f64("feather")), Some(70.0));
    assert_eq!(num(pb.get_f64("highlights")), Some(45.0));
    assert_eq!(pb.get_i64("canvas_w"), Some(1200));
    assert_eq!(pb.get_i64("canvas_h"), Some(800));
    let q = VignetteNode::params_from(&pb);
    assert_eq!([q.amount, q.feather], [d(-55.0), d(70.0)]);
    let missing = VignetteNode::params_from(&empty_block());
    assert_eq!([missing.midpoint, missing.feather, missing.amount], [d(50.0), d(50.0), d(0.0)]);
}

#[test]
fn canvas_less_param_block_falls_back_to_the_tile_extent() {
    let pb = VignetteNode::param_block(&vignette(-50.0), &prepared());
    assert_eq!(pb.get_i64("canvas_w"), Some(0));
    let tile = Extent { w: 64, h: 32 };
    let frame = canvas_frame(&pb, tile, roi(7, 9, 64, 32));
    assert_eq!(frame.canvas, tile);
    assert_eq!((frame.off_x, frame.off_y), (0, 0));
}

#[test]
fn a_baked_canvas_keeps_the_tile_origin() {
    let pb = VignetteNode::param_block_with_canvas(&vignette(-50.0), Extent { w: 512, h: 256 });
    let frame = canvas_frame(&pb, Extent { w: 64, h: 32 }, roi(128, 64, 64, 32));
    assert_eq!(frame.canvas, Extent { w: 512, h: 256 });
    assert_eq!((frame.off_x, frame.off_y), (128, 64));
}

// -- white_balance -----------------------------------------------------------

#[test]
fn as_shot_and_auto_are_identity() {
    let mut g = GlobalStages::default();
    assert!(WhiteBalanceNode::is_identity(&g, &prepared()));
    g.white_balance = WhiteBalance::Auto;
    assert!(WhiteBalanceNode::is_identity(&g, &prepared()));
}

#[test]
fn identity_and_resolution_agree_whatever_the_table() {
    let mut f = prepared();
    for table in [presets(), Vec::new(), presets()[3..4].to_vec()] {
        f.presets = table;
        for wb in [
            WhiteBalance::AsShot,
            WhiteBalance::Auto,
            WhiteBalance::Preset(WbPreset::Daylight),
            WhiteBalance::Preset(WbPreset::Tungsten),
            WhiteBalance::Custom {
                temp_k: s(5000.0),
                tint: s(0.0),
            },
        ] {
            let mut g = GlobalStages::default();
            g.white_balance = wb;
            assert_eq!(
                WhiteBalanceNode::is_identity(&g, &f),
                resolve_temp_tint(&g.white_balance, &f.presets).is_none()
            );
        }
    }
}

#[test]
fn preset_and_custom_are_not_identity() {
    let g = GlobalStages {
        white_balance: WhiteBalance::Preset(WbPreset::Tungsten),
        ..GlobalStages::default()
    };
    assert!(!WhiteBalanceNode::is_identity(&g, &prepared()));
    let g = GlobalStages {
        white_balance: WhiteBalance::Custom {
            temp_k: s(8000.0),
            tint: s(10.0),
        },
        ..GlobalStages::default()
    };
    assert!(!WhiteBalanceNode::is_identity(&g, &prepared()));
}

#[test]
fn choices_resolve_to_a_temperature_and_a_tint() {
    let table = vec![
        PresetEntry {
            preset: WbPreset::Daylight,
            kelvin: d(5500.0),
            tint: d(0.0),
        },
        PresetEntry {
            preset: WbPreset::Tungsten,
            kelvin: d(2850.0),
            tint: d(1.0),
        },
    ];
    assert_eq!(resolve_temp_tint(&WhiteBalance::AsShot, &table), None);
    assert_eq!(resolve_temp_tint(&WhiteBalance::Auto, &table), None);
    assert_eq!(
        resolve_temp_tint(&WhiteBalance::Preset(WbPreset::Tungsten), &table),
        Some((d(2850.0), d(1.0)))
    );
    assert_eq!(
        resolve_temp_tint(&WhiteBalance::Preset(WbPreset::Flash), &table),
        None
    );
    assert_eq!(
        resolve_temp_tint(
            &WhiteBalance::Custom {
                temp_k: s(8000.0),
                tint: s(-2.5)
            },
            &table
        ),
        Some((d(8000.0), d(-2.5)))
    );
}

#[test]
fn the_matrix_round_trips_row_by_row() {
    let mut f = prepared();
    for i in 0..3 {
        for j in 0..3 {
            f.wb_matrix[i][j] = d((10 * i + j) as f64 + 0.5);
        }
    }
    let pb = WhiteBalanceNode::param_block(&GlobalStages::default(), &f);
    assert_eq!(num(pb.get_f64("m12")), Some(12.5));
    let m = WhiteBalanceNode::matrix_from_params(&pb);
    assert_eq!(m[3..6], [d(10.5), d(11.5), d(12.5)]);
    // A block without entries gives the unit matrix.
    let unit = WhiteBalanceNode::matrix_from_params(&empty_block());
    assert_eq!(unit[..4], [d(1.0), d(0.0), d(0.0), d(0.0)]);
}

// -- params, salts -----------------------------------------------------------

#[test]
fn blocks_refuse_infinities_and_nans() {
    for bad in [f64::NAN, f64::INFINITY, f64::NEG_INFINITY] {
        assert_eq!(
            ParamBlock::from_fields(vec![float("a", 1.0), float("b", bad)]),
            Err(ParamError::NotFinite)
        );
    }
    let b = ParamBlock::from_fields(vec![
        float("a", 1.0),
        float("a", 2.0),
        Field {
            name: "flag",
            value: ParamValue::Bool(true),
        },
    ])
    .unwrap();
    assert_eq!(num(b.get_f64("a")), Some(1.0), "the first of two wins");
    assert_eq!(b.get_f64("flag"), None);
    assert_eq!(b.get_i64("a"), None);
    assert_eq!(num(Some(b.get_f64_or("zzz", d(7.0)))), Some(7.0));
}

#[test]
fn every_node_declares_what_it_takes() {
    let mut g = GlobalStages::default();
    g.effects.creative_lut = look("h", 50.0);
    let f = prepared();
    assert!(WhiteBalanceNode::param_block(&g, &f).conforms_to(&WhiteBalanceNode::params_schema()));
    assert!(ToneCurveNode::param_block(&g, &f).conforms_to(&ToneCurveNode::params_schema()));
    assert!(HslNode::param_block(&g, &f).conforms_to(&HslNode::params_schema()));
    assert!(ColorGradeNode::param_block(&g, &f).conforms_to(&ColorGradeNode::params_schema()));
    assert!(BwMixNode::param_block(&g, &f).conforms_to(&BwMixNode::params_schema()));
    assert!(VignetteNode::param_block(&g, &f).conforms_to(&VignetteNode::params_schema()));
    assert!(CreativeLutNode::param_block(&g, &f).conforms_to(&CreativeLutNode::params_schema()));
    assert_eq!(ClarityNode::new().descriptor().inputs[0].name, "in");
}

#[test]
fn kernel_salts_are_blake3_digests() {
    let kernel = b"@compute @workgroup_size(8, 8) fn main() {}";
    let salt = ClarityFactory {}.kernel_salt(kernel);
    assert_eq!(&salt.0, blake3::hash(kernel).as_bytes());
    assert_eq!(ClarityFactory {}.instantiate(), ClarityNode::new());
}

// -- uniform and storage buffers ---------------------------------------------

fn words(bytes: &[u8]) -> Vec<u32> {
    bytes
        .chunks_exact(4)
        .map(|c| u32::from_le_bytes([c[0], c[1], c[2], c[3]]))
        .collect()
}

#[test]
fn uniform_buffers_hold_their_words_in_order() {
    let w = [s(0.25), s(0.5), s(0.125)];
    let wb: Vec<u32> = w.iter().map(|v| v.bits).collect();
    assert_eq!(words(&ExposureNode::uniforms(s(2.0))), vec![s(2.0).bits, 0, 0, 0]);
    let t = words(&ToneRecoveryNode::uniforms(w, s(1.0), s(2.0)));
    assert_eq!(t[..3], wb[..]);
    assert_eq!(t[3..], [s(1.0).bits, s(2.0).bits, 0, 0, 0]);
    let v = words(&VignetteNode::uniforms(
        w,
        s(1.0),
        s(2.0),
        s(3.0),
        s(4.0),
        s(5.0),
        s(6.0),
        s(7.0),
        s(8.0),
        9,
        10,
    ));
    assert_eq!(v.len(), 16);
    assert_eq!(v[10..], [s(8.0).bits, 0, 9, 10, 0, 0]);
    let g = words(&GrainNode::uniforms(w, s(1.0), s(2.0), s(3.0), s(4.0), 5, 6));
    assert_eq!(g[6..], [s(4.0).bits, 0, 5, 6, 0, 0]);
    let m = [[s(1.0), s(2.0), s(3.0)], [s(4.0), s(5.0), s(6.0)], [s(7.0), s(8.0), s(9.0)]];
    let m = words(&WhiteBalanceNode::uniforms(m));
    assert_eq!((m.len(), m[3], m[4], m[10]), (12, 0, s(4.0).bits, s(9.0).bits));
    let l = words(&CreativeLutNode::uniforms(s(1.0), s(33.0), w, w));
    assert_eq!(l[..4], [s(1.0).bits, s(33.0).bits, 0, 0]);
    assert_eq!(l[8..11], wb[..]);
    assert_eq!(words(&ToneCurveNode::uniforms(1024)), vec![1024, 0, 0, 0]);
}

#[test]
fn storage_buffers_concatenate_their_parts() {
    let w = [s(0.25), s(0.5), s(0.125)];
    let wb: Vec<u32> = w.iter().map(|v| v.bits).collect();
    assert_eq!(words(&HslNode::data(&vec![1, 2], &vec![3], &vec![4, 5])), vec![1, 2, 3, 4, 5]);
    let b = words(&BwMixNode::data(w, &vec![1], &vec![2, 3], &vec![4]));
    assert_eq!(b[..3], wb[..]);
    assert_eq!(b[3..], [1, 2, 3, 4]);
    let c = words(&ColorGradeNode::data(&vec![1], w, s(6.0), s(7.0), &vec![8, 9]));
    assert_eq!(c[1..4], wb[..]);
    assert_eq!(c[4..], [s(6.0).bits, s(7.0).bits, 8, 9]);
    let v = words(&VibranceSatNode::data(&vec![1], s(2.0), s(3.0)));
    assert_eq!(v, vec![1, s(2.0).bits, s(3.0).bits, 54.0f32.to_bits(), 20.0f32.to_bits()]);
}

#[test]
fn lattice_values_are_in_unit_range_and_well_spread() {
    let mut min = f32::MAX;
    let mut max = f32::MIN;
    let mut sum = 0.0f64;
    let n = 4096;
    for i in 0..n {
        let v = lattice_value(i % 64, i / 64, SEED_FINE);
        assert!((0.0..1.0).contains(&v), "i={i} v={v}");
        min = min.min(v);
        max = max.max(v);
        sum += v as f64;
    }
    assert!(min < 0.02 && max > 0.98, "min={min} max={max}");
    let mean = sum / n as f64;
    assert!((mean - 0.5).abs() < 0.02, "mean={mean}");
}
