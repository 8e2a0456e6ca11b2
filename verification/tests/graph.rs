use std::sync::{Arc, Mutex};

use lightbox_render::edit::{CreativeLut, GlobalStages, ParamId, Treatment, WbPreset, WhiteBalance};
use lightbox_render::graph::{
    splice, CompileError, GraphError, GraphNode, NodeRegistry, PvRange, RegistryEntry,
    RegistryError, RenderGraph,
};
use lightbox_render::ieee::{Double, Single};
use lightbox_render::node::{
    color_cpu_gate, cpu_gate, eval_extent, gpu_gate, source_index, KernelSalt, NodeError, PortDecl,
};
use lightbox_render::nodes::global::creative_lut::{EntryText, Lut3D};
use lightbox_render::nodes::global::node::CurveText;
use lightbox_render::nodes::global::segment::{build_resolved_segment, GlobalKernels};
use lightbox_render::nodes::global::white_balance::PresetEntry;
use lightbox_render::nodes::global::{
    build_tone_color_segment, build_wb_segment, invalidates, register_global_nodes, BwMixNode,
    ClarityNode, ColorGradeNode, ContrastNode, CreativeLutNode, DehazeNode, ExposureNode,
    GlobalNode, HslNode, LookResolver, NoiseReductionNode, Prepared, SharpenNode, TextureNode,
    ToneCurveNode, ToneRecoveryNode, VibranceSatNode, WhiteBalanceNode, WhitesBlacksNode,
};
use lightbox_render::nodes::gpu::{Coverage, Resource};
use lightbox_render::nodes::resize::{box_span, clamp_index, tap_range, UtilResizeFactory, UtilResizeNode};
use lightbox_render::params::ParamBlock;
use lightbox_render::types::{Extent, NodeId, PortType, ProcessVersion, Roi};

fn s(v: f32) -> Single {
    Single { bits: v.to_bits() }
}

fn d(v: f64) -> Double {
    Double { bits: v.to_bits() }
}

fn prepared() -> Prepared {
    Prepared {
        presets: vec![PresetEntry {
            preset: WbPreset::Shade,
            kelvin: d(2850.0),
            tint: d(0.0),
        }],
        wb_matrix: [[d(1.0); 3]; 3],
        curves: CurveText {
            rgb: Vec::new(),
            r: Vec::new(),
            g: Vec::new(),
            b: Vec::new(),
        },
        look_fraction: d(0.5),
        look_fraction_single: s(0.5),
    }
}

fn kernels() -> GlobalKernels {
    let k = |name: &str| name.as_bytes().to_vec();
    GlobalKernels {
        wb: k("wb"),
        exposure: k("exposure"),
        contrast: k("contrast"),
        tone_recovery: k("tone_recovery"),
        whites_blacks: k("whites_blacks"),
        tone_curve: k("tone_curve"),
        hsl: k("hsl"),
        vibrance_sat: k("vibrance_sat"),
        color_grade: k("color_grade"),
        bw_mix: k("bw_mix"),
        clarity: k("clarity"),
        texture: k("texture"),
        dehaze: k("dehaze"),
        noise_reduction: k("noise_reduction"),
        sharpen: k("sharpen"),
        creative_lut: k("creative_lut"),
    }
}

const PV: ProcessVersion = ProcessVersion(1);

fn registry() -> NodeRegistry {
    let mut reg = NodeRegistry::new();
    register_global_nodes(&mut reg, PV, &kernels()).unwrap();
    reg
}

fn with_source() -> RenderGraph {
    let mut g = RenderGraph::new();
    let index = g.add_node(GraphNode {
        id: NodeId("src.decoded"),
        params: ParamBlock::from_fields(Vec::new()).unwrap(),
        salt: KernelSalt([0; 32]),
        inputs: Vec::new(),
        output: PortDecl {
            name: "out",
            ty: PortType::LinearRgbaF16,
        },
    });
    assert_eq!(index, 0);
    g
}

struct NoLooks;

impl LookResolver for NoLooks {
    fn resolve(&self, _content_hash: &str) -> Option<Arc<Lut3D>> {
        None
    }
}

struct OneLook;

fn cube() -> Lut3D {
    let zero = || EntryText {
        r: "0".to_owned(),
        g: "0".to_owned(),
        b: "0".to_owned(),
    };
    let data: Vec<EntryText> = (0..8).map(|_| zero()).collect();
    Lut3D::from_raw(2, data, [s(0.0); 3], [s(1.0); 3]).unwrap()
}

impl LookResolver for OneLook {
    fn resolve(&self, content_hash: &str) -> Option<Arc<Lut3D>> {
        if content_hash == "installed" {
            Some(Arc::new(cube()))
        } else {
            None
        }
    }
}

fn ids(g: &RenderGraph) -> Vec<&'static str> {
    (0..g.len()).map(|i| g.node(i).id.0).collect()
}

#[test]
fn the_neutral_recipe_adds_no_node() {
    let (mut g, reg) = (with_source(), registry());
    let p = GlobalStages::default();
    let f = prepared();
    assert_eq!(build_wb_segment(&mut g, &reg, PV, &p, &f, 0), Ok(0));
    assert_eq!(
        build_tone_color_segment::<NoLooks>(&mut g, &reg, PV, &p, &f, 0, None),
        Ok(0)
    );
    assert_eq!(g.len(), 1);
    assert!(g.edges().is_empty());
}

fn busy() -> GlobalStages {
    let mut p = GlobalStages::default();
    p.white_balance = WhiteBalance::Preset(WbPreset::Shade);
    p.exposure = s(1.0);
    p.contrast = s(2.0);
    p.highlights = s(3.0);
    p.blacks = s(4.0);
    p.tone_curve.parametric.darks = s(5.0);
    p.hsl.bands[0].hue = s(6.0);
    p.vibrance = s(7.0);
    p.color_grade.global.sat = s(8.0);
    p.presence.clarity = s(9.0);
    p.presence.texture = s(10.0);
    p.presence.dehaze = s(11.0);
    p.detail.nr.luma = s(12.0);
    p.detail.sharpen.amount = s(13.0);
    p.effects.creative_lut = Some(CreativeLut {
        id: "installed".to_owned(),
        amount: s(50.0),
    });
    p
}

#[test]
fn active_stages_form_a_chain_in_pipeline_order() {
    let (mut g, reg) = (with_source(), registry());
    let p = busy();
    let f = prepared();
    let wb = build_wb_segment(&mut g, &reg, PV, &p, &f, 0).unwrap();
    let tail =
        build_tone_color_segment(&mut g, &reg, PV, &p, &f, wb, Some(&OneLook)).unwrap();
    assert_eq!(
        ids(&g),
        vec![
            "src.decoded",
            "global.wb",
            "global.exposure",
            "global.contrast",
            "global.tone_recovery",
            "global.whites_blacks",
            "global.tone_curve",
            "global.hsl",
            "global.vibrance_sat",
            "global.color_grade",
            "global.clarity",
            "global.texture",
            "global.dehaze",
            "global.noise_reduction",
            "global.sharpen",
            "global.creative_lut",
        ]
    );
    assert_eq!(tail, g.len() - 1);
    for (i, e) in g.edges().iter().enumerate() {
        assert_eq!((e.from, e.to, e.port), (i, i + 1, "in"));
    }
    assert_eq!(g.edges().len(), g.len() - 1);
    assert_eq!(
        &g.node(2).salt.0,
        blake3::hash(b"exposure").as_bytes(),
        "the kernel's salt"
    );
    let look = &g.node(tail).params;
    assert_eq!(look.get_i64("lut_size"), Some(2));
    assert_eq!(look.get_f64("amount"), Some(d(0.5)));
}

#[test]
fn monochrome_swaps_the_color_stages_for_the_mix() {
    let (mut g, reg) = (with_source(), registry());
    let mut p = busy();
    p.treatment = Treatment::BlackAndWhite;
    let f = prepared();
    build_tone_color_segment::<NoLooks>(&mut g, &reg, PV, &p, &f, 0, None).unwrap();
    let got = ids(&g);
    assert!(got.contains(&"global.bw_mix"));
    for gone in ["global.hsl", "global.vibrance_sat", "global.color_grade"] {
        assert!(!got.contains(&gone));
    }
}

#[test]
fn an_unresolved_look_keeps_only_its_reference() {
    let (reg, f) = (registry(), prepared());
    let mut p = GlobalStages::default();
    p.effects.creative_lut = Some(CreativeLut {
        id: "missing".to_owned(),
        amount: s(50.0),
    });
    let mut g = with_source();
    let tail = build_tone_color_segment(&mut g, &reg, PV, &p, &f, 0, Some(&OneLook)).unwrap();
    assert_eq!(g.node(tail).params.get_i64("lut_size"), Some(0));
    assert_eq!(g.node(tail).params.get_str("look_id"), Some("missing"));
    let mut h = with_source();
    let lut = cube();
    let tail = build_resolved_segment(&mut h, &reg, PV, &p, &f, 0, Some(&lut)).unwrap();
    assert_eq!(h.node(tail).params.get_i64("lut_size"), Some(2));
}

#[test]
fn an_unregistered_stage_stops_the_chain() {
    let mut g = with_source();
    let empty = NodeRegistry::new();
    let f = prepared();
    assert_eq!(
        build_tone_color_segment::<NoLooks>(&mut g, &empty, PV, &busy(), &f, 0, None),
        Err(CompileError::NodeNotRegistered {
            id: ExposureNode::id(),
            pv: PV
        })
    );
    assert_eq!(g.len(), 1);
    // Registered for version 1 on, not before.
    assert!(registry().resolve(HslNode::id(), ProcessVersion(0)).is_none());
    assert!(registry().resolve(HslNode::id(), ProcessVersion(9)).is_some());
}

fn entry(id: &'static str, inputs: Vec<PortDecl>) -> RegistryEntry {
    RegistryEntry {
        id: NodeId(id),
        range: PvRange::from_open(PV),
        salt: None,
        inputs,
        output: PortDecl {
            name: "out",
            ty: PortType::LinearRgbaF16,
        },
    }
}

fn no_params() -> ParamBlock {
    ParamBlock::from_fields(Vec::new()).unwrap()
}

#[test]
fn splicing_reports_each_way_to_fail() {
    let mut reg = NodeRegistry::new();
    reg.register(entry("test.source", Vec::new())).unwrap();
    let weights = PortDecl {
        name: "mask",
        ty: PortType::WeightR16,
    };
    reg.register(entry("test.mask", vec![weights])).unwrap();
    let linear = PortDecl {
        name: "in",
        ty: PortType::LinearRgbaF16,
    };
    reg.register(entry("test.gain", vec![linear])).unwrap();
    let mut g = with_source();
    assert_eq!(
        splice(&mut g, &reg, PV, NodeId("test.source"), no_params(), 0),
        Err(CompileError::UnknownStage(
            "test.source has no input port to splice into".to_owned()
        ))
    );
    assert_eq!(
        splice(&mut g, &reg, PV, NodeId("test.mask"), no_params(), 0),
        Err(CompileError::Graph(GraphError::TypeMismatch))
    );
    assert_eq!(
        splice(&mut g, &reg, PV, NodeId("test.gain"), no_params(), 40),
        Err(CompileError::Graph(GraphError::UnknownNode))
    );
    assert_eq!(g.connect(0, 2, "nope"), Err(GraphError::UnknownPort));
    let ok = splice(&mut g, &reg, PV, NodeId("test.gain"), no_params(), 0).unwrap();
    // Without a kernel the name is the salt.
    assert_eq!(&g.node(ok).salt.0, blake3::hash(b"test.gain").as_bytes());
    assert_eq!(g.len(), 5, "refused nodes stay, unconnected");
    assert_eq!(g.edges().len(), 1);
}

#[test]
fn registering_twice_clashes() {
    let mut reg = registry();
    assert_eq!(
        register_global_nodes(&mut reg, ProcessVersion(7), &kernels()),
        Err(RegistryError::Overlap)
    );
    let closed = PvRange {
        first: ProcessVersion(2),
        last: Some(ProcessVersion(4)),
    };
    let later = PvRange::from_open(ProcessVersion(5));
    assert!(!closed.overlaps(&later));
    assert!(closed.overlaps(&PvRange::from_open(ProcessVersion(4))));
    assert!(closed.contains(ProcessVersion(4)) && !closed.contains(ProcessVersion(5)));
}

// -- invalidation ------------------------------------------------------------

#[test]
fn exposure_delta_invalidates_only_the_exposure_node() {
    assert_eq!(invalidates(ParamId::Exposure), vec![ExposureNode::id()]);
    assert!(!invalidates(ParamId::Exposure).contains(&ContrastNode::id()));
    assert!(!invalidates(ParamId::Exposure).contains(&WhitesBlacksNode::id()));
}

#[test]
fn white_balance_delta_invalidates_only_the_wb_node() {
    assert_eq!(invalidates(ParamId::WhiteBalance), vec![WhiteBalanceNode::id()]);
    assert!(!invalidates(ParamId::WhiteBalance).contains(&ExposureNode::id()));
}

#[test]
fn contrast_delta_invalidates_only_the_contrast_node() {
    assert_eq!(invalidates(ParamId::Contrast), vec![ContrastNode::id()]);
}

#[test]
fn highlights_and_shadows_both_invalidate_the_tone_recovery_node() {
    assert_eq!(invalidates(ParamId::Highlights), vec![ToneRecoveryNode::id()]);
    assert_eq!(invalidates(ParamId::Shadows), vec![ToneRecoveryNode::id()]);
    assert!(!invalidates(ParamId::Highlights).contains(&WhitesBlacksNode::id()));
}

#[test]
fn whites_and_blacks_both_invalidate_the_combined_endpoint_node() {
    assert_eq!(invalidates(ParamId::Whites), vec![WhitesBlacksNode::id()]);
    assert_eq!(invalidates(ParamId::Blacks), vec![WhitesBlacksNode::id()]);
}

#[test]
fn tone_curve_delta_invalidates_only_the_tone_curve_node() {
    assert_eq!(invalidates(ParamId::ToneCurve), vec![ToneCurveNode::id()]);
    assert!(!invalidates(ParamId::ToneCurve).contains(&WhitesBlacksNode::id()));
}

#[test]
fn an_unrelated_param_invalidates_no_e10_node() {
    assert_eq!(invalidates(ParamId::Crop), Vec::<NodeId>::new());
}

#[test]
fn hsl_delta_invalidates_only_the_hsl_node() {
    assert_eq!(invalidates(ParamId::Hsl), vec![HslNode::id()]);
    assert!(!invalidates(ParamId::Hsl).contains(&ToneCurveNode::id()));
}

#[test]
fn vibrance_and_saturation_both_invalidate_the_vibrance_sat_node() {
    assert_eq!(invalidates(ParamId::Vibrance), vec![VibranceSatNode::id()]);
    assert_eq!(invalidates(ParamId::Saturation), vec![VibranceSatNode::id()]);
    assert!(!invalidates(ParamId::Vibrance).contains(&HslNode::id()));
}

#[test]
fn color_grade_delta_invalidates_only_the_color_grade_node() {
    assert_eq!(invalidates(ParamId::ColorGrade), vec![ColorGradeNode::id()]);
    assert!(!invalidates(ParamId::ColorGrade).contains(&VibranceSatNode::id()));
}

#[test]
fn bw_mix_and_treatment_both_invalidate_the_bw_mix_node() {
    assert_eq!(invalidates(ParamId::BwMix), vec![BwMixNode::id()]);
    assert_eq!(invalidates(ParamId::Treatment), vec![BwMixNode::id()]);
    assert!(!invalidates(ParamId::BwMix).contains(&ColorGradeNode::id()));
}

#[test]
fn clarity_delta_invalidates_only_the_clarity_node() {
    assert_eq!(invalidates(ParamId::Clarity), vec![ClarityNode::id()]);
    assert!(!invalidates(ParamId::Clarity).contains(&BwMixNode::id()));
}

#[test]
fn texture_delta_invalidates_only_the_texture_node() {
    assert_eq!(invalidates(ParamId::Texture), vec![TextureNode::id()]);
    assert!(!invalidates(ParamId::Texture).contains(&ClarityNode::id()));
}

#[test]
fn dehaze_delta_invalidates_only_the_dehaze_node() {
    assert_eq!(invalidates(ParamId::Dehaze), vec![DehazeNode::id()]);
    assert!(!invalidates(ParamId::Dehaze).contains(&TextureNode::id()));
}

#[test]
fn the_detail_leaves_each_invalidate_only_their_own_node() {
    assert_eq!(invalidates(ParamId::Sharpen), vec![SharpenNode::id()]);
    assert_eq!(
        invalidates(ParamId::NoiseReduction),
        vec![NoiseReductionNode::id()]
    );
    assert!(!invalidates(ParamId::Sharpen).contains(&NoiseReductionNode::id()));
    assert!(!invalidates(ParamId::NoiseReduction).contains(&SharpenNode::id()));
    assert!(!invalidates(ParamId::Sharpen).contains(&DehazeNode::id()));
}

#[test]
fn creative_lut_delta_invalidates_only_the_creative_lut_node() {
    assert_eq!(invalidates(ParamId::CreativeLut), vec![CreativeLutNode::id()]);
    assert!(!invalidates(ParamId::CreativeLut).contains(&DehazeNode::id()));
}

// -- evaluation gates, sampling ----------------------------------------------

#[test]
fn gates_report_the_first_thing_that_is_wrong() {
    let id = ClarityNode::id();
    assert_eq!(gpu_gate(id, true, false, false), Err(NodeError::Cancelled));
    assert_eq!(
        gpu_gate(id, false, false, false),
        Err(NodeError::Other("global.clarity: missing input tile".to_owned()))
    );
    assert_eq!(
        gpu_gate(id, false, true, false),
        Err(NodeError::Gpu("global.clarity: output is not a GPU tile".to_owned()))
    );
    assert_eq!(gpu_gate(id, false, true, true), Ok(()));
    assert_eq!(cpu_gate(id, true, true), Err(NodeError::Cancelled));
    assert_eq!(
        cpu_gate(id, false, false),
        Err(NodeError::Cpu("global.clarity: missing input tile".to_owned()))
    );
    assert_eq!(cpu_gate(id, false, true), Ok(()));
    assert_eq!(
        color_cpu_gate(HslNode::id(), true, true),
        Err(NodeError::Cpu("global.hsl: missing input tile".to_owned()))
    );
    assert_eq!(color_cpu_gate(HslNode::id(), false, true), Ok(()));
}

#[test]
fn pixels_are_read_through_the_apron_and_clamped_at_the_edge() {
    // Output at 100, input tile from 92 on, 24 pixels long.
    assert_eq!(source_index(100, 92, 0, 24), 8);
    assert_eq!(source_index(100, 92, 15, 24), 23);
    assert_eq!(source_index(100, 92, 40, 24), 23);
    assert_eq!(source_index(0, 5, 2, 24), 0);
    assert_eq!(source_index(i32::MIN, i32::MAX, u32::MAX, 3), 0);
    assert_eq!(source_index(0, 0, 7, 0), 0);
    let r = Roi {
        x: 0,
        y: 0,
        w: 6,
        h: 7,
    };
    assert_eq!(eval_extent(None, r), Extent { w: 6, h: 7 });
    assert_eq!(eval_extent(Some(Extent { w: 1, h: 2 }), r), Extent { w: 1, h: 2 });
}

#[test]
fn gpu_plans_bind_what_the_kernels_read() {
    let p = DehazeNode::new().gpu_plan();
    assert_eq!(p.scratch, vec![Coverage::Pixel, Coverage::Frame, Coverage::Frame]);
    let entries: Vec<&str> = p.passes.iter().map(|p| p.entry).collect();
    assert_eq!(entries, vec!["pass_atmo", "pass_trans", "pass_guided_a", "pass_guided_c"]);
    assert_eq!(p.passes[0].coverage, Coverage::Pixel);
    let last = &p.passes[3];
    assert!(last.slots.iter().any(|s| s.group == 1 && s.resource == Resource::Output));
    let c = ClarityNode::new().gpu_plan();
    assert_eq!(c.passes[1].entry, "pass_c");
    assert_eq!(c.passes[1].slots[2].binding, 1);
    assert_eq!(ToneCurveNode::new().gpu_plan().passes[0].slots.len(), 7);
    assert_eq!(SharpenNode::new().gpu_plan().passes[0].entry, "pass_h");
}

#[test]
fn box_spans_partition_a_shrinking_source() {
    let mut at = 0;
    for o in 0..7 {
        let (a, b) = box_span(o, 23, 7);
        assert_eq!(a, at);
        assert!(b > a);
        at = b;
    }
    assert_eq!(at, 23);
    // Enlarging repeats pixels instead.
    assert_eq!(box_span(0, 2, 5), (0, 1));
    assert_eq!(box_span(4, 2, 5), (1, 2));
    assert_eq!(box_span(u32::MAX - 1, u32::MAX, u32::MAX), (u32::MAX - 1, u32::MAX));
}

#[test]
fn filter_windows_are_clamped_to_the_source() {
    assert_eq!(tap_range(-4, 2, 10), (0, 2));
    assert_eq!(tap_range(7, 40, 10), (7, 9));
    assert_eq!(tap_range(20, 30, 10), (9, 9));
    assert_eq!(clamp_index(-1, 1), 0);
}

#[test]
fn the_resampler_takes_the_request_extent() {
    let n = UtilResizeNode::new();
    let e = Extent { w: 3, h: 9 };
    assert_eq!(n.output_extent(e), e);
    assert_eq!(UtilResizeNode::id(), NodeId("util.resize"));
    assert_eq!(n.descriptor().params_schema.len(), 0);
    assert_eq!(
        UtilResizeNode::uniforms(Extent { w: 1, h: 2 }, e),
        vec![1, 0, 0, 0, 2, 0, 0, 0, 3, 0, 0, 0, 9, 0, 0, 0]
    );
    let salt = UtilResizeFactory {}.kernel_salt(b"resize");
    assert_eq!(&salt.0, blake3::hash(b"resize").as_bytes());
    assert_eq!(UtilResizeFactory {}.instantiate().gpu_plan().passes.len(), 1);
}

struct Recording(Mutex<Vec<String>>);

impl LookResolver for Recording {
    fn resolve(&self, content_hash: &str) -> Option<Arc<Lut3D>> {
        self.0.lock().unwrap().push(content_hash.to_owned());
        Some(Arc::new(cube()))
    }
}

#[test]
fn the_resolver_is_asked_once_for_the_recipes_own_look() {
    let (reg, f) = (registry(), prepared());
    let resolver = Recording(Mutex::new(Vec::new()));
    let mut p = GlobalStages::default();
    build_tone_color_segment(&mut with_source(), &reg, PV, &p, &f, 0, Some(&resolver)).unwrap();
    assert!(resolver.0.lock().unwrap().is_empty());
    p.effects.creative_lut = Some(CreativeLut {
        id: "a-hash".to_owned(),
        amount: s(50.0),
    });
    let mut g = with_source();
    let tail = build_tone_color_segment(&mut g, &reg, PV, &p, &f, 0, Some(&resolver)).unwrap();
    assert_eq!(*resolver.0.lock().unwrap(), vec!["a-hash".to_owned()]);
    let block = &g.node(tail).params;
    assert_eq!(block.get_i64("lut_size"), Some(2));
    let table = CreativeLutNode::resolve_from_params(block).table.unwrap();
    assert_eq!(&table.data, cube().data());
}

#[test]
fn the_resolver_is_not_asked_for_an_unregistered_look() {
    let resolver = Recording(Mutex::new(Vec::new()));
    let mut p = GlobalStages::default();
    p.effects.creative_lut = Some(CreativeLut {
        id: "a-hash".to_owned(),
        amount: s(50.0),
    });
    let mut g = with_source();
    let mut f = prepared();
    // What the node would take does not matter where there is no node.
    f.look_fraction = d(f64::NAN);
    let empty = NodeRegistry::new();
    assert_eq!(
        build_tone_color_segment(&mut g, &empty, PV, &p, &f, 0, Some(&resolver)),
        Err(CompileError::NodeNotRegistered {
            id: CreativeLutNode::id(),
            pv: PV
        })
    );
    assert_eq!(g.len(), 1);
    assert!(resolver.0.lock().unwrap().is_empty());
}
