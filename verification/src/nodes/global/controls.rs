//! What each control of a recipe is for: which stage it switches on, where that
//! stage stands, and which kernel it runs.

use vstd::prelude::*;

use crate::edit::GlobalStages;
use crate::edit::ParamId;
use crate::edit::ToneCurve;
use crate::edit::WhiteBalance;
use crate::graph::clashes;
use crate::graph::resolved;
use crate::graph::Dag;
use crate::graph::Entry;
use crate::node::blake3_digest;
use crate::node::Port;
use crate::nodes::global::bw_mix::BwMixNode;
use crate::nodes::global::clarity::ClarityNode;
use crate::nodes::global::color_grade::ColorGradeNode;
use crate::nodes::global::contrast::ContrastNode;
use crate::nodes::global::creative_lut::CreativeLutNode;
use crate::nodes::global::dehaze::DehazeNode;
use crate::nodes::global::exposure::ExposureNode;
use crate::nodes::global::grain::GrainNode;
use crate::nodes::global::hsl::HslNode;
use crate::nodes::global::noise_reduction::NoiseReductionNode;
use crate::nodes::global::sharpen::SharpenNode;
use crate::nodes::global::texture::TextureNode;
use crate::nodes::global::tone_curve::ToneCurveNode;
use crate::nodes::global::tone_recovery::ToneRecoveryNode;
use crate::nodes::global::vibrance_sat::VibranceSatNode;
use crate::nodes::global::vignette::VignetteNode;
use crate::nodes::global::white_balance::WhiteBalanceNode;
use crate::nodes::global::whites_blacks::WhitesBlacksNode;
use crate::nodes::global::creative_lut::Cube;
use crate::nodes::global::invalidate::all_stages;
use crate::nodes::global::invalidate::invalidated;
use crate::nodes::global::laws::active;
use crate::nodes::global::laws::law_active_stages_form_a_chain;
use crate::nodes::global::laws::law_registered_nodes_serve_every_later_version;
use crate::nodes::global::node::GlobalNode;
use crate::nodes::global::node::Prepared;
use crate::nodes::global::segment::before_look_stages;
use crate::nodes::global::segment::chain;
use crate::nodes::global::segment::enrolled;
use crate::nodes::global::segment::global_entries;
use crate::nodes::global::segment::stage;
use crate::nodes::global::segment::tone_color_stages;
use crate::nodes::global::segment::GlobalKernels;
use crate::nodes::global::segment::Stage;
use crate::params::lookup_float;
use crate::types::PortType;
use crate::types::ProcessVersion;

verus! {

/// A slider's stage is left out exactly where every slider that drives it is
/// zero, of either sign: a negative setting switches it on as a positive one
/// does. Sliders that only shape an effect do not switch it.
pub proof fn law_a_stage_is_left_out_only_at_zero(p: GlobalStages, f: Prepared)
    ensures
        ExposureNode::identity(p, f) <==> p.exposure.bits % 0x8000_0000 == 0,
        ContrastNode::identity(p, f) <==> p.contrast.bits % 0x8000_0000 == 0,
        ToneRecoveryNode::identity(p, f) <==> p.highlights.bits % 0x8000_0000 == 0 && p.shadows.bits % 0x8000_0000 == 0,
        WhitesBlacksNode::identity(p, f) <==> p.whites.bits % 0x8000_0000 == 0 && p.blacks.bits % 0x8000_0000 == 0,
        ClarityNode::identity(p, f) <==> p.presence.clarity.bits % 0x8000_0000 == 0,
        TextureNode::identity(p, f) <==> p.presence.texture.bits % 0x8000_0000 == 0,
        DehazeNode::identity(p, f) <==> p.presence.dehaze.bits % 0x8000_0000 == 0,
        NoiseReductionNode::identity(p, f) <==> p.detail.nr.luma.bits % 0x8000_0000 == 0 && p.detail.nr.chroma.bits % 0x8000_0000 == 0,
        SharpenNode::identity(p, f) <==> p.detail.sharpen.amount.bits % 0x8000_0000 == 0,
        VignetteNode::identity(p, f) <==> p.effects.postcrop_vignette.amount.bits % 0x8000_0000 == 0,
        GrainNode::identity(p, f) <==> p.effects.grain.amount.bits % 0x8000_0000 == 0,
{
}

/// In colour, vibrance and saturation are left out exactly where both are zero,
/// the mixer where no band has a nonzero channel, and the grade where no wheel
/// has saturation or luminance, whatever its hue. In black and white all three
/// are left out.
pub proof fn law_color_stages_are_left_out_only_at_zero(p: GlobalStages, f: Prepared)
    ensures
        p.treatment is Color ==> (VibranceSatNode::identity(p, f) <==> p.vibrance.bits % 0x8000_0000 == 0 && p.saturation.bits % 0x8000_0000 == 0),
        p.treatment is Color ==> (HslNode::identity(p, f) <==> forall|i: int|
            0 <= i < 8 ==> (#[trigger] p.hsl.bands@[i]).hue.bits % 0x8000_0000 == 0
                && p.hsl.bands@[i].sat.bits % 0x8000_0000 == 0
                && p.hsl.bands@[i].lum.bits % 0x8000_0000 == 0),
        p.treatment is Color ==> (ColorGradeNode::identity(p, f) <==> p.color_grade.shadows.sat.bits % 0x8000_0000 == 0 && p.color_grade.shadows.lum.bits % 0x8000_0000 == 0 && p.color_grade.midtones.sat.bits % 0x8000_0000 == 0 && p.color_grade.midtones.lum.bits % 0x8000_0000 == 0 && p.color_grade.highlights.sat.bits % 0x8000_0000 == 0 && p.color_grade.highlights.lum.bits % 0x8000_0000 == 0 && p.color_grade.global.sat.bits % 0x8000_0000 == 0 && p.color_grade.global.lum.bits % 0x8000_0000 == 0),
        !(p.treatment is Color) ==> VibranceSatNode::identity(p, f) && HslNode::identity(p, f)
            && ColorGradeNode::identity(p, f),
        BwMixNode::identity(p, f) <==> p.treatment is Color,
{
    if p.treatment is Color {
        if HslNode::identity(p, f) {
            assert forall|i: int| 0 <= i < 8 implies (#[trigger] p.hsl.bands@[i]).hue.bits
                % 0x8000_0000 == 0 && p.hsl.bands@[i].sat.bits % 0x8000_0000 == 0
                && p.hsl.bands@[i].lum.bits % 0x8000_0000 == 0 by {
                assert(crate::nodes::global::hsl::still(p.hsl.bands@[i]));
            }
        }
    }
}

/// A curve that bends, shifts or has more than its two ends is never left out:
/// what is left out is a curve with fewer than two points, or the line from
/// `(0, 0)` to `(1, 1)`, on every channel, with all four regions unmoved.
pub proof fn law_a_tone_curve_is_left_out_only_when_straight(p: GlobalStages, f: Prepared)
    ensures
        ToneCurveNode::identity(p, f) <==> {
            &&& forall|c: ToneCurve|
                c == p.tone_curve.rgb || c == p.tone_curve.r || c == p.tone_curve.g || c
                    == p.tone_curve.b ==> #[trigger] c.points@.len() < 2 || (c.points@.len() == 2
                    && c.points@[0].x.bits % 0x8000_0000 == 0 && c.points@[0].y.bits % 0x8000_0000
                    == 0 && c.points@[1].x.bits == 0x3f80_0000 && c.points@[1].y.bits
                    == 0x3f80_0000)
            &&& p.tone_curve.parametric.highlights.bits % 0x8000_0000 == 0
            &&& p.tone_curve.parametric.lights.bits % 0x8000_0000 == 0
            &&& p.tone_curve.parametric.darks.bits % 0x8000_0000 == 0
            &&& p.tone_curve.parametric.shadows.bits % 0x8000_0000 == 0
        },
{
    assert(p.tone_curve.rgb.points@.len() >= 0);
    assert(p.tone_curve.r.points@.len() >= 0);
    assert(p.tone_curve.g.points@.len() >= 0);
    assert(p.tone_curve.b.points@.len() >= 0);
}

/// A look is left out exactly where there is none or its strength is not above
/// zero: zero, or negative down to minus infinity, but not a NaN.
pub proof fn law_a_look_is_left_out_only_without_strength(p: GlobalStages, f: Prepared)
    ensures
        CreativeLutNode::identity(p, f) <==> (p.effects.creative_lut matches Some(l) ==> (
        l.amount.bits == 0 || 0x8000_0000 <= l.amount.bits <= 0xff80_0000)),
{
}

/// White balance is left out for as shot and automatic, and never for a custom
/// choice or a preset that the table has.
pub proof fn law_white_balance_is_left_out_only_unresolved(p: GlobalStages, f: Prepared, i: int)
    ensures
        p.white_balance is AsShot || p.white_balance is Auto ==> WhiteBalanceNode::identity(p, f),
        p.white_balance is Custom ==> !WhiteBalanceNode::identity(p, f),
        0 <= i < f.presets@.len() && p.white_balance == WhiteBalance::Preset(
            f.presets@[i].preset,
        ) ==> !WhiteBalanceNode::identity(p, f),
{
    if 0 <= i < f.presets@.len() && p.white_balance == WhiteBalance::Preset(f.presets@[i].preset) {
        lemma_row_found(f.presets@, i);
    }
}

proof fn lemma_row_found(table: Seq<crate::nodes::global::white_balance::PresetEntry>, i: int)
    requires
        0 <= i < table.len(),
    ensures
        crate::nodes::global::white_balance::preset_row(table, table[i].preset) is Some,
    decreases i,
{
    if i > 0 && table[0].preset != table[i].preset {
        assert(table.skip(1)[i - 1] == table[i]);
        lemma_row_found(table.skip(1), i - 1);
    }
}

/// The stages stand in the order of the pipeline.
pub proof fn law_stages_stand_in_pipeline_order(p: GlobalStages, f: Prepared, look: Option<Cube>)
    ensures
        all_stages(p, f, look).len() == 16,
        all_stages(p, f, look)[0].id == "global.wb"@,
        all_stages(p, f, look)[1].id == "global.exposure"@,
        all_stages(p, f, look)[2].id == "global.contrast"@,
        all_stages(p, f, look)[3].id == "global.tone_recovery"@,
        all_stages(p, f, look)[4].id == "global.whites_blacks"@,
        all_stages(p, f, look)[5].id == "global.tone_curve"@,
        all_stages(p, f, look)[6].id == "global.hsl"@,
        all_stages(p, f, look)[7].id == "global.vibrance_sat"@,
        all_stages(p, f, look)[8].id == "global.color_grade"@,
        all_stages(p, f, look)[9].id == "global.bw_mix"@,
        all_stages(p, f, look)[10].id == "global.clarity"@,
        all_stages(p, f, look)[11].id == "global.texture"@,
        all_stages(p, f, look)[12].id == "global.dehaze"@,
        all_stages(p, f, look)[13].id == "global.noise_reduction"@,
        all_stages(p, f, look)[14].id == "global.sharpen"@,
        all_stages(p, f, look)[15].id == "global.creative_lut"@,
{
}

/// The two segments, one after the other, are the whole pipeline: white balance,
/// then tone and colour, of which all but the last come before the look.
pub proof fn law_the_segments_make_up_the_pipeline(p: GlobalStages, f: Prepared, look: Option<Cube>)
    ensures
        all_stages(p, f, look) == seq![stage::<WhiteBalanceNode>(p, f)] + tone_color_stages(
            p,
            f,
            look,
        ),
        tone_color_stages(p, f, look).len() == 15,
        before_look_stages(p, f) == tone_color_stages(p, f, look).drop_last(),
        tone_color_stages(p, f, look).last().id == "global.creative_lut"@,
{
    assert(before_look_stages(p, f) =~= tone_color_stages(p, f, look).drop_last());
}

/// Each stage is its own node's: it is left out where that node says so and
/// takes that node's parameters.
pub proof fn law_each_stage_is_its_own_nodes(p: GlobalStages, f: Prepared, look: Option<Cube>)
    ensures
        all_stages(p, f, look)[0].identity == WhiteBalanceNode::identity(p, f),
        all_stages(p, f, look)[1].identity == ExposureNode::identity(p, f),
        all_stages(p, f, look)[2].identity == ContrastNode::identity(p, f),
        all_stages(p, f, look)[3].identity == ToneRecoveryNode::identity(p, f),
        all_stages(p, f, look)[4].identity == WhitesBlacksNode::identity(p, f),
        all_stages(p, f, look)[5].identity == ToneCurveNode::identity(p, f),
        all_stages(p, f, look)[6].identity == HslNode::identity(p, f),
        all_stages(p, f, look)[7].identity == VibranceSatNode::identity(p, f),
        all_stages(p, f, look)[8].identity == ColorGradeNode::identity(p, f),
        all_stages(p, f, look)[9].identity == BwMixNode::identity(p, f),
        all_stages(p, f, look)[10].identity == ClarityNode::identity(p, f),
        all_stages(p, f, look)[11].identity == TextureNode::identity(p, f),
        all_stages(p, f, look)[12].identity == DehazeNode::identity(p, f),
        all_stages(p, f, look)[13].identity == NoiseReductionNode::identity(p, f),
        all_stages(p, f, look)[14].identity == SharpenNode::identity(p, f),
        all_stages(p, f, look)[15].identity == CreativeLutNode::identity(p, f),
        all_stages(p, f, look)[0].block == WhiteBalanceNode::block(p, f),
        all_stages(p, f, look)[1].block == ExposureNode::block(p, f),
        all_stages(p, f, look)[2].block == ContrastNode::block(p, f),
        all_stages(p, f, look)[3].block == ToneRecoveryNode::block(p, f),
        all_stages(p, f, look)[4].block == WhitesBlacksNode::block(p, f),
        all_stages(p, f, look)[5].block == ToneCurveNode::block(p, f),
        all_stages(p, f, look)[6].block == HslNode::block(p, f),
        all_stages(p, f, look)[7].block == VibranceSatNode::block(p, f),
        all_stages(p, f, look)[8].block == ColorGradeNode::block(p, f),
        all_stages(p, f, look)[9].block == BwMixNode::block(p, f),
        all_stages(p, f, look)[10].block == ClarityNode::block(p, f),
        all_stages(p, f, look)[11].block == TextureNode::block(p, f),
        all_stages(p, f, look)[12].block == DehazeNode::block(p, f),
        all_stages(p, f, look)[13].block == NoiseReductionNode::block(p, f),
        all_stages(p, f, look)[14].block == SharpenNode::block(p, f),
        look is None ==> all_stages(p, f, look)[15].block == CreativeLutNode::block(p, f),
{
}

/// Registered into an empty registry, each develop node is found under its name
/// at the registered version and every later one, salted with its own kernel,
/// with one input and one output in the working format.
pub proof fn law_each_node_runs_its_own_kernel(
    pv: ProcessVersion,
    k: GlobalKernels,
    later: ProcessVersion,
)
    requires
        pv.0 <= later.0,
    ensures
        enrolled(Seq::empty(), global_entries(pv, k)).1,
        ({
            let reg = enrolled(Seq::empty(), global_entries(pv, k)).0;
            &&& runs(resolved(reg, "global.wb"@, later), k.wb@)
            &&& runs(resolved(reg, "global.exposure"@, later), k.exposure@)
            &&& runs(resolved(reg, "global.contrast"@, later), k.contrast@)
            &&& runs(resolved(reg, "global.tone_recovery"@, later), k.tone_recovery@)
            &&& runs(resolved(reg, "global.whites_blacks"@, later), k.whites_blacks@)
            &&& runs(resolved(reg, "global.tone_curve"@, later), k.tone_curve@)
            &&& runs(resolved(reg, "global.hsl"@, later), k.hsl@)
            &&& runs(resolved(reg, "global.vibrance_sat"@, later), k.vibrance_sat@)
            &&& runs(resolved(reg, "global.color_grade"@, later), k.color_grade@)
            &&& runs(resolved(reg, "global.bw_mix"@, later), k.bw_mix@)
            &&& runs(resolved(reg, "global.clarity"@, later), k.clarity@)
            &&& runs(resolved(reg, "global.texture"@, later), k.texture@)
            &&& runs(resolved(reg, "global.dehaze"@, later), k.dehaze@)
            &&& runs(resolved(reg, "global.noise_reduction"@, later), k.noise_reduction@)
            &&& runs(resolved(reg, "global.sharpen"@, later), k.sharpen@)
            &&& runs(resolved(reg, "global.creative_lut"@, later), k.creative_lut@)
        }),
{
    let list = global_entries(pv, k);
    assert(list[0].id == "global.wb"@);
    law_registered_nodes_serve_every_later_version(pv, k, later, 0);
    assert(list[1].id == "global.exposure"@);
    law_registered_nodes_serve_every_later_version(pv, k, later, 1);
    assert(list[2].id == "global.contrast"@);
    law_registered_nodes_serve_every_later_version(pv, k, later, 2);
    assert(list[3].id == "global.tone_recovery"@);
    law_registered_nodes_serve_every_later_version(pv, k, later, 3);
    assert(list[4].id == "global.whites_blacks"@);
    law_registered_nodes_serve_every_later_version(pv, k, later, 4);
    assert(list[5].id == "global.tone_curve"@);
    law_registered_nodes_serve_every_later_version(pv, k, later, 5);
    assert(list[6].id == "global.hsl"@);
    law_registered_nodes_serve_every_later_version(pv, k, later, 6);
    assert(list[7].id == "global.vibrance_sat"@);
    law_registered_nodes_serve_every_later_version(pv, k, later, 7);
    assert(list[8].id == "global.color_grade"@);
    law_registered_nodes_serve_every_later_version(pv, k, later, 8);
    assert(list[9].id == "global.bw_mix"@);
    law_registered_nodes_serve_every_later_version(pv, k, later, 9);
    assert(list[10].id == "global.clarity"@);
    law_registered_nodes_serve_every_later_version(pv, k, later, 10);
    assert(list[11].id == "global.texture"@);
    law_registered_nodes_serve_every_later_version(pv, k, later, 11);
    assert(list[12].id == "global.dehaze"@);
    law_registered_nodes_serve_every_later_version(pv, k, later, 12);
    assert(list[13].id == "global.noise_reduction"@);
    law_registered_nodes_serve_every_later_version(pv, k, later, 13);
    assert(list[14].id == "global.sharpen"@);
    law_registered_nodes_serve_every_later_version(pv, k, later, 14);
    assert(list[15].id == "global.creative_lut"@);
    law_registered_nodes_serve_every_later_version(pv, k, later, 15);
}

/// An entry salted with `kernel`, from the working format to the working format.
pub open spec fn runs(e: Option<Entry>, kernel: Seq<u8>) -> bool {
    e matches Some(e) && e.salt == Some(blake3_digest(kernel)) && e.inputs == seq![
        Port { name: "in"@, ty: PortType::LinearRgbaF16 },
    ] && e.output == (Port { name: "out"@, ty: PortType::LinearRgbaF16 })
}

/// How many of `nodes` are called `id`.
pub open spec fn occurrences(nodes: Seq<crate::graph::Vertex>, id: Seq<char>) -> nat
    decreases nodes.len(),
{
    if nodes.len() == 0 {
        0
    } else {
        occurrences(nodes.drop_last(), id) + if nodes.last().id == id {
            1nat
        } else {
            0nat
        }
    }
}

spec fn stages_called(stages: Seq<Stage>, id: Seq<char>) -> nat
    decreases stages.len(),
{
    if stages.len() == 0 {
        0
    } else {
        stages_called(stages.drop_last(), id) + if stages.last().id == id {
            1nat
        } else {
            0nat
        }
    }
}

proof fn lemma_same_names(nodes: Seq<crate::graph::Vertex>, stages: Seq<Stage>, id: Seq<char>)
    requires
        nodes.len() == stages.len(),
        forall|i: int| 0 <= i < nodes.len() ==> (#[trigger] nodes[i]).id == stages[i].id,
    ensures
        occurrences(nodes, id) == stages_called(stages, id),
    decreases nodes.len(),
{
    if nodes.len() > 0 {
        let rest = nodes.drop_last();
        assert forall|i: int| 0 <= i < rest.len() implies (#[trigger] rest[i]).id
            == stages.drop_last()[i].id by {
            assert(nodes[i].id == stages[i].id);
        }
        lemma_same_names(rest, stages.drop_last(), id);
        assert(nodes[nodes.len() - 1].id == stages[stages.len() - 1].id);
    }
}

proof fn lemma_not_called(stages: Seq<Stage>, id: Seq<char>)
    requires
        forall|i: int| 0 <= i < stages.len() ==> (#[trigger] stages[i]).id != id,
    ensures
        stages_called(active(stages), id) == 0,
    decreases stages.len(),
{
    if stages.len() > 0 {
        let rest = stages.drop_last();
        assert forall|i: int| 0 <= i < rest.len() implies (#[trigger] rest[i]).id != id by {
            assert(stages[i].id != id);
        }
        lemma_not_called(rest, id);
        assert(stages[stages.len() - 1].id != id);
        if !stages.last().identity {
            assert(active(stages).drop_last() =~= active(rest));
        }
    }
}

proof fn lemma_called_once(stages: Seq<Stage>, i: int)
    requires
        forall|a: int, b: int|
            0 <= a < b < stages.len() ==> (#[trigger] stages[a]).id != (#[trigger] stages[b]).id,
        0 <= i < stages.len(),
    ensures
        stages_called(active(stages), stages[i].id) == if stages[i].identity {
            0nat
        } else {
            1nat
        },
        !stages[i].identity ==> active(stages).contains(stages[i]),
    decreases stages.len(),
{
    let rest = stages.drop_last();
    let id = stages[i].id;
    assert forall|a: int, b: int| 0 <= a < b < rest.len() implies (#[trigger] rest[a]).id != (
    #[trigger] rest[b]).id by {
        assert(stages[a].id != stages[b].id);
    }
    if !stages.last().identity {
        assert(active(stages).drop_last() =~= active(rest));
        assert(active(stages)[active(rest).len() as int] == stages.last());
    }
    if i < rest.len() {
        lemma_called_once(rest, i);
        assert(rest[i] == stages[i]);
        assert(stages[i].id != stages[stages.len() - 1].id);
        if !stages[i].identity {
            let k = choose|k: int| 0 <= k < active(rest).len() && active(rest)[k] == rest[i];
            assert(active(stages)[k] == stages[i]);
        }
    } else {
        assert forall|a: int| 0 <= a < rest.len() implies (#[trigger] rest[a]).id != id by {
            assert(stages[a].id != stages[i].id);
        }
        lemma_not_called(rest, id);
    }
}

/// Each stage that a recipe uses adds its node exactly once, with its parameters;
/// one that it does not use adds none.
pub proof fn law_each_used_stage_adds_one_node(
    g: Dag,
    entries: Seq<Entry>,
    pv: ProcessVersion,
    p: GlobalStages,
    f: Prepared,
    look: Option<Cube>,
    src: int,
    i: int,
)
    requires
        chain(g, entries, pv, all_stages(p, f, look), src).1 is Ok,
        0 <= i < 16,
    ensures
        ({
            let n = g.nodes.len() as int;
            let h = chain(g, entries, pv, all_stages(p, f, look), src).0;
            let s = all_stages(p, f, look)[i];
            &&& occurrences(h.nodes.skip(n), s.id) == if s.identity {
                0nat
            } else {
                1nat
            }
            &&& !s.identity ==> exists|k: int|
                n <= k < h.nodes.len() && (#[trigger] h.nodes[k]).id == s.id && h.nodes[k].params
                    == s.block
        }),
{
    let stages = all_stages(p, f, look);
    let n = g.nodes.len() as int;
    let h = chain(g, entries, pv, stages, src).0;
    let kernels: GlobalKernels = arbitrary();
    let list = global_entries(pv, kernels);
    crate::nodes::global::laws::lemma_global_names_apart(pv, kernels);
    assert forall|a: int, b: int| 0 <= a < b < stages.len() implies (#[trigger] stages[a]).id != (
    #[trigger] stages[b]).id by {
        assert(list[a].id != list[b].id);
        assert(list[a].id == stages[a].id);
        assert(list[b].id == stages[b].id);
    }
    law_active_stages_form_a_chain(g, entries, pv, stages, src);
    let added = active(stages);
    let nodes = h.nodes.skip(n);
    assert forall|k: int| 0 <= k < nodes.len() implies (#[trigger] nodes[k]).id == added[k].id by {
        assert(nodes[k] == h.nodes[n + k]);
    }
    lemma_same_names(nodes, added, stages[i].id);
    lemma_called_once(stages, i);
    if !stages[i].identity {
        let k = choose|k: int| 0 <= k < added.len() && added[k] == stages[i];
        assert(h.nodes[n + k].id == stages[i].id);
    }
}

/// Any exposure but zero, a negative one too, puts exactly one exposure node into
/// the chain, with that many stops; zero puts none.
pub proof fn law_an_exposure_adds_one_node_with_its_stops(
    g: Dag,
    entries: Seq<Entry>,
    pv: ProcessVersion,
    p: GlobalStages,
    f: Prepared,
    look: Option<Cube>,
    src: int,
)
    requires
        chain(g, entries, pv, all_stages(p, f, look), src).1 is Ok,
    ensures
        ({
            let n = g.nodes.len() as int;
            let h = chain(g, entries, pv, all_stages(p, f, look), src).0;
            &&& occurrences(h.nodes.skip(n), "global.exposure"@) == if p.exposure.bits
                % 0x8000_0000 == 0 {
                0nat
            } else {
                1nat
            }
            &&& p.exposure.bits % 0x8000_0000 != 0 ==> exists|k: int|
                n <= k < h.nodes.len() && (#[trigger] h.nodes[k]).id == "global.exposure"@
                    && lookup_float(h.nodes[k].params, "ev"@) == Some(p.exposure.as_double())
        }),
{
    law_each_used_stage_adds_one_node(g, entries, pv, p, f, look, src, 1);
    crate::nodes::global::exposure::law_exposure_params_round_trip(p, f);
}

/// How far around a pixel each node reads: the pointwise ones not at all, the
/// others as far as their filters reach.
pub proof fn law_aprons_are_as_wide_as_the_filters()
    ensures
        WhiteBalanceNode::apron() == 0 && ExposureNode::apron() == 0 && ContrastNode::apron() == 0
            && WhitesBlacksNode::apron() == 0 && ToneCurveNode::apron() == 0 && HslNode::apron()
            == 0 && VibranceSatNode::apron() == 0 && ColorGradeNode::apron() == 0
            && BwMixNode::apron() == 0 && CreativeLutNode::apron() == 0 && VignetteNode::apron()
            == 0 && GrainNode::apron() == 0,
        ToneRecoveryNode::apron() == 16,
        ClarityNode::apron() == 24,
        TextureNode::apron() == 6,
        DehazeNode::apron() == 23,
        NoiseReductionNode::apron() == 5,
        SharpenNode::apron() == 11,
{
}

/// A node declares the parameters that it takes and no others.
pub proof fn law_schemas_hold_nothing_else(p: GlobalStages, f: Prepared)
    ensures
        WhiteBalanceNode::schema().len() == 9 && WhiteBalanceNode::block(p, f).len() == 9,
        ExposureNode::schema().len() == 1 && ExposureNode::block(p, f).len() == 1,
        ContrastNode::schema().len() == 1 && ContrastNode::block(p, f).len() == 1,
        ToneRecoveryNode::schema().len() == 2 && ToneRecoveryNode::block(p, f).len() == 2,
        WhitesBlacksNode::schema().len() == 2 && WhitesBlacksNode::block(p, f).len() == 2,
        ToneCurveNode::schema().len() == 11 && ToneCurveNode::block(p, f).len() == 11,
        HslNode::schema().len() == 24 && HslNode::block(p, f).len() == 24,
        VibranceSatNode::schema().len() == 2 && VibranceSatNode::block(p, f).len() == 2,
        ColorGradeNode::schema().len() == 14 && ColorGradeNode::block(p, f).len() == 14,
        BwMixNode::schema().len() == 8 && BwMixNode::block(p, f).len() == 8,
        ClarityNode::schema().len() == 1 && ClarityNode::block(p, f).len() == 1,
        TextureNode::schema().len() == 1 && TextureNode::block(p, f).len() == 1,
        DehazeNode::schema().len() == 1 && DehazeNode::block(p, f).len() == 1,
        NoiseReductionNode::schema().len() == 4 && NoiseReductionNode::block(p, f).len() == 4,
        SharpenNode::schema().len() == 4 && SharpenNode::block(p, f).len() == 4,
        VignetteNode::schema().len() == 7 && VignetteNode::block(p, f).len() == 7,
        GrainNode::schema().len() == 3 && GrainNode::block(p, f).len() == 3,
        CreativeLutNode::schema().len() == 10,
        VignetteNode::name() == "fx.vignette"@,
        GrainNode::name() == "fx.grain"@,
{
}

/// Registering stops at the first clash: what was registered before stays, what
/// went in before the clash stays too, and it succeeds only where all went in.
pub proof fn law_registering_keeps_what_was_there(before: Seq<Entry>, more: Seq<Entry>)
    ensures
        ({
            let (after, ok) = enrolled(before, more);
            &&& after.len() >= before.len()
            &&& after.take(before.len() as int) == before
            &&& ok ==> after == before + more
            &&& !ok ==> after.len() < before.len() + more.len()
        }),
        more.len() > 0 && clashes(before, more[0]) ==> enrolled(before, more) == (before, false),
    decreases more.len(),
{
    let (after, ok) = enrolled(before, more);
    if more.len() > 0 {
        let rest = more.drop_last();
        law_registering_keeps_what_was_there(before, rest);
        assert(rest.push(more.last()) =~= more);
        let (mid, good) = enrolled(before, rest);
        if ok {
            assert(after =~= before + more);
        }
        assert(after.take(before.len() as int) =~= mid.take(before.len() as int));
        if rest.len() == 0 {
            assert(rest =~= Seq::empty());
            assert(enrolled(before, rest) == (before, true));
        } else {
            assert(rest[0] == more[0]);
        }
    } else {
        assert(after =~= before + more);
        assert(after.take(before.len() as int) =~= before);
    }
}

/// A parameter feeds one stage, and only the crop feeds none; the treatment feeds
/// the monochrome mix.
pub proof fn law_a_parameter_feeds_one_stage(id: ParamId)
    ensures
        invalidated(id).len() <= 1,
        invalidated(id).len() == 0 <==> id is Crop,
        id is Treatment ==> invalidated(id)[0] == "global.bw_mix"@,
{
}

} // verus!
