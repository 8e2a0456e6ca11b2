//! Which nodes a recipe change touches.

use vstd::prelude::*;

use crate::edit::GlobalStages;
use crate::edit::ParamId;
use crate::nodes::global::bw_mix::BwMixNode;
use crate::nodes::global::clarity::ClarityNode;
use crate::nodes::global::color_grade::ColorGradeNode;
use crate::nodes::global::contrast::ContrastNode;
use crate::nodes::global::creative_lut::CreativeLutNode;
use crate::nodes::global::creative_lut::Cube;
use crate::nodes::global::dehaze::DehazeNode;
use crate::nodes::global::exposure::ExposureNode;
use crate::nodes::global::hsl::HslNode;
use crate::nodes::global::node::GlobalNode;
use crate::nodes::global::node::Prepared;
use crate::nodes::global::noise_reduction::NoiseReductionNode;
use crate::nodes::global::segment::stage;
use crate::nodes::global::segment::tone_color_stages;
use crate::nodes::global::segment::Stage;
use crate::nodes::global::sharpen::SharpenNode;
use crate::nodes::global::texture::TextureNode;
use crate::nodes::global::tone_curve::ToneCurveNode;
use crate::nodes::global::tone_recovery::ToneRecoveryNode;
use crate::nodes::global::vibrance_sat::VibranceSatNode;
use crate::nodes::global::white_balance::WhiteBalanceNode;
use crate::nodes::global::whites_blacks::WhitesBlacksNode;
use crate::types::NodeId;

verus! {

/// The nodes whose output a parameter directly feeds, by name.
pub open spec fn invalidated(id: ParamId) -> Seq<Seq<char>> {
    match id {
        ParamId::WhiteBalance => seq![WhiteBalanceNode::name()],
        ParamId::Exposure => seq![ExposureNode::name()],
        ParamId::Contrast => seq![ContrastNode::name()],
        ParamId::Highlights => seq![ToneRecoveryNode::name()],
        ParamId::Shadows => seq![ToneRecoveryNode::name()],
        ParamId::Whites => seq![WhitesBlacksNode::name()],
        ParamId::Blacks => seq![WhitesBlacksNode::name()],
        ParamId::ToneCurve => seq![ToneCurveNode::name()],
        ParamId::Hsl => seq![HslNode::name()],
        ParamId::Vibrance => seq![VibranceSatNode::name()],
        ParamId::Saturation => seq![VibranceSatNode::name()],
        ParamId::ColorGrade => seq![ColorGradeNode::name()],
        ParamId::BwMix => seq![BwMixNode::name()],
        ParamId::Treatment => seq![BwMixNode::name()],
        ParamId::Clarity => seq![ClarityNode::name()],
        ParamId::Texture => seq![TextureNode::name()],
        ParamId::Dehaze => seq![DehazeNode::name()],
        ParamId::Sharpen => seq![SharpenNode::name()],
        ParamId::NoiseReduction => seq![NoiseReductionNode::name()],
        ParamId::CreativeLut => seq![CreativeLutNode::name()],
        ParamId::Crop => Seq::empty(),
    }
}

/// The names of a list of nodes.
pub open spec fn names(v: Seq<NodeId>) -> Seq<Seq<char>> {
    Seq::new(v.len(), |i: int| v[i]@)
}

/// The node a parameter feeds, if it feeds one of the develop nodes.
fn fed_node(id: ParamId) -> (r: Option<NodeId>)
    ensures
        match r {
            Some(n) => invalidated(id) == seq![n@],
            None => invalidated(id) == Seq::<Seq<char>>::empty(),
        },
{
    match id {
        ParamId::WhiteBalance => Some(WhiteBalanceNode::id()),
        ParamId::Exposure => Some(ExposureNode::id()),
        ParamId::Contrast => Some(ContrastNode::id()),
        ParamId::Highlights => Some(ToneRecoveryNode::id()),
        ParamId::Shadows => Some(ToneRecoveryNode::id()),
        ParamId::Whites => Some(WhitesBlacksNode::id()),
        ParamId::Blacks => Some(WhitesBlacksNode::id()),
        ParamId::ToneCurve => Some(ToneCurveNode::id()),
        ParamId::Hsl => Some(HslNode::id()),
        ParamId::Vibrance => Some(VibranceSatNode::id()),
        ParamId::Saturation => Some(VibranceSatNode::id()),
        ParamId::ColorGrade => Some(ColorGradeNode::id()),
        ParamId::BwMix => Some(BwMixNode::id()),
        ParamId::Treatment => Some(BwMixNode::id()),
        ParamId::Clarity => Some(ClarityNode::id()),
        ParamId::Texture => Some(TextureNode::id()),
        ParamId::Dehaze => Some(DehazeNode::id()),
        ParamId::Sharpen => Some(SharpenNode::id()),
        ParamId::NoiseReduction => Some(NoiseReductionNode::id()),
        ParamId::CreativeLut => Some(CreativeLutNode::id()),
        ParamId::Crop => None,
    }
}

/// Which develop nodes a parameter change touches: only those whose output the
/// parameter directly feeds, never anything upstream.
pub fn invalidates(id: ParamId) -> (r: Vec<NodeId>)
    ensures
        names(r@) == invalidated(id),
{
    let mut r: Vec<NodeId> = Vec::new();
    if let Some(n) = fed_node(id) {
        r.push(n);
    }
    assert(names(r@) =~= invalidated(id));
    r
}

/// Two recipes that differ at most in one parameter.
pub open spec fn differ_only_in(p: GlobalStages, q: GlobalStages, id: ParamId) -> bool {
    &&& id is WhiteBalance || p.white_balance == q.white_balance
    &&& id is Treatment || p.treatment == q.treatment
    &&& id is Exposure || p.exposure == q.exposure
    &&& id is Contrast || p.contrast == q.contrast
    &&& id is Highlights || p.highlights == q.highlights
    &&& id is Shadows || p.shadows == q.shadows
    &&& id is Whites || p.whites == q.whites
    &&& id is Blacks || p.blacks == q.blacks
    &&& id is ToneCurve || p.tone_curve == q.tone_curve
    &&& id is Hsl || p.hsl == q.hsl
    &&& id is Vibrance || p.vibrance == q.vibrance
    &&& id is Saturation || p.saturation == q.saturation
    &&& id is ColorGrade || p.color_grade == q.color_grade
    &&& id is BwMix || p.bw == q.bw
    &&& id is Clarity || p.presence.clarity == q.presence.clarity
    &&& id is Texture || p.presence.texture == q.presence.texture
    &&& id is Dehaze || p.presence.dehaze == q.presence.dehaze
    &&& id is Sharpen || p.detail.sharpen == q.detail.sharpen
    &&& id is NoiseReduction || p.detail.nr == q.detail.nr
    &&& id is CreativeLut || p.effects.creative_lut == q.effects.creative_lut
    &&& p.effects.postcrop_vignette == q.effects.postcrop_vignette
    &&& p.effects.grain == q.effects.grain
}

/// What was prepared for two such recipes, from one preset table.
pub open spec fn prepared_alike(f: Prepared, g: Prepared, id: ParamId) -> bool {
    &&& f.presets == g.presets
    &&& id is WhiteBalance || f.wb_matrix == g.wb_matrix
    &&& id is ToneCurve || f.curves == g.curves
    &&& id is CreativeLut || (f.look_fraction == g.look_fraction && f.look_fraction_single
        == g.look_fraction_single)
}

/// The whole develop chain: white balance, then tone and colour.
pub open spec fn all_stages(p: GlobalStages, f: Prepared, look: Option<Cube>) -> Seq<Stage> {
    seq![stage::<WhiteBalanceNode>(p, f)] + tone_color_stages(p, f, look)
}

proof fn lemma_wb_untouched(
    p: GlobalStages,
    f: Prepared,
    q: GlobalStages,
    g: Prepared,
    id: ParamId,
)
    requires
        !(id is Treatment),
        !(id is WhiteBalance),
        differ_only_in(p, q, id),
        prepared_alike(f, g, id),
    ensures
        stage::<WhiteBalanceNode>(p, f) == stage::<WhiteBalanceNode>(q, g),
{
    assert(WhiteBalanceNode::block(p, f) =~= WhiteBalanceNode::block(q, g));
}

proof fn lemma_exposure_untouched(
    p: GlobalStages,
    f: Prepared,
    q: GlobalStages,
    g: Prepared,
    id: ParamId,
)
    requires
        !(id is Treatment),
        !(id is Exposure),
        differ_only_in(p, q, id),
        prepared_alike(f, g, id),
    ensures
        stage::<ExposureNode>(p, f) == stage::<ExposureNode>(q, g),
{
    assert(ExposureNode::block(p, f) =~= ExposureNode::block(q, g));
}

proof fn lemma_contrast_untouched(
    p: GlobalStages,
    f: Prepared,
    q: GlobalStages,
    g: Prepared,
    id: ParamId,
)
    requires
        !(id is Treatment),
        !(id is Contrast),
        differ_only_in(p, q, id),
        prepared_alike(f, g, id),
    ensures
        stage::<ContrastNode>(p, f) == stage::<ContrastNode>(q, g),
{
    assert(ContrastNode::block(p, f) =~= ContrastNode::block(q, g));
}

proof fn lemma_tone_recovery_untouched(
    p: GlobalStages,
    f: Prepared,
    q: GlobalStages,
    g: Prepared,
    id: ParamId,
)
    requires
        !(id is Treatment),
        !(id is Highlights) && !(id is Shadows),
        differ_only_in(p, q, id),
        prepared_alike(f, g, id),
    ensures
        stage::<ToneRecoveryNode>(p, f) == stage::<ToneRecoveryNode>(q, g),
{
    assert(ToneRecoveryNode::block(p, f) =~= ToneRecoveryNode::block(q, g));
}

proof fn lemma_whites_blacks_untouched(
    p: GlobalStages,
    f: Prepared,
    q: GlobalStages,
    g: Prepared,
    id: ParamId,
)
    requires
        !(id is Treatment),
        !(id is Whites) && !(id is Blacks),
        differ_only_in(p, q, id),
        prepared_alike(f, g, id),
    ensures
        stage::<WhitesBlacksNode>(p, f) == stage::<WhitesBlacksNode>(q, g),
{
    assert(WhitesBlacksNode::block(p, f) =~= WhitesBlacksNode::block(q, g));
}

proof fn lemma_tone_curve_untouched(
    p: GlobalStages,
    f: Prepared,
    q: GlobalStages,
    g: Prepared,
    id: ParamId,
)
    requires
        !(id is Treatment),
        !(id is ToneCurve),
        differ_only_in(p, q, id),
        prepared_alike(f, g, id),
    ensures
        stage::<ToneCurveNode>(p, f) == stage::<ToneCurveNode>(q, g),
{
    assert(ToneCurveNode::block(p, f) =~= ToneCurveNode::block(q, g));
}

proof fn lemma_hsl_untouched(
    p: GlobalStages,
    f: Prepared,
    q: GlobalStages,
    g: Prepared,
    id: ParamId,
)
    requires
        !(id is Treatment),
        !(id is Hsl),
        differ_only_in(p, q, id),
        prepared_alike(f, g, id),
    ensures
        stage::<HslNode>(p, f) == stage::<HslNode>(q, g),
{
    assert(HslNode::block(p, f) =~= HslNode::block(q, g));
}

proof fn lemma_vibrance_sat_untouched(
    p: GlobalStages,
    f: Prepared,
    q: GlobalStages,
    g: Prepared,
    id: ParamId,
)
    requires
        !(id is Treatment),
        !(id is Vibrance) && !(id is Saturation),
        differ_only_in(p, q, id),
        prepared_alike(f, g, id),
    ensures
        stage::<VibranceSatNode>(p, f) == stage::<VibranceSatNode>(q, g),
{
    assert(VibranceSatNode::block(p, f) =~= VibranceSatNode::block(q, g));
}

proof fn lemma_color_grade_untouched(
    p: GlobalStages,
    f: Prepared,
    q: GlobalStages,
    g: Prepared,
    id: ParamId,
)
    requires
        !(id is Treatment),
        !(id is ColorGrade),
        differ_only_in(p, q, id),
        prepared_alike(f, g, id),
    ensures
        stage::<ColorGradeNode>(p, f) == stage::<ColorGradeNode>(q, g),
{
    assert(ColorGradeNode::block(p, f) =~= ColorGradeNode::block(q, g));
}

proof fn lemma_bw_mix_untouched(
    p: GlobalStages,
    f: Prepared,
    q: GlobalStages,
    g: Prepared,
    id: ParamId,
)
    requires
        !(id is Treatment),
        !(id is BwMix),
        differ_only_in(p, q, id),
        prepared_alike(f, g, id),
    ensures
        stage::<BwMixNode>(p, f) == stage::<BwMixNode>(q, g),
{
    assert(BwMixNode::block(p, f) =~= BwMixNode::block(q, g));
}

proof fn lemma_clarity_untouched(
    p: GlobalStages,
    f: Prepared,
    q: GlobalStages,
    g: Prepared,
    id: ParamId,
)
    requires
        !(id is Treatment),
        !(id is Clarity),
        differ_only_in(p, q, id),
        prepared_alike(f, g, id),
    ensures
        stage::<ClarityNode>(p, f) == stage::<ClarityNode>(q, g),
{
    assert(ClarityNode::block(p, f) =~= ClarityNode::block(q, g));
}

proof fn lemma_texture_untouched(
    p: GlobalStages,
    f: Prepared,
    q: GlobalStages,
    g: Prepared,
    id: ParamId,
)
    requires
        !(id is Treatment),
        !(id is Texture),
        differ_only_in(p, q, id),
        prepared_alike(f, g, id),
    ensures
        stage::<TextureNode>(p, f) == stage::<TextureNode>(q, g),
{
    assert(TextureNode::block(p, f) =~= TextureNode::block(q, g));
}

proof fn lemma_dehaze_untouched(
    p: GlobalStages,
    f: Prepared,
    q: GlobalStages,
    g: Prepared,
    id: ParamId,
)
    requires
        !(id is Treatment),
        !(id is Dehaze),
        differ_only_in(p, q, id),
        prepared_alike(f, g, id),
    ensures
        stage::<DehazeNode>(p, f) == stage::<DehazeNode>(q, g),
{
    assert(DehazeNode::block(p, f) =~= DehazeNode::block(q, g));
}

proof fn lemma_noise_reduction_untouched(
    p: GlobalStages,
    f: Prepared,
    q: GlobalStages,
    g: Prepared,
    id: ParamId,
)
    requires
        !(id is Treatment),
        !(id is NoiseReduction),
        differ_only_in(p, q, id),
        prepared_alike(f, g, id),
    ensures
        stage::<NoiseReductionNode>(p, f) == stage::<NoiseReductionNode>(q, g),
{
    assert(NoiseReductionNode::block(p, f) =~= NoiseReductionNode::block(q, g));
}

proof fn lemma_sharpen_untouched(
    p: GlobalStages,
    f: Prepared,
    q: GlobalStages,
    g: Prepared,
    id: ParamId,
)
    requires
        !(id is Treatment),
        !(id is Sharpen),
        differ_only_in(p, q, id),
        prepared_alike(f, g, id),
    ensures
        stage::<SharpenNode>(p, f) == stage::<SharpenNode>(q, g),
{
    assert(SharpenNode::block(p, f) =~= SharpenNode::block(q, g));
}

/// A parameter change leaves every stage alone but those it is said to touch.
/// The treatment is the exception: it also switches the colour stages on and
/// off.
pub proof fn law_other_stages_are_untouched(
    p: GlobalStages,
    f: Prepared,
    l: Option<Cube>,
    q: GlobalStages,
    g: Prepared,
    m: Option<Cube>,
    id: ParamId,
    i: int,
)
    requires
        !(id is Treatment),
        differ_only_in(p, q, id),
        prepared_alike(f, g, id),
        id is CreativeLut || l == m,
        0 <= i < all_stages(p, f, l).len(),
        !invalidated(id).contains(all_stages(p, f, l)[i].id),
    ensures
        all_stages(q, g, m)[i] == all_stages(p, f, l)[i],
{
    let named = invalidated(id);
    if named.len() > 0 {
        assert(named.contains(named[0]));
    }
    if i == 0 {
        lemma_wb_untouched(p, f, q, g, id);
    } else if i == 1 {
        lemma_exposure_untouched(p, f, q, g, id);
    } else if i == 2 {
        lemma_contrast_untouched(p, f, q, g, id);
    } else if i == 3 {
        lemma_tone_recovery_untouched(p, f, q, g, id);
    } else if i == 4 {
        lemma_whites_blacks_untouched(p, f, q, g, id);
    } else if i == 5 {
        lemma_tone_curve_untouched(p, f, q, g, id);
    } else if i == 6 {
        lemma_hsl_untouched(p, f, q, g, id);
    } else if i == 7 {
        lemma_vibrance_sat_untouched(p, f, q, g, id);
    } else if i == 8 {
        lemma_color_grade_untouched(p, f, q, g, id);
    } else if i == 9 {
        lemma_bw_mix_untouched(p, f, q, g, id);
    } else if i == 10 {
        lemma_clarity_untouched(p, f, q, g, id);
    } else if i == 11 {
        lemma_texture_untouched(p, f, q, g, id);
    } else if i == 12 {
        lemma_dehaze_untouched(p, f, q, g, id);
    } else if i == 13 {
        lemma_noise_reduction_untouched(p, f, q, g, id);
    } else if i == 14 {
        lemma_sharpen_untouched(p, f, q, g, id);
    }
}

/// Switching the treatment touches the monochrome mix and the three colour
/// stages, and no other.
pub proof fn law_treatment_touches_only_color_stages(
    p: GlobalStages,
    q: GlobalStages,
    f: Prepared,
    look: Option<Cube>,
    i: int,
)
    requires
        differ_only_in(p, q, ParamId::Treatment),
        0 <= i < all_stages(p, f, look).len(),
        all_stages(p, f, look)[i].id != HslNode::name(),
        all_stages(p, f, look)[i].id != VibranceSatNode::name(),
        all_stages(p, f, look)[i].id != ColorGradeNode::name(),
        all_stages(p, f, look)[i].id != BwMixNode::name(),
    ensures
        all_stages(q, f, look)[i] == all_stages(p, f, look)[i],
{
}

} // verus!
