//! The develop recipe: what a photographer set, as bit patterns.

use vstd::prelude::*;

use crate::ieee::Single;
use crate::ieee::FIFTY;
use crate::ieee::HALF;
use crate::ieee::ONE;
use crate::ieee::QUARTER;
use crate::ieee::THREE_QUARTERS;

verus! {

/// A named white-balance illuminant.
#[derive(Clone, Copy, Debug, PartialEq, Eq, Structural)]
#[non_exhaustive]
pub enum WbPreset {
    /// Direct sun.
    Daylight,
    /// Overcast sky.
    Cloudy,
    /// Open shade.
    Shade,
    /// Incandescent light.
    Tungsten,
    /// Fluorescent light.
    Fluorescent,
    /// Electronic flash.
    Flash,
}

/// The white-balance choice.
#[derive(Clone, Copy, Debug, PartialEq, Eq, Structural)]
#[non_exhaustive]
pub enum WhiteBalance {
    /// As the camera shot it.
    AsShot,
    /// Solved from the picture; no solve exists yet.
    Auto,
    /// A named illuminant.
    Preset(WbPreset),
    /// An explicit temperature (kelvin) and tint.
    Custom {
        /// Temperature in kelvin.
        temp_k: Single,
        /// Green-magenta tint.
        tint: Single,
    },
}

/// Colour or monochrome.
#[derive(Clone, Copy, Debug, PartialEq, Eq, Structural)]
pub enum Treatment {
    /// Full colour.
    Color,
    /// Monochrome.
    BlackAndWhite,
}

/// One control point of a tone curve.
#[derive(Clone, Copy, Debug, PartialEq, Eq, Structural)]
pub struct CurvePoint {
    /// Input, `0` to `1`.
    pub x: Single,
    /// Output, `0` to `1`.
    pub y: Single,
}

/// A point tone curve.
#[derive(Clone, Debug, PartialEq, Eq)]
pub struct ToneCurve {
    /// Control points, by rising input.
    pub points: Vec<CurvePoint>,
}

/// The parametric tone curve: four region sliders and three splits.
#[derive(Clone, Copy, Debug, PartialEq, Eq)]
pub struct ParametricCurve {
    /// Highlight region.
    pub highlights: Single,
    /// Light region.
    pub lights: Single,
    /// Dark region.
    pub darks: Single,
    /// Shadow region.
    pub shadows: Single,
    /// Region boundaries.
    pub splits: [Single; 3],
}

/// The point curves and the parametric curve.
#[derive(Clone, Debug, PartialEq, Eq)]
pub struct ToneCurveSet {
    /// Composite curve.
    pub rgb: ToneCurve,
    /// Red curve.
    pub r: ToneCurve,
    /// Green curve.
    pub g: ToneCurve,
    /// Blue curve.
    pub b: ToneCurve,
    /// Parametric curve.
    pub parametric: ParametricCurve,
}

/// One hue band of the HSL mixer.
#[derive(Clone, Copy, Debug, PartialEq, Eq, Structural)]
pub struct HslBand {
    /// Hue shift.
    pub hue: Single,
    /// Saturation.
    pub sat: Single,
    /// Luminance.
    pub lum: Single,
}

/// The 8-band HSL mixer.
#[derive(Clone, Copy, Debug, PartialEq, Eq)]
pub struct Hsl {
    /// The bands, red to magenta.
    pub bands: [HslBand; 8],
}

/// One colour-grading wheel.
#[derive(Clone, Copy, Debug, PartialEq, Eq, Structural)]
pub struct GradeWheel {
    /// Hue, degrees.
    pub hue: Single,
    /// Saturation.
    pub sat: Single,
    /// Luminance.
    pub lum: Single,
}

/// Colour grading.
#[derive(Clone, Copy, Debug, PartialEq, Eq, Structural)]
pub struct ColorGrade {
    /// Shadow wheel.
    pub shadows: GradeWheel,
    /// Midtone wheel.
    pub midtones: GradeWheel,
    /// Highlight wheel.
    pub highlights: GradeWheel,
    /// Global wheel.
    pub global: GradeWheel,
    /// Zone blending.
    pub blend: Single,
    /// Zone balance.
    pub balance: Single,
}

/// The monochrome mix.
#[derive(Clone, Copy, Debug, PartialEq, Eq)]
pub struct BwMix {
    /// One weight for each hue band.
    pub weights: [Single; 8],
}

/// Local-contrast sliders.
#[derive(Clone, Copy, Debug, PartialEq, Eq, Structural)]
pub struct Presence {
    /// Clarity.
    pub clarity: Single,
    /// Texture.
    pub texture: Single,
    /// Dehaze.
    pub dehaze: Single,
}

/// Sharpening.
#[derive(Clone, Copy, Debug, PartialEq, Eq, Structural)]
pub struct Sharpen {
    /// Strength.
    pub amount: Single,
    /// Gaussian sigma, pixels.
    pub radius: Single,
    /// Halo suppression.
    pub detail: Single,
    /// Edge masking.
    pub masking: Single,
}

/// Noise reduction.
#[derive(Clone, Copy, Debug, PartialEq, Eq, Structural)]
pub struct NoiseReduction {
    /// Luminance strength.
    pub luma: Single,
    /// Luminance detail.
    pub luma_detail: Single,
    /// Chroma strength.
    pub chroma: Single,
    /// Chroma detail.
    pub chroma_detail: Single,
}

/// The detail panel.
#[derive(Clone, Copy, Debug, PartialEq, Eq, Structural)]
pub struct Detail {
    /// Sharpening.
    pub sharpen: Sharpen,
    /// Noise reduction.
    pub nr: NoiseReduction,
}

/// The post-crop vignette.
#[derive(Clone, Copy, Debug, PartialEq, Eq, Structural)]
pub struct PostCropVignette {
    /// Strength; negative darkens.
    pub amount: Single,
    /// Radius of half strength.
    pub midpoint: Single,
    /// Ellipse or circle.
    pub roundness: Single,
    /// Edge softness.
    pub feather: Single,
    /// Highlight protection.
    pub highlights: Single,
}

/// Film grain.
#[derive(Clone, Copy, Debug, PartialEq, Eq, Structural)]
pub struct Grain {
    /// Strength.
    pub amount: Single,
    /// Grain size.
    pub size: Single,
    /// Unevenness.
    pub roughness: Single,
}

/// A creative look, by its content hash.
#[derive(Clone, Debug, PartialEq, Eq)]
pub struct CreativeLut {
    /// Content hash of the installed look.
    pub id: String,
    /// Strength in percent.
    pub amount: Single,
}

/// Effects.
#[derive(Clone, Debug, PartialEq, Eq)]
pub struct Effects {
    /// Vignette.
    pub postcrop_vignette: PostCropVignette,
    /// Grain.
    pub grain: Grain,
    /// Creative look.
    pub creative_lut: Option<CreativeLut>,
}

/// The global develop stages of a recipe.
#[derive(Clone, Debug, PartialEq, Eq)]
pub struct GlobalStages {
    /// White balance.
    pub white_balance: WhiteBalance,
    /// Colour or monochrome.
    pub treatment: Treatment,
    /// Exposure, stops.
    pub exposure: Single,
    /// Contrast.
    pub contrast: Single,
    /// Highlight recovery.
    pub highlights: Single,
    /// Shadow recovery.
    pub shadows: Single,
    /// White endpoint.
    pub whites: Single,
    /// Black endpoint.
    pub blacks: Single,
    /// Tone curves.
    pub tone_curve: ToneCurveSet,
    /// HSL mixer.
    pub hsl: Hsl,
    /// Vibrance.
    pub vibrance: Single,
    /// Saturation.
    pub saturation: Single,
    /// Colour grading.
    pub color_grade: ColorGrade,
    /// Monochrome mix.
    pub bw: BwMix,
    /// Presence.
    pub presence: Presence,
    /// Detail.
    pub detail: Detail,
    /// Effects.
    pub effects: Effects,
}

/// A parameter of a recipe.
#[derive(Clone, Copy, Debug, PartialEq, Eq, Structural)]
#[non_exhaustive]
pub enum ParamId {
    /// White balance.
    WhiteBalance,
    /// Colour or monochrome.
    Treatment,
    /// Exposure.
    Exposure,
    /// Contrast.
    Contrast,
    /// Highlight recovery.
    Highlights,
    /// Shadow recovery.
    Shadows,
    /// White endpoint.
    Whites,
    /// Black endpoint.
    Blacks,
    /// Tone curves.
    ToneCurve,
    /// HSL mixer.
    Hsl,
    /// Vibrance.
    Vibrance,
    /// Saturation.
    Saturation,
    /// Colour grading.
    ColorGrade,
    /// Monochrome mix.
    BwMix,
    /// Clarity.
    Clarity,
    /// Texture.
    Texture,
    /// Dehaze.
    Dehaze,
    /// Sharpening.
    Sharpen,
    /// Noise reduction.
    NoiseReduction,
    /// Creative look.
    CreativeLut,
    /// Crop.
    Crop,
}

/// The point `(0, 0)`.
pub open spec fn origin() -> CurvePoint {
    CurvePoint { x: Single { bits: 0 }, y: Single { bits: 0 } }
}

/// The point `(1, 1)`.
pub open spec fn corner() -> CurvePoint {
    CurvePoint { x: Single { bits: ONE }, y: Single { bits: ONE } }
}

/// The neutral parametric curve: no region moved, splits at the quarters.
pub open spec fn neutral_parametric(c: ParametricCurve) -> bool {
    &&& c.highlights.bits == 0 && c.lights.bits == 0 && c.darks.bits == 0 && c.shadows.bits == 0
    &&& c.splits@ =~= seq![
        Single { bits: QUARTER },
        Single { bits: HALF },
        Single { bits: THREE_QUARTERS },
    ]
}

/// The neutral wheel.
pub open spec fn neutral_wheel() -> GradeWheel {
    GradeWheel { hue: Single { bits: 0 }, sat: Single { bits: 0 }, lum: Single { bits: 0 } }
}

/// The recipe that changes nothing.
pub open spec fn neutral(g: GlobalStages) -> bool {
    let zero = Single { bits: 0 };
    &&& g.white_balance is AsShot
    &&& g.treatment is Color
    &&& g.exposure == zero && g.contrast == zero && g.highlights == zero && g.shadows == zero
    &&& g.whites == zero && g.blacks == zero && g.vibrance == zero && g.saturation == zero
    &&& g.tone_curve.rgb.points@ == seq![origin(), corner()]
    &&& g.tone_curve.r.points@ == seq![origin(), corner()]
    &&& g.tone_curve.g.points@ == seq![origin(), corner()]
    &&& g.tone_curve.b.points@ == seq![origin(), corner()]
    &&& neutral_parametric(g.tone_curve.parametric)
    &&& forall|i: int|
        0 <= i < 8 ==> #[trigger] g.hsl.bands@[i] == (HslBand { hue: zero, sat: zero, lum: zero })
    &&& g.color_grade == (ColorGrade {
        shadows: neutral_wheel(),
        midtones: neutral_wheel(),
        highlights: neutral_wheel(),
        global: neutral_wheel(),
        blend: zero,
        balance: zero,
    })
    &&& forall|i: int| 0 <= i < 8 ==> #[trigger] g.bw.weights@[i] == zero
    &&& g.presence == (Presence { clarity: zero, texture: zero, dehaze: zero })
    &&& g.detail.sharpen == (Sharpen {
        amount: zero,
        radius: Single { bits: ONE },
        detail: zero,
        masking: zero,
    })
    &&& g.detail.nr == (NoiseReduction {
        luma: zero,
        luma_detail: zero,
        chroma: zero,
        chroma_detail: zero,
    })
    &&& g.effects.postcrop_vignette == (PostCropVignette {
        amount: zero,
        midpoint: Single { bits: FIFTY },
        roundness: zero,
        feather: Single { bits: FIFTY },
        highlights: zero,
    })
    &&& g.effects.grain == (Grain { amount: zero, size: zero, roughness: zero })
    &&& g.effects.creative_lut is None
}

fn zero() -> (r: Single)
    ensures
        r == (Single { bits: 0 }),
{
    Single { bits: 0 }
}

fn default_wheel() -> (r: GradeWheel)
    ensures
        r == neutral_wheel(),
{
    GradeWheel { hue: zero(), sat: zero(), lum: zero() }
}

impl Default for ToneCurve {
    /// The straight line from black to white.
    fn default() -> (r: ToneCurve)
        ensures
            r.points@ == seq![origin(), corner()],
    {
        let mut points: Vec<CurvePoint> = Vec::new();
        points.push(CurvePoint { x: zero(), y: zero() });
        points.push(CurvePoint { x: Single { bits: ONE }, y: Single { bits: ONE } });
        assert(points@ =~= seq![origin(), corner()]);
        ToneCurve { points }
    }
}

impl Default for ParametricCurve {
    fn default() -> (r: ParametricCurve)
        ensures
            neutral_parametric(r),
    {
        ParametricCurve {
            highlights: zero(),
            lights: zero(),
            darks: zero(),
            shadows: zero(),
            splits: [
                Single { bits: QUARTER },
                Single { bits: HALF },
                Single { bits: THREE_QUARTERS },
            ],
        }
    }
}

impl Default for GlobalStages {
    /// The recipe that changes nothing.
    fn default() -> (r: GlobalStages)
        ensures
            neutral(r),
    {
        let none: Single = zero();
        let band = HslBand { hue: none, sat: none, lum: none };
        GlobalStages {
            white_balance: WhiteBalance::AsShot,
            treatment: Treatment::Color,
            exposure: zero(),
            contrast: zero(),
            highlights: zero(),
            shadows: zero(),
            whites: zero(),
            blacks: zero(),
            tone_curve: ToneCurveSet {
                rgb: ToneCurve::default(),
                r: ToneCurve::default(),
                g: ToneCurve::default(),
                b: ToneCurve::default(),
                parametric: ParametricCurve::default(),
            },
            hsl: Hsl { bands: [band, band, band, band, band, band, band, band] },
            vibrance: zero(),
            saturation: zero(),
            color_grade: ColorGrade {
                shadows: default_wheel(),
                midtones: default_wheel(),
                highlights: default_wheel(),
                global: default_wheel(),
                blend: zero(),
                balance: zero(),
            },
            bw: BwMix { weights: [none, none, none, none, none, none, none, none] },
            presence: Presence { clarity: zero(), texture: zero(), dehaze: zero() },
            detail: Detail {
                sharpen: Sharpen {
                    amount: zero(),
                    radius: Single { bits: ONE },
                    detail: zero(),
                    masking: zero(),
                },
                nr: NoiseReduction {
                    luma: zero(),
                    luma_detail: zero(),
                    chroma: zero(),
                    chroma_detail: zero(),
                },
            },
            effects: Effects {
                postcrop_vignette: PostCropVignette {
                    amount: zero(),
                    midpoint: Single { bits: FIFTY },
                    roundness: zero(),
                    feather: Single { bits: FIFTY },
                    highlights: zero(),
                },
                grain: Grain { amount: zero(), size: zero(), roughness: zero() },
                creative_lut: None,
            },
        }
    }
}

impl ParametricCurve {
    /// No region is moved; the splits do not matter.
    pub open spec fn identity(self) -> bool {
        self.highlights.zero() && self.lights.zero() && self.darks.zero() && self.shadows.zero()
    }

    /// Whether no region is moved, wherever the splits are.
    pub fn is_identity(&self) -> (r: bool)
        ensures
            r == self.identity(),
    {
        self.highlights.is_zero() && self.lights.is_zero() && self.darks.is_zero()
            && self.shadows.is_zero()
    }
}

/// The neutral recipe is in colour, as shot, without a look, with every slider
/// that moves a picture at zero; what only shapes an effect is at its usual
/// place: a radius of one pixel, a vignette half way out and half soft, and the
/// splits at the quarters.
pub proof fn law_the_neutral_recipe_moves_nothing(g: GlobalStages, i: int)
    requires
        neutral(g),
        0 <= i < 8,
    ensures
        g.white_balance is AsShot && g.treatment is Color && g.effects.creative_lut is None,
        g.exposure.bits == 0 && g.contrast.bits == 0 && g.highlights.bits == 0 && g.shadows.bits
            == 0 && g.whites.bits == 0 && g.blacks.bits == 0 && g.vibrance.bits == 0
            && g.saturation.bits == 0,
        g.presence.clarity.bits == 0 && g.presence.texture.bits == 0 && g.presence.dehaze.bits == 0,
        g.hsl.bands@[i].hue.bits == 0 && g.hsl.bands@[i].sat.bits == 0 && g.hsl.bands@[i].lum.bits
            == 0 && g.bw.weights@[i].bits == 0,
        g.color_grade.shadows.sat.bits == 0 && g.color_grade.midtones.sat.bits == 0
            && g.color_grade.highlights.sat.bits == 0 && g.color_grade.global.sat.bits == 0,
        g.color_grade.shadows.lum.bits == 0 && g.color_grade.midtones.lum.bits == 0
            && g.color_grade.highlights.lum.bits == 0 && g.color_grade.global.lum.bits == 0,
        g.color_grade.blend.bits == 0 && g.color_grade.balance.bits == 0,
        g.detail.sharpen.amount.bits == 0 && g.detail.sharpen.radius.bits == 0x3f80_0000,
        g.detail.nr.luma.bits == 0 && g.detail.nr.chroma.bits == 0,
        g.effects.grain.amount.bits == 0 && g.effects.postcrop_vignette.amount.bits == 0,
        g.effects.postcrop_vignette.midpoint.bits == 0x4248_0000
            && g.effects.postcrop_vignette.feather.bits == 0x4248_0000,
        g.tone_curve.parametric.splits@[0].bits == 0x3e80_0000
            && g.tone_curve.parametric.splits@[1].bits == 0x3f00_0000
            && g.tone_curve.parametric.splits@[2].bits == 0x3f40_0000,
        g.tone_curve.rgb.points@.len() == 2 && g.tone_curve.rgb.points@[0].x.bits == 0
            && g.tone_curve.rgb.points@[1].y.bits == 0x3f80_0000,
{
}

} // verus!
