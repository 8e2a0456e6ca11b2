//! Source pixels: what they are tagged with, which input transform lifts them
//! into the working space, and how the lifted pixels are laid out.

use vstd::prelude::*;

use crate::nodes::support::blank_fits;
use crate::nodes::support::channels;
use crate::nodes::support::new_rgba16f;
use crate::nodes::support::read_rgba_f32;
use crate::tile::law_storing_keeps_other_pixels;
use crate::tile::Lane;
use crate::tile::PixelBuf;
use crate::tile::PixelFormat;
use crate::tile::Texel;
use crate::types::Extent;

verus! {

/// What the engine wants from a source.
#[derive(Clone, Copy, Debug, PartialEq, Eq, Structural)]
pub enum SourceWant {
    /// The best tier no larger than `max_px`.
    BestAvailable {
        /// Upper bound on the longest edge, pixels.
        max_px: u32,
    },
    /// The full decoded image.
    DecodedFull,
    /// Cached partially decoded raw state.
    CachedRawState,
}

/// How a source's channel values are encoded.
#[derive(Clone, Copy, Debug, PartialEq, Eq, Structural)]
pub enum TransferFunction {
    /// Already linear.
    Linear,
    /// The sRGB curve.
    Srgb,
    /// The Adobe RGB gamma.
    AdobeRgb,
    /// The Rec. 709 curve.
    Rec709,
    /// The ProPhoto curve.
    ProPhoto,
}

/// A source's primaries.
#[derive(Clone, Copy, Debug, PartialEq, Eq, Structural)]
pub enum ColorPrimaries {
    /// Those of the working space.
    Working,
    /// sRGB.
    Srgb,
    /// Display P3.
    DisplayP3,
    /// Adobe RGB.
    AdobeRgb,
    /// Rec. 2020.
    Rec2020,
}

/// What a source's channel values mean.
#[derive(Clone, Copy, Debug, PartialEq, Eq, Structural)]
pub struct SourceColorimetry {
    /// Their encoding.
    pub transfer: TransferFunction,
    /// Their primaries.
    pub primaries: ColorPrimaries,
}

impl Default for SourceColorimetry {
    /// Working-space linear: what engine-internal sources are.
    fn default() -> (r: SourceColorimetry)
        ensures
            r == (SourceColorimetry {
                transfer: TransferFunction::Linear,
                primaries: ColorPrimaries::Working,
            }),
    {
        SourceColorimetry { transfer: TransferFunction::Linear, primaries: ColorPrimaries::Working }
    }
}

/// Which tier produced source pixels.
#[derive(Clone, Copy, Debug, PartialEq, Eq, Structural)]
pub enum SourceQuality {
    /// A preview.
    Preview,
    /// The full image.
    Full,
}

/// Source pixels handed to the engine.
#[derive(Clone, Debug)]
pub struct SourceImage {
    /// The pixels.
    pub pixels: PixelBuf,
    /// What they mean: this drives the input transform.
    pub colorimetry: SourceColorimetry,
    /// Full source resolution (may exceed a preview's).
    pub full_extent: Extent,
    /// Which tier produced them.
    pub quality: SourceQuality,
}

/// A decoding curve.
#[derive(Clone, Copy, Debug, PartialEq, Eq, Structural)]
pub enum DecodeCurve {
    /// The sRGB curve.
    Srgb,
    /// The Adobe RGB gamma.
    AdobeRgb,
    /// The Rec. 709 curve.
    Rec709,
    /// The ProPhoto curve.
    ProPhoto,
}

/// Primaries to convert to the working space.
#[derive(Clone, Copy, Debug, PartialEq, Eq, Structural)]
pub enum Gamut {
    /// sRGB.
    Srgb,
    /// Display P3.
    DisplayP3,
    /// Adobe RGB.
    AdobeRgb,
    /// Rec. 2020.
    Rec2020,
}

/// The input transform of a source: `None` steps are skipped.
#[derive(Clone, Copy, Debug, PartialEq, Eq, Structural)]
pub struct LiftPlan {
    /// The curve that linearizes a channel.
    pub decode: Option<DecodeCurve>,
    /// The primaries to convert from.
    pub convert: Option<Gamut>,
}

/// The input transform a tag stands for.
pub open spec fn lift_of(c: SourceColorimetry) -> LiftPlan {
    LiftPlan {
        decode: match c.transfer {
            TransferFunction::Linear => None,
            TransferFunction::Srgb => Some(DecodeCurve::Srgb),
            TransferFunction::AdobeRgb => Some(DecodeCurve::AdobeRgb),
            TransferFunction::Rec709 => Some(DecodeCurve::Rec709),
            TransferFunction::ProPhoto => Some(DecodeCurve::ProPhoto),
        },
        convert: match c.primaries {
            ColorPrimaries::Working => None,
            ColorPrimaries::Srgb => Some(Gamut::Srgb),
            ColorPrimaries::DisplayP3 => Some(Gamut::DisplayP3),
            ColorPrimaries::AdobeRgb => Some(Gamut::AdobeRgb),
            ColorPrimaries::Rec2020 => Some(Gamut::Rec2020),
        },
    }
}

/// Chooses the input transform of a source.
pub fn lift_plan(c: &SourceColorimetry) -> (r: LiftPlan)
    ensures
        r == lift_of(*c),
{
    let decode: Option<DecodeCurve> = match c.transfer {
        TransferFunction::Linear => None,
        TransferFunction::Srgb => Some(DecodeCurve::Srgb),
        TransferFunction::AdobeRgb => Some(DecodeCurve::AdobeRgb),
        TransferFunction::Rec709 => Some(DecodeCurve::Rec709),
        TransferFunction::ProPhoto => Some(DecodeCurve::ProPhoto),
    };
    let convert: Option<Gamut> = match c.primaries {
        ColorPrimaries::Working => None,
        ColorPrimaries::Srgb => Some(Gamut::Srgb),
        ColorPrimaries::DisplayP3 => Some(Gamut::DisplayP3),
        ColorPrimaries::AdobeRgb => Some(Gamut::AdobeRgb),
        ColorPrimaries::Rec2020 => Some(Gamut::Rec2020),
    };
    LiftPlan { decode, convert }
}

/// A source is lifted unchanged exactly when it is tagged as working-space
/// linear.
pub proof fn law_only_working_linear_sources_lift_unchanged(c: SourceColorimetry)
    ensures
        lift_of(c) == (LiftPlan { decode: None, convert: None }) <==> c.transfer is Linear
            && c.primaries is Working,
{
}

/// Whether an encoding's colour lanes go through the decoding curve. Alpha
/// never does, and a mask weight is no colour.
pub fn decodes_color(format: PixelFormat) -> (r: bool)
    ensures
        r == !(format is R16F),
{
    format != PixelFormat::R16F
}

/// Uploads decoded source pixels.
#[derive(Clone, Copy, Debug, PartialEq, Eq, Structural)]
pub struct Uploader {}

/// The texture a source is uploaded into.
#[derive(Clone, Copy, Debug, PartialEq, Eq, Structural)]
pub struct UploadLayout {
    /// The texture's extent: at least one pixel each way.
    pub extent: Extent,
    /// Bytes per row of the uploaded pixels.
    pub bytes_per_row: u32,
}

impl Uploader {
    /// A new uploader.
    pub fn new() -> (r: Uploader)
        ensures
            r == (Uploader {  }),
    {
        Uploader {  }
    }

    /// The texture and row length for a source of the given extent, in the
    /// working format (eight bytes per pixel).
    pub fn layout(&self, extent: Extent) -> (r: UploadLayout)
        requires
            extent.w * 8 <= u32::MAX,
        ensures
            r.extent.w == if extent.w == 0 { 1 } else { extent.w as int },
            r.extent.h == if extent.h == 0 { 1 } else { extent.h as int },
            r.bytes_per_row == r.extent.w * 8,
    {
        let w: u32 = if extent.w == 0 { 1 } else { extent.w };
        let h: u32 = if extent.h == 0 { 1 } else { extent.h };
        UploadLayout { extent: Extent { w, h }, bytes_per_row: w * 8 }
    }
}

/// A length, at least one.
pub open spec fn at_least_one(n: u32) -> int {
    if n == 0 {
        1
    } else {
        n as int
    }
}

/// How many pixels a working tile of the given extent has: at least one each
/// way.
pub open spec fn working_pixels(extent: Extent) -> int {
    at_least_one(extent.w) * at_least_one(extent.h)
}

/// Whether every pixel that a working tile is made of has its bytes: an empty
/// source still has to hold one.
pub open spec fn readable(p: PixelBuf) -> bool {
    p.start(at_least_one(p.extent.w), at_least_one(p.extent.h) - 1) <= p.bytes.len()
}

/// A buffer that holds a nonempty extent is readable.
pub proof fn law_held_extents_are_readable(p: PixelBuf)
    requires
        p.holds_extent(),
        p.extent.w > 0,
        p.extent.h > 0,
    ensures
        readable(p),
{
}

proof fn lemma_readable(p: PixelBuf, x: int, y: int)
    requires
        readable(p),
        0 <= x < at_least_one(p.extent.w),
        0 <= y < at_least_one(p.extent.h),
    ensures
        p.start(x, y) + p.format.size() <= p.bytes.len(),
{
    let bpp = p.format.size();
    let w = at_least_one(p.extent.w);
    let h = at_least_one(p.extent.h);
    assert(y * p.stride <= (h - 1) * p.stride) by (nonlinear_arith)
        requires
            0 <= y <= h - 1,
            0 <= p.stride,
    ;
    assert(x * bpp + bpp <= w * bpp) by (nonlinear_arith)
        requires
            0 <= x < w,
            0 <= bpp,
    ;
}

/// The place of pixel `(x, y)` among the pixels of `w`-long rows.
pub open spec fn place(w: int, x: int, y: int) -> int {
    y * w + x
}

/// `lanes` holds the channels of the pixels before `(x, y)`, row by row.
spec fn read_before(p: PixelBuf, lanes: Seq<[Lane; 4]>, x: int, y: int) -> bool {
    let w = at_least_one(p.extent.w);
    &&& lanes.len() == place(w, x, y)
    &&& forall|px: int, py: int|
        0 <= px < w && 0 <= py && earlier(px, py, x, y) ==> lanes[#[trigger] place(w, px, py)]@
            == channels(p.held(px, py))
}

proof fn lemma_place_is_earlier(w: int, px: int, py: int, x: int, y: int)
    requires
        0 <= px < w,
        0 <= py,
        0 <= x <= w,
        earlier(px, py, x, y),
    ensures
        0 <= place(w, px, py) < place(w, x, y),
{
    assert(0 <= py * w) by (nonlinear_arith)
        requires
            0 <= py,
            0 <= w,
    ;
    if py < y {
        assert(py * w + w <= y * w) by (nonlinear_arith)
            requires
                py + 1 <= y,
                0 <= w,
        ;
    }
}

/// The channels of a source's pixels, row by row, whatever lies between the
/// rows.
pub fn source_lanes(p: &PixelBuf) -> (r: Vec<[Lane; 4]>)
    requires
        readable(*p),
    ensures
        r.len() == working_pixels(p.extent),
        forall|x: int, y: int|
            0 <= x < at_least_one(p.extent.w) && 0 <= y < at_least_one(p.extent.h)
                ==> r[#[trigger] place(at_least_one(p.extent.w), x, y)]@ == channels(p.held(x, y)),
{
    let w: u32 = if p.extent.w == 0 { 1 } else { p.extent.w };
    let h: u32 = if p.extent.h == 0 { 1 } else { p.extent.h };
    let mut r: Vec<[Lane; 4]> = Vec::new();
    let mut y: u32 = 0;
    while y < h
        invariant
            y <= h,
            w == at_least_one(p.extent.w),
            h == at_least_one(p.extent.h),
            readable(*p),
            read_before(*p, r@, 0, y as int),
        decreases h - y,
    {
        let mut x: u32 = 0;
        while x < w
            invariant
                x <= w,
                y < h,
                w == at_least_one(p.extent.w),
                h == at_least_one(p.extent.h),
                readable(*p),
                read_before(*p, r@, x as int, y as int),
            decreases w - x,
        {
            let ghost before = r@;
            proof {
                lemma_readable(*p, x as int, y as int);
            }
            r.push(read_rgba_f32(p, x as usize, y as usize));
            proof {
                let wide = w as int;
                assert forall|px: int, py: int|
                    0 <= px < wide && 0 <= py && earlier(px, py, x + 1, y as int) implies r@[
                #[trigger] place(wide, px, py)]@ == channels(p.held(px, py)) by {
                    if (px, py) != (x as int, y as int) {
                        lemma_place_is_earlier(wide, px, py, x as int, y as int);
                        assert(before[place(wide, px, py)]@ == channels(p.held(px, py)));
                    }
                }
            }
            x = x + 1;
        }
        proof {
            let wide = w as int;
            assert(place(wide, wide, y as int) == place(wide, 0, y + 1)) by (nonlinear_arith);
            assert forall|px: int, py: int|
                0 <= px < wide && 0 <= py && earlier(px, py, 0, y + 1) implies r@[
            #[trigger] place(wide, px, py)]@ == channels(p.held(px, py)) by {
                assert(earlier(px, py, wide, y as int));
            }
        }
        y = y + 1;
    }
    proof {
        assert(h * w == w * h) by (nonlinear_arith);
        assert forall|px: int, py: int|
            0 <= px < w && 0 <= py < h implies r@[#[trigger] place(w as int, px, py)]@ == channels(
            p.held(px, py),
        ) by {
            assert(earlier(px, py, 0, h as int));
        }
    }
    r
}

/// The input transform of a source's channels: a mask weight is no colour and
/// is not decoded.
pub open spec fn lift_for(src: SourceImage) -> LiftPlan {
    LiftPlan {
        decode: if src.pixels.format is R16F {
            None
        } else {
            lift_of(src.colorimetry).decode
        },
        convert: lift_of(src.colorimetry).convert,
    }
}

/// The stored `pixel` holds what `lift` makes of `lanes` under `plan`.
pub open spec fn lifted_from<F: Fn(LiftPlan, [Lane; 4]) -> [u16; 4]>(
    lift: F,
    plan: LiftPlan,
    lanes: Seq<Lane>,
    pixel: Seq<u8>,
) -> bool {
    exists|given: [Lane; 4], half: [u16; 4]|
        given@ == lanes && #[trigger] call_ensures(lift, (plan, given), half) && pixel
            == Texel::Half4(half).encoded()
}

/// Lifts a source into a CPU working tile: each of its pixels, read row by row,
/// goes through `lift` under the source's input transform.
pub fn to_working_tile_cpu<F: Fn(LiftPlan, [Lane; 4]) -> [u16; 4]>(
    src: &SourceImage,
    lift: F,
) -> (r: PixelBuf)
    requires
        blank_fits(PixelFormat::Rgba16F, src.pixels.extent),
        readable(src.pixels),
        forall|lanes: [Lane; 4]| #[trigger] call_requires(lift, (lift_for(*src), lanes)),
    ensures
        r.format == PixelFormat::Rgba16F,
        r.extent.w == at_least_one(src.pixels.extent.w),
        r.extent.h == at_least_one(src.pixels.extent.h),
        r.stride == r.extent.w * 8,
        r.well_formed(),
        r.bytes.len() == 8 * working_pixels(src.pixels.extent),
        forall|px: int, py: int| #[trigger]
            r.inside(px, py) ==> lifted_from(
                lift,
                lift_for(*src),
                channels(src.pixels.held(px, py)),
                r.pixel(px, py),
            ),
{
    let whole: LiftPlan = lift_plan(&src.colorimetry);
    let plan: LiftPlan = if decodes_color(src.pixels.format) {
        whole
    } else {
        LiftPlan { decode: None, convert: whole.convert }
    };
    let lanes: Vec<[Lane; 4]> = source_lanes(&src.pixels);
    let mut lifted: Vec<[u16; 4]> = Vec::new();
    let mut i: usize = 0;
    while i < lanes.len()
        invariant
            i <= lanes.len(),
            lifted.len() == i,
            plan == lift_for(*src),
            forall|given: [Lane; 4]| #[trigger] call_requires(lift, (plan, given)),
            forall|k: int|
                0 <= k < i ==> call_ensures(lift, (plan, #[trigger] lanes[k]), lifted[k]),
        decreases lanes.len() - i,
    {
        lifted.push(lift(plan, lanes[i]));
        i = i + 1;
    }
    let tile: PixelBuf = lay_out(src.pixels.extent, &lifted);
    proof {
        let w = at_least_one(src.pixels.extent.w);
        assert forall|px: int, py: int| #[trigger] tile.inside(px, py) implies lifted_from(
            lift,
            plan,
            channels(src.pixels.held(px, py)),
            tile.pixel(px, py),
        ) by {
            let k = place(w, px, py);
            lemma_place_is_earlier(w, px, py, 0, tile.extent.h as int);
            assert(tile.extent.h * w == w * tile.extent.h) by (nonlinear_arith);
            assert(call_ensures(lift, (plan, lanes[k]), lifted[k]));
        }
    }
    tile
}

/// Pixel `(px, py)` comes before `(x, y)` in row-major order.
spec fn earlier(px: int, py: int, x: int, y: int) -> bool {
    py < y || (py == y && px < x)
}

/// The pixels before `(x, y)` hold the lifted lanes.
spec fn laid_out(tile: PixelBuf, lifted: Seq<[u16; 4]>, x: int, y: int) -> bool {
    forall|px: int, py: int| #[trigger]
        tile.inside(px, py) && earlier(px, py, x, y) ==> tile.pixel(px, py) == Texel::Half4(
            lifted[py * tile.extent.w + px],
        ).encoded()
}

/// Lays lifted pixels out as a working tile: row by row, tightly packed.
fn lay_out(extent: Extent, lifted: &Vec<[u16; 4]>) -> (r: PixelBuf)
    requires
        blank_fits(PixelFormat::Rgba16F, extent),
        lifted.len() == working_pixels(extent),
    ensures
        r.format == PixelFormat::Rgba16F,
        r.extent.w == at_least_one(extent.w),
        r.extent.h == at_least_one(extent.h),
        r.stride == r.extent.w * 8,
        r.well_formed(),
        r.bytes.len() == 8 * lifted.len(),
        forall|px: int, py: int| #[trigger]
            r.inside(px, py) ==> r.pixel(px, py) == Texel::Half4(
                lifted[py * r.extent.w + px],
            ).encoded(),
{
    let mut tile: PixelBuf = new_rgba16f(extent);
    let w: u32 = tile.extent.w;
    let h: u32 = tile.extent.h;
    let ghost blank = tile;
    let mut y: u32 = 0;
    while y < h
        invariant
            y <= h,
            w == tile.extent.w,
            h == tile.extent.h,
            tile.format == PixelFormat::Rgba16F,
            tile.extent == blank.extent,
            tile.stride == blank.stride,
            tile.bytes.len() == blank.bytes.len(),
            tile.well_formed(),
            lifted.len() == w * h,
            laid_out(tile, lifted@, 0, y as int),
        decreases h - y,
    {
        let mut x: u32 = 0;
        while x < w
            invariant
                x <= w,
                y < h,
                w == tile.extent.w,
                h == tile.extent.h,
                tile.format == PixelFormat::Rgba16F,
                tile.extent == blank.extent,
                tile.stride == blank.stride,
                tile.bytes.len() == blank.bytes.len(),
                tile.well_formed(),
                lifted.len() == w * h,
                laid_out(tile, lifted@, x as int, y as int),
            decreases w - x,
        {
            let ghost before = tile;
            proof {
                tile.lemma_inside(x as int, y as int);
                assert(0 <= y * w + x < w * h) by (nonlinear_arith)
                    requires
                        0 <= x < w,
                        0 <= y < h,
                ;
                assert(0 <= y * w) by (nonlinear_arith)
                    requires
                        0 <= y,
                        0 <= w,
                ;
            }
            let k: usize = y as usize * w as usize + x as usize;
            let t = Texel::Half4(lifted[k]);
            tile.set_texel(x, y, t);
            proof {
                assert forall|px: int, py: int| #[trigger]
                    tile.inside(px, py) && earlier(px, py, x as int + 1, y as int) implies tile.pixel(
                    px,
                    py,
                ) == Texel::Half4(lifted@[py * tile.extent.w + px]).encoded() by {
                    if (px, py) != (x as int, y as int) {
                        assert(before.inside(px, py) && earlier(px, py, x as int, y as int));
                        law_storing_keeps_other_pixels(
                            before,
                            tile,
                            x as int,
                            y as int,
                            t,
                            px,
                            py,
                        );
                    }
                }
            }
            x = x + 1;
        }
        proof {
            assert forall|px: int, py: int| #[trigger]
                tile.inside(px, py) && earlier(px, py, 0, y as int + 1) implies tile.pixel(px, py)
                == Texel::Half4(lifted@[py * tile.extent.w + px]).encoded() by {
                assert(earlier(px, py, w as int, y as int));
            }
        }
        y = y + 1;
    }
    proof {
        assert forall|px: int, py: int| #[trigger] tile.inside(px, py) implies tile.pixel(px, py)
            == Texel::Half4(lifted@[py * tile.extent.w + px]).encoded() by {
            assert(earlier(px, py, 0, h as int));
        }
    }
    tile
}

/// Each tag gets its own transform: the curve of its own transfer function and
/// the gamut of its own primaries, none where they are the working space's, and
/// different tags get different transforms.
pub proof fn law_each_tag_gets_its_own_transform(c: SourceColorimetry, other: SourceColorimetry)
    ensures
        c.transfer is Linear <==> lift_of(c).decode is None,
        c.transfer is Srgb <==> lift_of(c).decode == Some(DecodeCurve::Srgb),
        c.transfer is AdobeRgb <==> lift_of(c).decode == Some(DecodeCurve::AdobeRgb),
        c.transfer is Rec709 <==> lift_of(c).decode == Some(DecodeCurve::Rec709),
        c.transfer is ProPhoto <==> lift_of(c).decode == Some(DecodeCurve::ProPhoto),
        c.primaries is Working <==> lift_of(c).convert is None,
        c.primaries is Srgb <==> lift_of(c).convert == Some(Gamut::Srgb),
        c.primaries is DisplayP3 <==> lift_of(c).convert == Some(Gamut::DisplayP3),
        c.primaries is AdobeRgb <==> lift_of(c).convert == Some(Gamut::AdobeRgb),
        c.primaries is Rec2020 <==> lift_of(c).convert == Some(Gamut::Rec2020),
        lift_of(c) == lift_of(other) <==> c == other,
{
}

/// A source is lifted under its own tag, whatever else is known of it; only a
/// mask weight, which is no colour, goes undecoded.
pub proof fn law_a_source_is_lifted_under_its_own_tag(src: SourceImage)
    ensures
        lift_for(src).convert == lift_of(src.colorimetry).convert,
        src.pixels.format is R16F ==> lift_for(src).decode is None,
        !(src.pixels.format is R16F) ==> lift_for(src).decode == lift_of(src.colorimetry).decode,
{
}

/// A working tile is as large as its source, and at least one pixel each way.
pub proof fn law_working_tiles_are_never_empty(n: u32)
    ensures
        at_least_one(n) >= 1,
        n > 0 ==> at_least_one(n) == n,
        n == 0 ==> at_least_one(n) == 1,
{
}

/// Pixels are placed row by row: a step right is one place, and a row starts
/// where the row above ends. Different pixels have different places.
pub proof fn law_pixels_are_placed_row_by_row(w: int, x: int, y: int, ox: int, oy: int)
    requires
        0 <= x < w,
        0 <= ox < w,
        0 <= y,
        0 <= oy,
    ensures
        place(w, 0, 0) == 0,
        place(w, x + 1, y) == place(w, x, y) + 1,
        place(w, w, y) == place(w, 0, y + 1),
        place(w, x, y) == place(w, ox, oy) ==> x == ox && y == oy,
{
    assert(w + y * w == (y + 1) * w) by (nonlinear_arith);
    if y < oy {
        lemma_place_is_earlier(w, x, y, ox, oy);
    } else if oy < y {
        lemma_place_is_earlier(w, ox, oy, x, y);
    }
}

} // verus!
