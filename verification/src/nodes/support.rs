//! Host pixels for the engine-owned nodes' CPU paths.

use vstd::prelude::*;

use crate::tile::Lane;
use crate::tile::PixelBuf;
use crate::tile::PixelFormat;
use crate::tile::Texel;
use crate::types::Extent;

verus! {

/// A pixel's channels as the resampler takes them: a mask weight is red only.
pub open spec fn channels(t: Texel) -> Seq<Lane> {
    match t {
        Texel::Half1(v) => seq![Lane::Half(v), Lane::Zero, Lane::Zero, Lane::One],
        _ => t.rgba(),
    }
}

/// Reads pixel `(x, y)` as the resampler takes it: like
/// [`PixelBuf::get_rgba_f32`], but a mask weight is red only.
pub fn read_rgba_f32(buf: &PixelBuf, x: usize, y: usize) -> (r: [Lane; 4])
    requires
        buf.start(x as int, y as int) + buf.format.size() <= buf.bytes.len(),
    ensures
        r@ == channels(buf.held(x as int, y as int)),
{
    match buf.texel_at(x, y) {
        Texel::Half1(v) => {
            let r: [Lane; 4] = [Lane::Half(v), Lane::Zero, Lane::Zero, Lane::One];
            assert(r@ =~= channels(Texel::Half1(v)));
            r
        },
        t => t.to_rgba(),
    }
}

/// A tightly packed, zero-filled buffer of at least one pixel each way.
pub open spec fn blank(b: PixelBuf, format: PixelFormat, extent: Extent) -> bool {
    let w: int = if extent.w == 0 { 1 } else { extent.w as int };
    let h: int = if extent.h == 0 { 1 } else { extent.h as int };
    &&& b.format == format
    &&& b.extent.w == w
    &&& b.extent.h == h
    &&& b.stride == w * format.size()
    &&& b.bytes@ == Seq::new((w * h * format.size()) as nat, |i: int| 0u8)
}

/// Whether a blank buffer's row and byte count can be represented.
pub open spec fn blank_fits(format: PixelFormat, extent: Extent) -> bool {
    let w: int = if extent.w == 0 { 1 } else { extent.w as int };
    let h: int = if extent.h == 0 { 1 } else { extent.h as int };
    &&& w * format.size() <= u32::MAX
    &&& w * h * format.size() <= usize::MAX
}

fn blank_buffer(format: PixelFormat, extent: Extent) -> (r: PixelBuf)
    requires
        blank_fits(format, extent),
    ensures
        blank(r, format, extent),
        r.well_formed(),
{
    let w: u32 = if extent.w == 0 { 1 } else { extent.w };
    let h: u32 = if extent.h == 0 { 1 } else { extent.h };
    let bpp: u32 = format.bytes_per_pixel();
    proof {
        assert(0 <= w * h && w * h <= w * h * bpp && 0 <= w * bpp) by (nonlinear_arith)
            requires
                0 < w,
                0 < h,
                1 <= bpp,
        ;
        assert((h - 1) * (w * bpp) + w * bpp == w * h * bpp) by (nonlinear_arith);
    }
    let len: usize = w as usize * h as usize * bpp as usize;
    let r = PixelBuf { bytes: vec![0u8; len], format, extent: Extent { w, h }, stride: w * bpp };
    assert(r.bytes@ =~= Seq::new((w * h * format.size()) as nat, |i: int| 0u8));
    r
}

/// A zeroed working buffer (16-bit float, eight bytes per pixel).
pub fn new_rgba16f(extent: Extent) -> (r: PixelBuf)
    requires
        blank_fits(PixelFormat::Rgba16F, extent),
    ensures
        blank(r, PixelFormat::Rgba16F, extent),
        r.well_formed(),
{
    blank_buffer(PixelFormat::Rgba16F, extent)
}

/// A zeroed display buffer (8-bit, four bytes per pixel).
pub fn new_rgba8(extent: Extent) -> (r: PixelBuf)
    requires
        blank_fits(PixelFormat::Rgba8Unorm, extent),
    ensures
        blank(r, PixelFormat::Rgba8Unorm, extent),
        r.well_formed(),
{
    blank_buffer(PixelFormat::Rgba8Unorm, extent)
}

/// To the resampler a pixel is what it is to a node, but for a mask weight, which
/// is red only.
pub proof fn law_only_mask_weights_resample_apart(t: Texel)
    ensures
        !(t is Half1) ==> channels(t) == t.rgba(),
        t matches Texel::Half1(v) ==> channels(t) == seq![
            Lane::Half(v),
            Lane::Zero,
            Lane::Zero,
            Lane::One,
        ],
{
}

/// A blank buffer is as large as asked for, at least one pixel each way, tightly
/// packed, and all zero.
pub proof fn law_blank_buffers_are_zero(b: PixelBuf, format: PixelFormat, extent: Extent, i: int)
    requires
        blank(b, format, extent),
        0 <= i < b.bytes@.len(),
    ensures
        b.format == format,
        extent.w > 0 ==> b.extent.w == extent.w,
        extent.h > 0 ==> b.extent.h == extent.h,
        extent.w == 0 ==> b.extent.w == 1,
        extent.h == 0 ==> b.extent.h == 1,
        b.stride == b.extent.w * format.size(),
        b.bytes@.len() == b.extent.w * b.extent.h * format.size(),
        b.bytes@[i] == 0,
{
}

} // verus!
