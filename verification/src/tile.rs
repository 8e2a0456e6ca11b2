//! Pixel buffers: layout, texel access and row partition.

use vstd::prelude::*;

use crate::bytes::bytes16;
use crate::bytes::bytes32;
use crate::bytes::le16;
use crate::bytes::le32;
use crate::bytes::lemma_le16_injective;
use crate::bytes::lemma_le32_injective;
use crate::bytes::word16;
use crate::bytes::word32;
use crate::types::clamp;
use crate::types::saturate_to_u32;
use crate::types::Extent;
use crate::types::Roi;
use crate::types::TilePrecision;

verus! {

/// Pixel encodings the engine takes in and emits.
#[derive(Clone, Copy, Debug, PartialEq, Eq, Structural)]
#[non_exhaustive]
pub enum PixelFormat {
    /// 8-bit RGBA, plain values.
    Rgba8Unorm,
    /// 8-bit RGBA, sRGB-encoded values.
    Rgba8Srgb,
    /// 16-bit-float RGBA, the working format.
    Rgba16F,
    /// 32-bit-float RGBA, the precision escape hatch.
    Rgba32F,
    /// 16-bit-float single-channel mask weight.
    R16F,
}

impl PixelFormat {
    /// Bytes per pixel.
    pub open spec fn size(self) -> int {
        match self {
            PixelFormat::Rgba8Unorm => 4,
            PixelFormat::Rgba8Srgb => 4,
            PixelFormat::Rgba16F => 8,
            PixelFormat::Rgba32F => 16,
            PixelFormat::R16F => 2,
        }
    }

    /// Bytes per pixel for this encoding.
    pub fn bytes_per_pixel(self) -> (r: u32)
        ensures
            r == self.size(),
    {
        match self {
            PixelFormat::Rgba8Unorm => 4,
            PixelFormat::Rgba8Srgb => 4,
            PixelFormat::Rgba16F => 8,
            PixelFormat::Rgba32F => 16,
            PixelFormat::R16F => 2,
        }
    }
}

/// One pixel's lanes, as stored: 8-bit values, or the bit patterns of 16-bit
/// or 32-bit floats.
#[derive(Clone, Copy, Debug, PartialEq, Eq)]
pub enum Texel {
    /// Four 8-bit lanes.
    Unorm8([u8; 4]),
    /// Four 16-bit float lanes.
    Half4([u16; 4]),
    /// Four 32-bit float lanes.
    Single4([u32; 4]),
    /// One 16-bit float lane.
    Half1(u16),
}

/// One channel of a pixel, exactly: what a single-precision value is to be made
/// of, with no transfer function in between.
#[derive(Clone, Copy, Debug, PartialEq, Eq, Structural)]
pub enum Lane {
    /// An 8-bit value over 255.
    Unorm(u8),
    /// The bit pattern of a 16-bit float.
    Half(u16),
    /// The bit pattern of a 32-bit float.
    Single(u32),
    /// Zero.
    Zero,
    /// One.
    One,
}

impl Texel {
    /// The lanes as red, green, blue and alpha. A mask weight stands in for all
    /// three colours and is opaque.
    pub open spec fn rgba(self) -> Seq<Lane> {
        match self {
            Texel::Unorm8(v) => v@.map_values(|b: u8| Lane::Unorm(b)),
            Texel::Half4(v) => v@.map_values(|b: u16| Lane::Half(b)),
            Texel::Single4(v) => v@.map_values(|b: u32| Lane::Single(b)),
            Texel::Half1(v) => seq![Lane::Half(v), Lane::Half(v), Lane::Half(v), Lane::One],
        }
    }

    /// The lanes as red, green, blue and alpha. A mask weight stands in for all
    /// three colours and is opaque.
    pub fn to_rgba(&self) -> (r: [Lane; 4])
        ensures
            r@ == self.rgba(),
    {
        let r: [Lane; 4] = match self {
            Texel::Unorm8(v) => [
                Lane::Unorm(v[0]),
                Lane::Unorm(v[1]),
                Lane::Unorm(v[2]),
                Lane::Unorm(v[3]),
            ],
            Texel::Half4(v) => [
                Lane::Half(v[0]),
                Lane::Half(v[1]),
                Lane::Half(v[2]),
                Lane::Half(v[3]),
            ],
            Texel::Single4(v) => [
                Lane::Single(v[0]),
                Lane::Single(v[1]),
                Lane::Single(v[2]),
                Lane::Single(v[3]),
            ],
            Texel::Half1(v) => [Lane::Half(*v), Lane::Half(*v), Lane::Half(*v), Lane::One],
        };
        assert(r@ =~= self.rgba());
        r
    }

    /// Whether a pixel of the given encoding has these lanes.
    pub open spec fn fits(self, format: PixelFormat) -> bool {
        match format {
            PixelFormat::Rgba8Unorm => self is Unorm8,
            PixelFormat::Rgba8Srgb => self is Unorm8,
            PixelFormat::Rgba16F => self is Half4,
            PixelFormat::Rgba32F => self is Single4,
            PixelFormat::R16F => self is Half1,
        }
    }

    /// The lanes' bytes, in memory order.
    pub open spec fn encoded(self) -> Seq<u8> {
        match self {
            Texel::Unorm8(v) => v@,
            Texel::Half4(v) => le16(v@[0]) + le16(v@[1]) + le16(v@[2]) + le16(v@[3]),
            Texel::Single4(v) => le32(v@[0]) + le32(v@[1]) + le32(v@[2]) + le32(v@[3]),
            Texel::Half1(v) => le16(v),
        }
    }

    /// The lanes' bytes, in memory order.
    pub fn encode(&self) -> (r: Vec<u8>)
        ensures
            r@ == self.encoded(),
    {
        let mut r: Vec<u8> = Vec::new();
        match self {
            Texel::Unorm8(v) => {
                r.push(v[0]);
                r.push(v[1]);
                r.push(v[2]);
                r.push(v[3]);
            },
            Texel::Half4(v) => {
                push16(&mut r, v[0]);
                push16(&mut r, v[1]);
                push16(&mut r, v[2]);
                push16(&mut r, v[3]);
            },
            Texel::Single4(v) => {
                push32(&mut r, v[0]);
                push32(&mut r, v[1]);
                push32(&mut r, v[2]);
                push32(&mut r, v[3]);
            },
            Texel::Half1(v) => {
                push16(&mut r, *v);
            },
        }
        assert(r@ =~= self.encoded());
        r
    }
}

fn push16(r: &mut Vec<u8>, v: u16)
    ensures
        final(r)@ == old(r)@ + le16(v),
{
    let b: [u8; 2] = bytes16(v);
    r.push(b[0]);
    r.push(b[1]);
    assert(r@ =~= old(r)@ + b@);
}

fn push32(r: &mut Vec<u8>, v: u32)
    ensures
        final(r)@ == old(r)@ + le32(v),
{
    let b: [u8; 4] = bytes32(v);
    r.push(b[0]);
    r.push(b[1]);
    r.push(b[2]);
    r.push(b[3]);
    assert(r@ =~= old(r)@ + b@);
}

/// A pixel has as many bytes as its encoding says.
pub proof fn lemma_encoded_len(t: Texel, format: PixelFormat)
    requires
        t.fits(format),
    ensures
        t.encoded().len() == format.size(),
{
}

/// Different lanes have different bytes.
pub proof fn lemma_encoded_injective(a: Texel, b: Texel, format: PixelFormat)
    requires
        a.fits(format),
        b.fits(format),
        a.encoded() == b.encoded(),
    ensures
        a == b,
{
    match (a, b) {
        (Texel::Unorm8(v), Texel::Unorm8(w)) => {
            assert(v =~= w);
        },
        (Texel::Half4(v), Texel::Half4(w)) => {
            assert forall|i: int| 0 <= i < 4 implies v@[i] == w@[i] by {
                assert(le16(v@[i]) =~= a.encoded().subrange(2 * i, 2 * i + 2));
                assert(le16(w@[i]) =~= b.encoded().subrange(2 * i, 2 * i + 2));
                lemma_le16_injective(v@[i], w@[i]);
            }
            assert(v =~= w);
        },
        (Texel::Single4(v), Texel::Single4(w)) => {
            assert forall|i: int| 0 <= i < 4 implies v@[i] == w@[i] by {
                assert(le32(v@[i]) =~= a.encoded().subrange(4 * i, 4 * i + 4));
                assert(le32(w@[i]) =~= b.encoded().subrange(4 * i, 4 * i + 4));
                lemma_le32_injective(v@[i], w@[i]);
            }
            assert(v =~= w);
        },
        (Texel::Half1(v), Texel::Half1(w)) => {
            lemma_le16_injective(v, w);
        },
        _ => {},
    }
}

/// An owned CPU pixel buffer.
#[derive(Clone, Debug, PartialEq, Eq)]
pub struct PixelBuf {
    /// Pixel bytes, rows `stride` bytes apart.
    pub bytes: Vec<u8>,
    /// The pixel encoding.
    pub format: PixelFormat,
    /// Dimensions in pixels.
    pub extent: Extent,
    /// Bytes per row (at least a row's pixels).
    pub stride: u32,
}

/// A CPU node's read-only view of one input tile.
pub struct CpuTileView<'a> {
    /// The tile pixels.
    pub pixels: &'a PixelBuf,
    /// The source-pixel region the tile covers (apron included).
    pub roi: Roi,
    /// The tile's storage precision.
    pub precision: TilePrecision,
}

impl PixelBuf {
    /// Where pixel `(x, y)` starts.
    pub open spec fn start(self, x: int, y: int) -> int {
        y * self.stride + x * self.format.size()
    }

    /// Every pixel's bytes are there.
    pub open spec fn holds_extent(self) -> bool {
        self.extent.w > 0 && self.extent.h > 0 ==> self.start(
            self.extent.w as int,
            self.extent.h - 1,
        ) <= self.bytes.len()
    }

    /// Every pixel's bytes are there, and rows do not overlap.
    pub open spec fn well_formed(self) -> bool {
        &&& self.holds_extent()
        &&& self.extent.w * self.format.size() <= self.stride
    }

    /// Whether pixel `(x, y)` is inside the extent.
    pub open spec fn inside(self, x: int, y: int) -> bool {
        0 <= x < self.extent.w && 0 <= y < self.extent.h
    }

    /// The bytes of pixel `(x, y)`.
    pub open spec fn pixel(self, x: int, y: int) -> Seq<u8> {
        self.bytes@.subrange(self.start(x, y), self.start(x, y) + self.format.size())
    }

    /// The row length of a tightly packed buffer, saturating.
    pub open spec fn tight_stride(format: PixelFormat, w: u32) -> int {
        clamp(w * format.size(), 0, u32::MAX as int)
    }

    /// A tightly packed, zero-filled buffer. Both the row length and the byte
    /// count saturate.
    pub fn new_zeroed(format: PixelFormat, extent: Extent) -> (r: PixelBuf)
        ensures
            r.format == format,
            r.extent == extent,
            r.stride == PixelBuf::tight_stride(format, extent.w),
            r.bytes@ == Seq::new(
                clamp(r.stride * extent.h, 0, usize::MAX as int) as nat,
                |i: int| 0u8,
            ),
    {
        let bpp: u32 = format.bytes_per_pixel();
        assert(extent.w * bpp <= 0xffff_ffff * 16) by (nonlinear_arith)
            requires
                0 <= extent.w <= 0xffff_ffff,
                0 <= bpp <= 16,
        ;
        let stride: u32 = saturate_to_u32(extent.w as u64 * bpp as u64);
        assert(stride * extent.h <= 0xffff_ffff * 0xffff_ffff) by (nonlinear_arith)
            requires
                0 <= stride <= 0xffff_ffff,
                0 <= extent.h <= 0xffff_ffff,
        ;
        assert(0 <= stride * extent.h) by (nonlinear_arith)
            requires
                0 <= stride,
                0 <= extent.h,
        ;
        let full: u64 = stride as u64 * extent.h as u64;
        let len: usize = if full > usize::MAX as u64 {
            usize::MAX
        } else {
            full as usize
        };
        let r = PixelBuf { bytes: vec![0u8; len], format, extent, stride };
        assert(r.bytes@ =~= Seq::new(
            clamp(r.stride * extent.h, 0, usize::MAX as int) as nat,
            |i: int| 0u8,
        ));
        r
    }

    /// The byte offset of pixel `(x, y)`.
    pub fn offset(&self, x: u32, y: u32) -> (r: usize)
        requires
            self.start(x as int, y as int) <= usize::MAX,
        ensures
            r == self.start(x as int, y as int),
    {
        assert(0 <= y * self.stride && 0 <= x * self.format.size()) by (nonlinear_arith)
            requires
                0 <= y,
                0 <= x,
                0 <= self.stride,
                0 <= self.format.size(),
        ;
        (y as usize) * (self.stride as usize) + (x as usize) * (
        self.format.bytes_per_pixel() as usize)
    }

    /// The lanes of pixel `(x, y)` as they are stored.
    pub open spec fn held(self, x: int, y: int) -> Texel {
        choose|t: Texel| t.fits(self.format) && #[trigger] t.encoded() == self.pixel(x, y)
    }

    /// A pixel's bytes determine its lanes.
    pub proof fn lemma_held(self, x: int, y: int, t: Texel)
        requires
            t.fits(self.format),
            t.encoded() == self.pixel(x, y),
        ensures
            self.held(x, y) == t,
    {
        lemma_encoded_injective(self.held(x, y), t, self.format);
    }

    /// The lanes stored from byte `o` on.
    fn texel_from(&self, o: usize) -> (r: Texel)
        requires
            o + self.format.size() <= self.bytes.len(),
        ensures
            r.fits(self.format),
            r.encoded() == self.bytes@.subrange(o as int, o + self.format.size()),
    {
        let b: &Vec<u8> = &self.bytes;
        let r = match self.format {
            PixelFormat::Rgba8Unorm => Texel::Unorm8([b[o], b[o + 1], b[o + 2], b[o + 3]]),
            PixelFormat::Rgba8Srgb => Texel::Unorm8([b[o], b[o + 1], b[o + 2], b[o + 3]]),
            PixelFormat::Rgba16F => Texel::Half4(
                [
                    word16(b[o], b[o + 1]),
                    word16(b[o + 2], b[o + 3]),
                    word16(b[o + 4], b[o + 5]),
                    word16(b[o + 6], b[o + 7]),
                ],
            ),
            PixelFormat::Rgba32F => Texel::Single4(
                [
                    word32(b[o], b[o + 1], b[o + 2], b[o + 3]),
                    word32(b[o + 4], b[o + 5], b[o + 6], b[o + 7]),
                    word32(b[o + 8], b[o + 9], b[o + 10], b[o + 11]),
                    word32(b[o + 12], b[o + 13], b[o + 14], b[o + 15]),
                ],
            ),
            PixelFormat::R16F => Texel::Half1(word16(b[o], b[o + 1])),
        };
        assert(r.encoded() =~= self.bytes@.subrange(o as int, o + self.format.size()));
        r
    }

    /// Reads the lanes of pixel `(x, y)` as they are stored.
    pub fn texel(&self, x: u32, y: u32) -> (r: Texel)
        requires
            self.start(x as int, y as int) + self.format.size() <= self.bytes.len(),
        ensures
            r.fits(self.format),
            r.encoded() == self.pixel(x as int, y as int),
            r == self.held(x as int, y as int),
    {
        proof {
            self.lemma_start_nonneg(x as int, y as int);
        }
        let r = self.texel_from(self.offset(x, y));
        proof {
            self.lemma_held(x as int, y as int, r);
        }
        r
    }

    /// Reads pixel `(x, y)` as red, green, blue and alpha. No transfer function
    /// is applied: 8-bit values are taken over 255 whether or not they are
    /// sRGB-encoded, and floats as they are.
    pub fn get_rgba_f32(&self, x: u32, y: u32) -> (r: [Lane; 4])
        requires
            self.start(x as int, y as int) + self.format.size() <= self.bytes.len(),
        ensures
            r@ == self.held(x as int, y as int).rgba(),
    {
        self.texel(x, y).to_rgba()
    }

    /// Reads the lanes of pixel `(x, y)`, its coordinates being counts.
    pub(crate) fn texel_at(&self, x: usize, y: usize) -> (r: Texel)
        requires
            self.start(x as int, y as int) + self.format.size() <= self.bytes.len(),
        ensures
            r == self.held(x as int, y as int),
    {
        let bpp: usize = self.format.bytes_per_pixel() as usize;
        assert(0 <= y * self.stride && 0 <= x * bpp) by (nonlinear_arith)
            requires
                0 <= y,
                0 <= x,
                0 <= self.stride,
                0 <= bpp,
        ;
        let r = self.texel_from(y * (self.stride as usize) + x * bpp);
        proof {
            self.lemma_held(x as int, y as int, r);
        }
        r
    }

    /// Stores the lanes of pixel `(x, y)`.
    pub fn set_texel(&mut self, x: u32, y: u32, t: Texel)
        requires
            t.fits(old(self).format),
            old(self).start(x as int, y as int) + old(self).format.size()
                <= old(self).bytes.len(),
        ensures
            stored(*old(self), *final(self), x as int, y as int, t),
    {
        proof {
            self.lemma_start_nonneg(x as int, y as int);
            lemma_encoded_len(t, self.format);
        }
        let o: usize = self.offset(x, y);
        let e: Vec<u8> = t.encode();
        let mut i: usize = 0;
        while i < e.len()
            invariant
                i <= e.len(),
                o + e.len() <= self.bytes.len(),
                self.format == old(self).format,
                self.extent == old(self).extent,
                self.stride == old(self).stride,
                self.bytes.len() == old(self).bytes.len(),
                forall|k: int| 0 <= k < i ==> #[trigger] self.bytes[o + k] == e[k],
                forall|k: int|
                    0 <= k < self.bytes.len() && !(o <= k < o + e.len())
                        ==> #[trigger] self.bytes[k] == old(self).bytes[k],
            decreases e.len() - i,
        {
            self.bytes.set(o + i, e[i]);
            i = i + 1;
        }
        assert(self.pixel(x as int, y as int) =~= t.encoded()) by {
            assert forall|k: int| 0 <= k < e.len() implies self.pixel(x as int, y as int)[k]
                == e[k] by {
                assert(self.bytes[o + k] == e[k]);
            }
        }
    }

    /// How many rows a row-by-row fill visits: the bytes cut into `stride`-long
    /// pieces, the last one possibly shorter, and none where rows are empty.
    pub open spec fn row_count(self) -> int {
        if self.stride == 0 {
            0
        } else {
            (self.bytes.len() + self.stride - 1) / self.stride as int
        }
    }

    /// The number of rows a row-by-row fill visits.
    pub fn rows(&self) -> (r: usize)
        ensures
            r == self.row_count(),
    {
        let stride: usize = self.stride as usize;
        if stride == 0 {
            return 0;
        }
        let full: usize = self.bytes.len() / stride;
        proof {
            let n = self.bytes.len() as int;
            let s = stride as int;
            vstd::arithmetic::div_mod::lemma_fundamental_div_mod(n, s);
            vstd::arithmetic::div_mod::lemma_mod_bound(n, s);
            lemma_quotient_bound(n, s);
            if n % s == 0 {
                vstd::arithmetic::div_mod::lemma_fundamental_div_mod_converse(
                    n + s - 1,
                    s,
                    n / s,
                    s - 1,
                );
            } else {
                assert(s * (n / s + 1) == s * (n / s) + s) by (nonlinear_arith);
                assert(s * (n / s) == (n / s) * s) by (nonlinear_arith);
                assert(s * (n / s + 1) == (n / s + 1) * s) by (nonlinear_arith);
                vstd::arithmetic::div_mod::lemma_fundamental_div_mod_converse(
                    n + s - 1,
                    s,
                    n / s + 1,
                    n % s - 1,
                );
                if s == 1 {
                    assert(n % s == 0);
                }
                assert(n / s < n) by (nonlinear_arith)
                    requires
                        n == s * (n / s) + n % s,
                        n % s > 0,
                        s >= 1,
                        n / s >= 0,
                ;
            }
        }
        if self.bytes.len() % stride == 0 {
            full
        } else {
            full + 1
        }
    }

    /// The byte range of row `y` in a row-by-row fill.
    pub fn row_range(&self, y: usize) -> (r: (usize, usize))
        requires
            y < self.row_count(),
        ensures
            r.0 == y * self.stride,
            r.1 == if (y + 1) * self.stride <= self.bytes.len() {
                (y + 1) * self.stride
            } else {
                self.bytes.len() as int
            },
            r.0 < r.1 <= self.bytes.len(),
    {
        let stride: usize = self.stride as usize;
        let len: usize = self.bytes.len();
        proof {
            lemma_row_starts_inside(y as int, len as int, stride as int);
            assert((y + 1) * stride == y * stride + stride) by (nonlinear_arith);
        }
        let start: usize = y * stride;
        let end: usize = if len - start < stride {
            len
        } else {
            start + stride
        };
        (start, end)
    }

    /// Pixel offsets are never negative.
    pub proof fn lemma_start_nonneg(self, x: int, y: int)
        requires
            0 <= x,
            0 <= y,
        ensures
            0 <= self.start(x, y),
    {
        assert(0 <= y * self.stride && 0 <= x * self.format.size()) by (nonlinear_arith)
            requires
                0 <= y,
                0 <= x,
                0 <= self.stride,
                0 <= self.format.size(),
        ;
    }

    /// A pixel inside the extent has its bytes in the buffer.
    pub proof fn lemma_inside(self, x: int, y: int)
        requires
            self.holds_extent(),
            self.inside(x, y),
        ensures
            0 <= self.start(x, y),
            self.start(x, y) + self.format.size() <= self.bytes.len(),
    {
        self.lemma_start_nonneg(x, y);
        let bpp = self.format.size();
        assert(y * self.stride <= (self.extent.h - 1) * self.stride) by (nonlinear_arith)
            requires
                0 <= y <= self.extent.h - 1,
                0 <= self.stride,
        ;
        assert(x * bpp + bpp <= self.extent.w * bpp) by (nonlinear_arith)
            requires
                0 <= x < self.extent.w,
                0 <= bpp,
        ;
    }
}

proof fn lemma_quotient_bound(n: int, s: int)
    requires
        0 <= n,
        0 < s,
    ensures
        0 <= n / s <= n,
{
    assert(0 <= n / s <= n) by (nonlinear_arith)
        requires
            0 <= n,
            0 < s,
    ;
}

proof fn lemma_row_starts_inside(y: int, len: int, stride: int)
    requires
        0 < stride,
        0 <= len,
        0 <= y < (len + stride - 1) / stride,
    ensures
        0 <= y * stride < len,
{
    let n = len + stride - 1;
    vstd::arithmetic::div_mod::lemma_fundamental_div_mod(n, stride);
    vstd::arithmetic::div_mod::lemma_mod_bound(n, stride);
    assert(0 <= y * stride < len) by (nonlinear_arith)
        requires
            n == stride * (n / stride) + n % stride,
            0 <= n % stride,
            0 <= y,
            y + 1 <= n / stride,
            n == len + stride - 1,
            0 < stride,
    ;
}

/// A tightly packed buffer holds its extent, wherever neither its row length
/// nor its byte count saturates.
pub proof fn law_zeroed_buffer_is_well_formed(b: PixelBuf)
    requires
        b.stride == PixelBuf::tight_stride(b.format, b.extent.w),
        b.bytes.len() == clamp(b.stride * b.extent.h, 0, usize::MAX as int),
        b.extent.w * b.format.size() <= u32::MAX,
        b.stride * b.extent.h <= usize::MAX,
    ensures
        b.well_formed(),
{
    assert(0 <= b.extent.w * b.format.size()) by (nonlinear_arith)
        requires
            0 <= b.extent.w,
            0 <= b.format.size(),
    ;
    if b.extent.h > 0 {
        assert((b.extent.h - 1) * b.stride + b.stride == b.stride * b.extent.h)
            by (nonlinear_arith);
    }
}

/// `after` is `before` with the bytes of pixel `(x, y)` replaced by those of `t`.
pub open spec fn stored(before: PixelBuf, after: PixelBuf, x: int, y: int, t: Texel) -> bool {
    &&& after.format == before.format
    &&& after.extent == before.extent
    &&& after.stride == before.stride
    &&& after.bytes.len() == before.bytes.len()
    &&& after.pixel(x, y) == t.encoded()
    &&& forall|i: int|
        0 <= i < before.bytes.len() && !(before.start(x, y) <= i < before.start(x, y)
            + before.format.size()) ==> #[trigger] after.bytes[i] == before.bytes[i]
}

/// Storing a pixel leaves every other pixel of a well-formed buffer alone.
pub proof fn law_storing_keeps_other_pixels(
    before: PixelBuf,
    after: PixelBuf,
    x: int,
    y: int,
    t: Texel,
    ox: int,
    oy: int,
)
    requires
        before.well_formed(),
        before.inside(x, y),
        before.inside(ox, oy),
        stored(before, after, x, y, t),
        (ox, oy) != (x, y),
    ensures
        after.pixel(ox, oy) == before.pixel(ox, oy),
{
    before.lemma_inside(x, y);
    before.lemma_inside(ox, oy);
    let bpp = before.format.size();
    let s = before.stride as int;
    assert(x * bpp + bpp <= before.extent.w * bpp) by (nonlinear_arith)
        requires
            0 <= x < before.extent.w,
            0 <= bpp,
    ;
    assert(ox * bpp + bpp <= before.extent.w * bpp) by (nonlinear_arith)
        requires
            0 <= ox < before.extent.w,
            0 <= bpp,
    ;
    assert(0 <= x * bpp && 0 <= ox * bpp) by (nonlinear_arith)
        requires
            0 <= x,
            0 <= ox,
            0 <= bpp,
    ;
    if y < oy {
        assert(y * s + s <= oy * s) by (nonlinear_arith)
            requires
                y + 1 <= oy,
                0 <= s,
        ;
    } else if oy < y {
        assert(oy * s + s <= y * s) by (nonlinear_arith)
            requires
                oy + 1 <= y,
                0 <= s,
        ;
    } else if ox < x {
        assert(ox * bpp + bpp <= x * bpp) by (nonlinear_arith)
            requires
                ox + 1 <= x,
                0 <= bpp,
        ;
    } else {
        assert(x * bpp + bpp <= ox * bpp) by (nonlinear_arith)
            requires
                x + 1 <= ox,
                0 <= bpp,
        ;
    }
    assert(after.pixel(ox, oy) =~= before.pixel(ox, oy));
}

/// Reading a stored pixel gives the lanes that were stored.
pub proof fn law_a_stored_pixel_reads_back(
    before: PixelBuf,
    after: PixelBuf,
    x: int,
    y: int,
    t: Texel,
    read: Texel,
)
    requires
        t.fits(before.format),
        stored(before, after, x, y, t),
        read.fits(after.format),
        read.encoded() == after.pixel(x, y),
    ensures
        read == t,
{
    lemma_encoded_injective(read, t, before.format);
}

/// No transfer function is applied: the two 8-bit encodings read alike, each
/// channel being the stored byte over 255.
pub proof fn law_8_bit_encodings_read_alike(p: PixelBuf, q: PixelBuf, x: int, y: int)
    requires
        p.format == PixelFormat::Rgba8Unorm,
        q.format == PixelFormat::Rgba8Srgb,
        p.bytes@ == q.bytes@,
        p.extent == q.extent,
        p.stride == q.stride,
        p.well_formed(),
        p.inside(x, y),
    ensures
        p.held(x, y).rgba() == q.held(x, y).rgba(),
        p.held(x, y).rgba() == Seq::new(
            4,
            |c: int| Lane::Unorm(p.bytes[y * p.stride + 4 * x + c]),
        ),
{
    p.lemma_inside(x, y);
    let b = p.pixel(x, y);
    let lanes: [u8; 4] = [b[0], b[1], b[2], b[3]];
    let t = Texel::Unorm8(lanes);
    assert(t.encoded() =~= b);
    assert(q.pixel(x, y) =~= b);
    p.lemma_held(x, y, t);
    q.lemma_held(x, y, t);
    assert(t.rgba() =~= Seq::new(4, |c: int| Lane::Unorm(p.bytes[y * p.stride + 4 * x + c])));
}

/// A mask weight reads as the same value in all three colours, opaque.
pub proof fn law_a_mask_weight_reads_as_opaque_gray(p: PixelBuf, x: int, y: int, v: u16)
    requires
        p.format == PixelFormat::R16F,
        p.well_formed(),
        p.inside(x, y),
        p.pixel(x, y) == le16(v),
    ensures
        p.held(x, y).rgba() == seq![Lane::Half(v), Lane::Half(v), Lane::Half(v), Lane::One],
{
    p.lemma_held(x, y, Texel::Half1(v));
}

/// Row pieces lie end to end and cover all bytes: row `y` ends where row
/// `y + 1` starts, and the last one ends with the buffer.
pub proof fn law_rows_cover_the_buffer(b: PixelBuf, i: int)
    requires
        b.stride > 0,
        0 <= i < b.bytes.len(),
    ensures
        0 <= i / b.stride as int,
        (i / b.stride as int) < b.row_count(),
        (i / b.stride as int) * b.stride <= i,
        i < (i / b.stride as int + 1) * b.stride,
{
    let s = b.stride as int;
    let n = b.bytes.len() as int;
    let m = n + s - 1;
    vstd::arithmetic::div_mod::lemma_fundamental_div_mod(i, s);
    vstd::arithmetic::div_mod::lemma_mod_bound(i, s);
    vstd::arithmetic::div_mod::lemma_fundamental_div_mod(m, s);
    vstd::arithmetic::div_mod::lemma_mod_bound(m, s);
    lemma_quotient_bound(i, s);
    assert((i / s) * s == s * (i / s) && (i / s + 1) * s == s * (i / s) + s) by (nonlinear_arith);
    assert(i / s < m / s) by (nonlinear_arith)
        requires
            i == s * (i / s) + i % s,
            0 <= i % s,
            m == s * (m / s) + m % s,
            m % s < s,
            m >= i + s,
            s > 0,
    ;
}

/// A step right is one pixel's bytes, a step down one stride, and the first pixel
/// is at the start. A pixel has one byte for each 8-bit channel, two for each
/// half and four for each single.
pub proof fn law_pixels_lie_one_after_the_other(p: PixelBuf, x: int, y: int)
    ensures
        p.start(0, 0) == 0,
        p.start(x, y + 1) == p.start(x, y) + p.stride,
        p.format is Rgba8Unorm || p.format is Rgba8Srgb ==> p.start(x + 1, y) == p.start(x, y) + 4,
        p.format is Rgba16F ==> p.start(x + 1, y) == p.start(x, y) + 8,
        p.format is Rgba32F ==> p.start(x + 1, y) == p.start(x, y) + 16,
        p.format is R16F ==> p.start(x + 1, y) == p.start(x, y) + 2,
{
    assert((y + 1) * p.stride == y * p.stride + p.stride) by (nonlinear_arith);
    assert((x + 1) * p.format.size() == x * p.format.size() + p.format.size()) by (nonlinear_arith);
}

/// Channels are stored in order, each least significant byte first.
pub proof fn law_channels_are_stored_in_order(t: Texel, c: int)
    requires
        0 <= c < 4,
    ensures
        t matches Texel::Unorm8(v) ==> t.encoded()[c] == v@[c] && t.rgba()[c] == Lane::Unorm(v@[c]),
        t matches Texel::Half4(v) ==> t.encoded()[2 * c] + 0x100 * t.encoded()[2 * c + 1] == v@[c]
            && t.rgba()[c] == Lane::Half(v@[c]),
        t matches Texel::Single4(v) ==> t.encoded()[4 * c] + 0x100 * t.encoded()[4 * c + 1]
            + 0x1_0000 * t.encoded()[4 * c + 2] + 0x100_0000 * t.encoded()[4 * c + 3] == v@[c]
            && t.rgba()[c] == Lane::Single(v@[c]),
        t matches Texel::Half1(v) ==> t.encoded()[0] + 0x100 * t.encoded()[1] == v,
        t.rgba().len() == 4,
{
    match t {
        Texel::Half4(v) => {
            crate::bytes::law_words_are_little_endian(v@[c], 0);
            assert(c == 0 || c == 1 || c == 2 || c == 3);
        },
        Texel::Single4(v) => {
            crate::bytes::law_words_are_little_endian(0, v@[c]);
            assert(c == 0 || c == 1 || c == 2 || c == 3);
        },
        Texel::Half1(v) => {
            crate::bytes::law_words_are_little_endian(v, 0);
        },
        _ => {},
    }
}

/// Which channels a pixel has is a matter of its encoding.
pub proof fn law_each_encoding_has_its_own_channels(t: Texel, format: PixelFormat)
    requires
        t.fits(format),
    ensures
        t is Unorm8 <==> format is Rgba8Unorm || format is Rgba8Srgb,
        t is Half4 <==> format is Rgba16F,
        t is Single4 <==> format is Rgba32F,
        t is Half1 <==> format is R16F,
        t.encoded().len() == format.size(),
{
    lemma_encoded_len(t, format);
}

/// A tight row is as long as its pixels, and stops growing at the largest length
/// that a stride can hold.
pub proof fn law_tight_rows_are_as_long_as_their_pixels(format: PixelFormat, w: u32)
    ensures
        w * format.size() <= u32::MAX ==> PixelBuf::tight_stride(format, w) == w * format.size(),
        w * format.size() > u32::MAX ==> PixelBuf::tight_stride(format, w) == u32::MAX,
{
    assert(0 <= w * format.size()) by (nonlinear_arith)
        requires
            0 <= w,
            0 <= format.size(),
    ;
}

} // verus!
