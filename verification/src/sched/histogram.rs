//! The 256-bin display histogram: the CPU reduction, the layout of the GPU
//! reduction's buffers, and the ring of readback slots.

use vstd::prelude::*;

use crate::bytes::bytes32;
use crate::bytes::le32;
use crate::bytes::le_words;
use crate::bytes::lemma_le32_injective;
use crate::bytes::read_u32_le;
use crate::sched::clip_overlay::highlight_clipped;
use crate::sched::clip_overlay::shadow_clipped;
use crate::tile::PixelBuf;
use crate::types::clamp;
use crate::types::lemma_row_major;
use crate::types::Extent;

verus! {

/// Bins per channel, one for each 8-bit value.
pub const NUM_BINS: usize = 256;

/// Bytes of the bins buffer: four planes of 32-bit counts.
pub const BINS_BYTES: usize = 4096;

/// Bytes of the clip buffer: the highlight and the shadow count.
pub const CLIP_BYTES: usize = 8;

/// Readback slots in the ring.
pub const RING: usize = 2;

/// Highlight and shadow clip mass, as pixel counts over the reduced frame.
#[derive(Clone, Copy, Debug, PartialEq, Eq, Structural)]
pub struct ClipStats {
    /// Pixels with a channel at 255.
    pub highlight_clipped: u32,
    /// Pixels with a channel at 0.
    pub shadow_clipped: u32,
    /// Total pixels reduced.
    pub total_pixels: u32,
}

/// The reduced histogram: four planes plus [`ClipStats`].
#[derive(Clone, Debug, PartialEq, Eq)]
pub struct HistogramData {
    /// Red channel.
    pub r: [u32; 256],
    /// Green channel.
    pub g: [u32; 256],
    /// Blue channel.
    pub b: [u32; 256],
    /// Luma.
    pub luma: [u32; 256],
    /// Clip mass over the same reduction.
    pub clip: ClipStats,
}

impl Default for ClipStats {
    fn default() -> (r: ClipStats)
        ensures
            r == (ClipStats { highlight_clipped: 0, shadow_clipped: 0, total_pixels: 0 }),
    {
        ClipStats { highlight_clipped: 0, shadow_clipped: 0, total_pixels: 0 }
    }
}

impl Default for HistogramData {
    fn default() -> (r: HistogramData)
        ensures
            forall|v: int| 0 <= v < 256 ==> #[trigger] r.r@[v] == 0,
            forall|v: int| 0 <= v < 256 ==> #[trigger] r.g@[v] == 0,
            forall|v: int| 0 <= v < 256 ==> #[trigger] r.b@[v] == 0,
            forall|v: int| 0 <= v < 256 ==> #[trigger] r.luma@[v] == 0,
            r.clip == (ClipStats { highlight_clipped: 0, shadow_clipped: 0, total_pixels: 0 }),
    {
        HistogramData {
            r: [0; 256],
            g: [0; 256],
            b: [0; 256],
            luma: [0; 256],
            clip: ClipStats::default(),
        }
    }
}

/// The Rec. 709 luma of a texel in fixed point: weights 54, 183 and 19 over
/// 256, rounded down.
pub open spec fn luma_of(r: u8, g: u8, b: u8) -> int {
    (r * 54 + g * 183 + b * 19) / 256
}

/// The luma bin of a texel.
pub fn luma_bin(r: u8, g: u8, b: u8) -> (bin: u8)
    ensures
        bin == luma_of(r, g, b),
{
    let sum: u32 = r as u32 * 54 + g as u32 * 183 + b as u32 * 19;
    (sum / 256) as u8
}

/// The `k`-th pixel of a buffer, row by row.
pub open spec fn nth_pixel(p: PixelBuf, k: int) -> Seq<u8> {
    p.pixel(k % p.extent.w as int, k / p.extent.w as int)
}

/// How many of the first `n` pixels satisfy `f`.
pub open spec fn tally(p: PixelBuf, n: int, f: spec_fn(Seq<u8>) -> bool) -> int
    decreases n,
{
    if n <= 0 {
        0
    } else {
        tally(p, n - 1, f) + if f(nth_pixel(p, n - 1)) {
            1int
        } else {
            0
        }
    }
}

/// Whether a pixel's red is `v`.
pub open spec fn red_is(v: int) -> spec_fn(Seq<u8>) -> bool {
    |q: Seq<u8>| q[0] == v
}

/// Whether a pixel's green is `v`.
pub open spec fn green_is(v: int) -> spec_fn(Seq<u8>) -> bool {
    |q: Seq<u8>| q[1] == v
}

/// Whether a pixel's blue is `v`.
pub open spec fn blue_is(v: int) -> spec_fn(Seq<u8>) -> bool {
    |q: Seq<u8>| q[2] == v
}

/// Whether a pixel's luma is `v`.
pub open spec fn luma_is(v: int) -> spec_fn(Seq<u8>) -> bool {
    |q: Seq<u8>| luma_of(q[0], q[1], q[2]) == v
}

/// Whether a pixel is highlight-clipped.
pub open spec fn is_highlight() -> spec_fn(Seq<u8>) -> bool {
    |q: Seq<u8>| highlight_clipped(q[0], q[1], q[2])
}

/// Whether a pixel is shadow-clipped.
pub open spec fn is_shadow() -> spec_fn(Seq<u8>) -> bool {
    |q: Seq<u8>| shadow_clipped(q[0], q[1], q[2])
}

/// `d` counts the first `n` pixels of `p`.
pub open spec fn counts(d: HistogramData, p: PixelBuf, n: int) -> bool {
    &&& forall|v: int| 0 <= v < 256 ==> #[trigger] d.r@[v] == tally(p, n, red_is(v))
    &&& forall|v: int| 0 <= v < 256 ==> #[trigger] d.g@[v] == tally(p, n, green_is(v))
    &&& forall|v: int| 0 <= v < 256 ==> #[trigger] d.b@[v] == tally(p, n, blue_is(v))
    &&& forall|v: int| 0 <= v < 256 ==> #[trigger] d.luma@[v] == tally(p, n, luma_is(v))
    &&& d.clip.highlight_clipped == tally(p, n, is_highlight())
    &&& d.clip.shadow_clipped == tally(p, n, is_shadow())
    &&& d.clip.total_pixels == n
}

proof fn lemma_tally_bound(p: PixelBuf, n: int, f: spec_fn(Seq<u8>) -> bool)
    requires
        0 <= n,
    ensures
        0 <= tally(p, n, f) <= n,
    decreases n,
{
    if n > 0 {
        lemma_tally_bound(p, n - 1, f);
    }
}

/// Counts one more pixel in a plane.
fn bump(plane: &mut [u32; 256], v: u8)
    requires
        old(plane)@[v as int] < u32::MAX,
    ensures
        final(plane)@ == old(plane)@.update(v as int, (old(plane)@[v as int] + 1) as u32),
{
    let count: u32 = plane[v as usize] + 1;
    plane[v as usize] = count;
}

/// The histogram of a 4-byte-per-pixel buffer, from its raw 8-bit channel
/// bytes.
pub fn histogram_cpu(pixels: &PixelBuf) -> (data: HistogramData)
    requires
        pixels.format.size() == 4,
        pixels.holds_extent(),
        pixels.extent.w * pixels.extent.h <= u32::MAX,
    ensures
        counts(data, *pixels, pixels.extent.w * pixels.extent.h),
{
    let mut data: HistogramData = HistogramData::default();
    let w: u32 = pixels.extent.w;
    let h: u32 = pixels.extent.h;
    let mut y: u32 = 0;
    proof {
        assert(0 * w == 0);
        assert(counts(data, *pixels, 0));
    }
    while y < h
        invariant
            y <= h,
            w == pixels.extent.w,
            h == pixels.extent.h,
            w * h <= u32::MAX,
            pixels.format.size() == 4,
            pixels.holds_extent(),
            counts(data, *pixels, y * w),
        decreases h - y,
    {
        let mut x: u32 = 0;
        while x < w
            invariant
                x <= w,
                y < h,
                w == pixels.extent.w,
                h == pixels.extent.h,
                w * h <= u32::MAX,
                pixels.format.size() == 4,
                pixels.holds_extent(),
                counts(data, *pixels, y * w + x),
            decreases w - x,
        {
            proof {
                pixels.lemma_inside(x as int, y as int);
                assert(0 <= y * w + x < w * h) by (nonlinear_arith)
                    requires
                        0 <= x < w,
                        0 <= y < h,
                ;
            }
            let o: usize = pixels.offset(x, y);
            let r: u8 = pixels.bytes[o];
            let g: u8 = pixels.bytes[o + 1];
            let b: u8 = pixels.bytes[o + 2];
            let luma: u8 = luma_bin(r, g, b);
            let ghost n = y * w + x;
            let ghost before = data;
            let ghost q = nth_pixel(*pixels, n);
            proof {
                lemma_row_major(y as int, x as int, w as int);
                assert(q == pixels.pixel(x as int, y as int));
                assert(q[0] == r && q[1] == g && q[2] == b);
                lemma_tally_bound(*pixels, n, red_is(r as int));
                lemma_tally_bound(*pixels, n, green_is(g as int));
                lemma_tally_bound(*pixels, n, blue_is(b as int));
                lemma_tally_bound(*pixels, n, luma_is(luma as int));
                lemma_tally_bound(*pixels, n, is_highlight());
                lemma_tally_bound(*pixels, n, is_shadow());
            }
            bump(&mut data.r, r);
            bump(&mut data.g, g);
            bump(&mut data.b, b);
            bump(&mut data.luma, luma);
            if r == 255 || g == 255 || b == 255 {
                data.clip.highlight_clipped = data.clip.highlight_clipped + 1;
            }
            if r == 0 || g == 0 || b == 0 {
                data.clip.shadow_clipped = data.clip.shadow_clipped + 1;
            }
            data.clip.total_pixels = data.clip.total_pixels + 1;
            proof {
                assert forall|v: int| 0 <= v < 256 implies #[trigger] data.r@[v] == tally(
                    *pixels,
                    n + 1,
                    red_is(v),
                ) by {
                    assert(before.r@[v] == tally(*pixels, n, red_is(v)));
                    assert(red_is(v)(q) == (r == v));
                }
                assert forall|v: int| 0 <= v < 256 implies #[trigger] data.g@[v] == tally(
                    *pixels,
                    n + 1,
                    green_is(v),
                ) by {
                    assert(before.g@[v] == tally(*pixels, n, green_is(v)));
                    assert(green_is(v)(q) == (g == v));
                }
                assert forall|v: int| 0 <= v < 256 implies #[trigger] data.b@[v] == tally(
                    *pixels,
                    n + 1,
                    blue_is(v),
                ) by {
                    assert(before.b@[v] == tally(*pixels, n, blue_is(v)));
                    assert(blue_is(v)(q) == (b == v));
                }
                assert forall|v: int| 0 <= v < 256 implies #[trigger] data.luma@[v] == tally(
                    *pixels,
                    n + 1,
                    luma_is(v),
                ) by {
                    assert(before.luma@[v] == tally(*pixels, n, luma_is(v)));
                    assert(luma_is(v)(q) == (luma == v));
                }
                assert(is_highlight()(q) == highlight_clipped(r, g, b));
                assert(is_shadow()(q) == shadow_clipped(r, g, b));
            }
            x = x + 1;
        }
        proof {
            assert((y + 1) * w == y * w + w) by (nonlinear_arith);
        }
        y = y + 1;
    }
    proof {
        assert(h * w == w * h) by (nonlinear_arith);
    }
    data
}

/// The sum of the first `n` counts of a plane.
pub open spec fn plane_sum(plane: Seq<u32>, n: int) -> int
    decreases n,
{
    if n <= 0 {
        0
    } else {
        plane_sum(plane, n - 1) + plane[n - 1]
    }
}

/// Whether a feature of a pixel takes the value `v`.
spec fn takes(feature: spec_fn(Seq<u8>) -> int, v: int) -> spec_fn(Seq<u8>) -> bool {
    |q: Seq<u8>| feature(q) == v
}

/// The tallies of the values below `n` that a feature of the pixels takes.
spec fn feature_sum(p: PixelBuf, k: int, feature: spec_fn(Seq<u8>) -> int, n: int) -> int
    decreases n,
{
    if n <= 0 {
        0
    } else {
        feature_sum(p, k, feature, n - 1) + tally(p, k, takes(feature, n - 1))
    }
}

proof fn lemma_feature_sum_step(p: PixelBuf, k: int, feature: spec_fn(Seq<u8>) -> int, n: int)
    requires
        0 < k,
        0 <= n,
        0 <= feature(nth_pixel(p, k - 1)),
    ensures
        feature_sum(p, k, feature, n) == feature_sum(p, k - 1, feature, n) + if feature(
            nth_pixel(p, k - 1),
        ) < n {
            1int
        } else {
            0
        },
    decreases n,
{
    if n > 0 {
        lemma_feature_sum_step(p, k, feature, n - 1);
    }
}

proof fn lemma_feature_sum(p: PixelBuf, k: int, feature: spec_fn(Seq<u8>) -> int, n: int)
    requires
        0 <= k,
        0 <= n,
        forall|q: Seq<u8>| 0 <= #[trigger] feature(q) < n,
    ensures
        feature_sum(p, k, feature, n) == k,
    decreases k,
{
    if k > 0 {
        lemma_feature_sum(p, k - 1, feature, n);
        lemma_feature_sum_step(p, k, feature, n);
    } else {
        lemma_feature_sum_empty(p, feature, n);
    }
}

proof fn lemma_feature_sum_empty(p: PixelBuf, feature: spec_fn(Seq<u8>) -> int, n: int)
    requires
        0 <= n,
    ensures
        feature_sum(p, 0, feature, n) == 0,
    decreases n,
{
    if n > 0 {
        lemma_feature_sum_empty(p, feature, n - 1);
    }
}

proof fn lemma_tally_congruent(
    p: PixelBuf,
    k: int,
    f: spec_fn(Seq<u8>) -> bool,
    g: spec_fn(Seq<u8>) -> bool,
)
    requires
        forall|q: Seq<u8>| #[trigger] f(q) == g(q),
    ensures
        tally(p, k, f) == tally(p, k, g),
    decreases k,
{
    if k > 0 {
        lemma_tally_congruent(p, k - 1, f, g);
        assert(f(nth_pixel(p, k - 1)) == g(nth_pixel(p, k - 1)));
    }
}

proof fn lemma_plane_sum(
    p: PixelBuf,
    k: int,
    plane: Seq<u32>,
    feature: spec_fn(Seq<u8>) -> int,
    n: int,
)
    requires
        0 <= n <= plane.len(),
        forall|v: int|
            0 <= v < plane.len() ==> #[trigger] plane[v] == tally(p, k, takes(feature, v)),
    ensures
        plane_sum(plane, n) == feature_sum(p, k, feature, n),
    decreases n,
{
    if n > 0 {
        lemma_plane_sum(p, k, plane, feature, n - 1);
        assert(plane[n - 1] == tally(p, k, takes(feature, n - 1)));
    }
}

/// Every pixel falls into exactly one bin of each plane: each plane's counts
/// add up to the number of pixels.
pub proof fn law_every_plane_counts_every_pixel(d: HistogramData, p: PixelBuf, n: int)
    requires
        0 <= n,
        counts(d, p, n),
    ensures
        plane_sum(d.r@, 256) == n,
        plane_sum(d.g@, 256) == n,
        plane_sum(d.b@, 256) == n,
        plane_sum(d.luma@, 256) == n,
        d.clip.highlight_clipped <= n,
        d.clip.shadow_clipped <= n,
{
    let red = |q: Seq<u8>| q[0] as int;
    let green = |q: Seq<u8>| q[1] as int;
    let blue = |q: Seq<u8>| q[2] as int;
    let luma = |q: Seq<u8>| luma_of(q[0], q[1], q[2]);
    assert forall|v: int| 0 <= v < 256 implies #[trigger] d.r@[v] == tally(
        p,
        n,
        takes(red, v),
    ) by {
        lemma_tally_congruent(p, n, red_is(v), takes(red, v));
    }
    assert forall|v: int| 0 <= v < 256 implies #[trigger] d.g@[v] == tally(
        p,
        n,
        takes(green, v),
    ) by {
        lemma_tally_congruent(p, n, green_is(v), takes(green, v));
    }
    assert forall|v: int| 0 <= v < 256 implies #[trigger] d.b@[v] == tally(
        p,
        n,
        takes(blue, v),
    ) by {
        lemma_tally_congruent(p, n, blue_is(v), takes(blue, v));
    }
    assert forall|v: int| 0 <= v < 256 implies #[trigger] d.luma@[v] == tally(
        p,
        n,
        takes(luma, v),
    ) by {
        lemma_tally_congruent(p, n, luma_is(v), takes(luma, v));
    }
    lemma_plane_sum(p, n, d.r@, red, 256);
    lemma_plane_sum(p, n, d.g@, green, 256);
    lemma_plane_sum(p, n, d.b@, blue, 256);
    lemma_plane_sum(p, n, d.luma@, luma, 256);
    lemma_feature_sum(p, n, red, 256);
    lemma_feature_sum(p, n, green, 256);
    lemma_feature_sum(p, n, blue, 256);
    lemma_feature_sum(p, n, luma, 256);
    lemma_tally_bound(p, n, is_highlight());
    lemma_tally_bound(p, n, is_shadow());
}

/// The luma weights add up to the full range: a gray texel's luma is its
/// value.
pub proof fn law_luma_of_gray(v: u8)
    ensures
        luma_of(v, v, v) == v,
{
}

/// The GPU reduction's parameter block.
#[derive(Clone, Copy, Debug, PartialEq, Eq, Structural)]
pub struct GpuParams {
    /// Frame width.
    pub width: u32,
    /// Frame height.
    pub height: u32,
}

impl GpuParams {
    /// The block's sixteen bytes: width, height, and two words of padding.
    pub fn to_bytes(&self) -> (r: [u8; 16])
        ensures
            r@ == le32(self.width) + le32(self.height) + Seq::new(8, |i: int| 0u8),
    {
        let w: [u8; 4] = bytes32(self.width);
        let h: [u8; 4] = bytes32(self.height);
        let r: [u8; 16] = [
            w[0],
            w[1],
            w[2],
            w[3],
            h[0],
            h[1],
            h[2],
            h[3],
            0,
            0,
            0,
            0,
            0,
            0,
            0,
            0,
        ];
        assert(r@ =~= w@ + h@ + Seq::new(8, |i: int| 0u8));
        r
    }
}

/// The 16-by-16 workgroups that cover a frame, at least one each way.
pub fn workgroups(extent: Extent) -> (r: (u32, u32))
    ensures
        r.0 == if extent.w == 0 { 1 } else { (extent.w + 15) / 16 },
        r.1 == if extent.h == 0 { 1 } else { (extent.h + 15) / 16 },
        16 * r.0 >= extent.w && 16 * r.1 >= extent.h,
        r.0 >= 1 && r.1 >= 1,
        r.0 > 1 ==> 16 * (r.0 - 1) < extent.w,
        r.1 > 1 ==> 16 * (r.1 - 1) < extent.h,
{
    (groups(extent.w), groups(extent.h))
}

fn groups(n: u32) -> (r: u32)
    ensures
        r == if n == 0 { 1 } else { (n + 15) / 16 },
{
    if n == 0 {
        1
    } else if n % 16 == 0 {
        n / 16
    } else {
        n / 16 + 1
    }
}

/// The words that the GPU reduction leaves behind: the four planes, then the
/// two clip counts.
pub open spec fn readback_words(d: HistogramData) -> Seq<u32> {
    d.r@ + d.g@ + d.b@ + d.luma@ + seq![d.clip.highlight_clipped, d.clip.shadow_clipped]
}

/// Decodes the mapped readback bytes (bins, then clip counts); `total_pixels`
/// is the reduced frame's pixel count.
pub fn decode(mapped: &[u8], total_pixels: u32) -> (data: HistogramData)
    requires
        mapped.len() >= BINS_BYTES + CLIP_BYTES,
    ensures
        le_words(readback_words(data)) == mapped@.take(BINS_BYTES + CLIP_BYTES),
        data.clip.total_pixels == total_pixels,
{
    let mut data: HistogramData = HistogramData::default();
    let mut i: usize = 0;
    while i < NUM_BINS
        invariant
            i <= NUM_BINS,
            mapped.len() >= BINS_BYTES + CLIP_BYTES,
            forall|k: int|
                0 <= k < i ==> le32(#[trigger] data.r@[k]) == mapped@.subrange(4 * k, 4 * k + 4),
            forall|k: int|
                0 <= k < i ==> le32(#[trigger] data.g@[k]) == mapped@.subrange(
                    4 * (256 + k),
                    4 * (256 + k) + 4,
                ),
            forall|k: int|
                0 <= k < i ==> le32(#[trigger] data.b@[k]) == mapped@.subrange(
                    4 * (512 + k),
                    4 * (512 + k) + 4,
                ),
            forall|k: int|
                0 <= k < i ==> le32(#[trigger] data.luma@[k]) == mapped@.subrange(
                    4 * (768 + k),
                    4 * (768 + k) + 4,
                ),
        decreases NUM_BINS - i,
    {
        data.r[i] = read_u32_le(mapped, i);
        data.g[i] = read_u32_le(mapped, NUM_BINS + i);
        data.b[i] = read_u32_le(mapped, 2 * NUM_BINS + i);
        data.luma[i] = read_u32_le(mapped, 3 * NUM_BINS + i);
        i = i + 1;
    }
    data.clip = ClipStats {
        highlight_clipped: read_u32_le(mapped, BINS_BYTES / 4),
        shadow_clipped: read_u32_le(mapped, BINS_BYTES / 4 + 1),
        total_pixels,
    };
    proof {
        let words = readback_words(data);
        assert(words.len() == 1026);
        assert forall|k: int| 0 <= k < 1026 implies le32(#[trigger] words[k]) == mapped@.subrange(
            4 * k,
            4 * k + 4,
        ) by {
            if k < 256 {
                assert(words[k] == data.r@[k]);
            } else if k < 512 {
                assert(words[k] == data.g@[k - 256]);
            } else if k < 768 {
                assert(words[k] == data.b@[k - 512]);
            } else if k < 1024 {
                assert(words[k] == data.luma@[k - 768]);
            } else if k == 1024 {
                assert(words[k] == data.clip.highlight_clipped);
            } else {
                assert(words[k] == data.clip.shadow_clipped);
            }
        }
        assert forall|j: int| 0 <= j < 4104 implies le_words(words)[j] == mapped@[j] by {
            let k = j / 4;
            assert(le32(words[k]) == mapped@.subrange(4 * k, 4 * k + 4));
            assert(le32(words[k])[j % 4] == mapped@[4 * k + j % 4]);
        }
        assert(le_words(words) =~= mapped@.take(4104));
    }
    data
}

/// Decoding gives back exactly the histogram whose words were written.
pub proof fn law_decode_inverts_the_readback_layout(
    written: HistogramData,
    mapped: Seq<u8>,
    read: HistogramData,
)
    requires
        mapped.len() >= BINS_BYTES + CLIP_BYTES,
        le_words(readback_words(written)) == mapped.take(BINS_BYTES + CLIP_BYTES),
        le_words(readback_words(read)) == mapped.take(BINS_BYTES + CLIP_BYTES),
        read.clip.total_pixels == written.clip.total_pixels,
    ensures
        read.r@ == written.r@,
        read.g@ == written.g@,
        read.b@ == written.b@,
        read.luma@ == written.luma@,
        read.clip == written.clip,
{
    let a = readback_words(read);
    let b = readback_words(written);
    assert forall|k: int| 0 <= k < 1026 implies #[trigger] a[k] == b[k] by {
        assert forall|j: int| 0 <= j < 4 implies le32(a[k])[j] == le32(b[k])[j] by {
            assert((4 * k + j) / 4 == k && (4 * k + j) % 4 == j);
            assert(le_words(a)[4 * k + j] == le_words(b)[4 * k + j]);
        }
        assert(le32(a[k]) =~= le32(b[k]));
        lemma_le32_injective(a[k], b[k]);
    }
    assert forall|k: int| 0 <= k < 256 implies read.r@[k] == written.r@[k] by {
        assert(a[k] == b[k]);
    }
    assert forall|k: int| 0 <= k < 256 implies read.g@[k] == written.g@[k] by {
        assert(a[256 + k] == b[256 + k]);
    }
    assert forall|k: int| 0 <= k < 256 implies read.b@[k] == written.b@[k] by {
        assert(a[512 + k] == b[512 + k]);
    }
    assert forall|k: int| 0 <= k < 256 implies read.luma@[k] == written.luma@[k] by {
        assert(a[768 + k] == b[768 + k]);
    }
    assert(a[1024] == b[1024]);
    assert(a[1025] == b[1025]);
    assert(read.r@ =~= written.r@);
    assert(read.g@ =~= written.g@);
    assert(read.b@ =~= written.b@);
    assert(read.luma@ =~= written.luma@);
}

/// One readback slot's bookkeeping.
#[derive(Clone, Copy, Debug, PartialEq, Eq, Structural)]
pub struct SlotState {
    /// A reduction was dispatched and not collected yet.
    pub busy: bool,
    /// The dispatch's generation.
    pub generation: u64,
    /// The frame it reduces.
    pub extent: Extent,
}

/// What collecting a slot gave.
#[derive(Clone, Copy, Debug, PartialEq, Eq, Structural)]
pub struct Collected {
    /// The slot, now free.
    pub slot: usize,
    /// The generation it was dispatched as.
    pub generation: u64,
    /// The reduced frame's pixel count.
    pub total_pixels: u32,
}

/// The ring of readback slots: a dispatch takes a free slot or is skipped, and
/// a collection frees the newest slot that is ready.
pub struct HistogramRing {
    slots: Vec<SlotState>,
    next_generation: u64,
}

impl HistogramRing {
    /// The slots' bookkeeping.
    pub closed spec fn slots(&self) -> Seq<SlotState> {
        self.slots@
    }

    /// The generation dispatched last.
    pub closed spec fn dispatched(&self) -> u64 {
        self.next_generation
    }

    /// The ring has its slots, and busy slots have different generations, none
    /// past the last.
    pub open spec fn well_formed(&self) -> bool {
        &&& self.slots().len() == RING
        &&& forall|i: int|
            0 <= i < self.slots().len() ==> (#[trigger] self.slots()[i]).generation
                <= self.dispatched()
        &&& forall|i: int, j: int|
            0 <= i < j < self.slots().len() && (#[trigger] self.slots()[i]).busy && (
            #[trigger] self.slots()[j]).busy ==> self.slots()[i].generation
                != self.slots()[j].generation
    }

    /// A ring with every slot free.
    pub fn new() -> (r: HistogramRing)
        ensures
            r.well_formed(),
            r.dispatched() == 0,
            forall|i: int| 0 <= i < RING ==> !(#[trigger] r.slots()[i]).busy,
    {
        let free = SlotState { busy: false, generation: 0, extent: Extent { w: 0, h: 0 } };
        let mut slots: Vec<SlotState> = Vec::new();
        slots.push(free);
        slots.push(free);
        HistogramRing { slots, next_generation: 0 }
    }

    /// The first free slot, or `None` when every slot is still busy.
    pub fn free_slot(&self) -> (r: Option<usize>)
        ensures
            match r {
                Some(i) => {
                    &&& i < self.slots().len()
                    &&& !self.slots()[i as int].busy
                    &&& forall|j: int| 0 <= j < i ==> (#[trigger] self.slots()[j]).busy
                },
                None => forall|j: int|
                    0 <= j < self.slots().len() ==> (#[trigger] self.slots()[j]).busy,
            },
    {
        let mut i: usize = 0;
        while i < self.slots.len()
            invariant
                i <= self.slots.len(),
                forall|j: int| 0 <= j < i ==> (#[trigger] self.slots()[j]).busy,
            decreases self.slots.len() - i,
        {
            if !self.slots[i].busy {
                return Some(i);
            }
            i = i + 1;
        }
        None
    }

    /// Takes a free slot for a frame of the given extent; returns the new
    /// generation.
    pub fn claim(&mut self, slot: usize, extent: Extent) -> (r: u64)
        requires
            old(self).well_formed(),
            slot < old(self).slots().len(),
            !old(self).slots()[slot as int].busy,
            old(self).dispatched() < u64::MAX,
        ensures
            final(self).well_formed(),
            r == old(self).dispatched() + 1,
            final(self).dispatched() == r,
            final(self).slots() == old(self).slots().update(
                slot as int,
                SlotState { busy: true, generation: r, extent },
            ),
    {
        self.next_generation = self.next_generation + 1;
        self.slots.set(slot, SlotState { busy: true, generation: self.next_generation, extent });
        self.next_generation
    }

    /// Whether slot `i` waits to be collected and its readback has arrived.
    pub open spec fn collectable(&self, ready: Seq<bool>, i: int) -> bool {
        0 <= i < self.slots().len() && self.slots()[i].busy && ready[i]
    }

    /// Frees the newest busy slot whose readback is ready, or does nothing when
    /// there is none. The pixel count saturates.
    pub fn collect(&mut self, ready: &[bool]) -> (r: Option<Collected>)
        requires
            old(self).well_formed(),
            ready.len() == RING,
        ensures
            final(self).well_formed(),
            final(self).dispatched() == old(self).dispatched(),
            match r {
                Some(c) => {
                    let s = old(self).slots()[c.slot as int];
                    &&& old(self).collectable(ready@, c.slot as int)
                    &&& forall|i: int| #[trigger]
                        old(self).collectable(ready@, i) ==> old(self).slots()[i].generation
                            <= s.generation
                    &&& c.generation == s.generation
                    &&& c.total_pixels == clamp(s.extent.w * s.extent.h, 0, u32::MAX as int)
                    &&& final(self).slots() == old(self).slots().update(
                        c.slot as int,
                        SlotState { busy: false, ..s },
                    )
                },
                None => {
                    &&& forall|i: int| !(#[trigger] old(self).collectable(ready@, i))
                    &&& final(self).slots() == old(self).slots()
                },
            },
    {
        let mut best: Option<usize> = None;
        let mut i: usize = 0;
        while i < self.slots.len()
            invariant
                i <= self.slots.len(),
                self.slots.len() == RING,
                ready.len() == RING,
                match best {
                    Some(b) => {
                        &&& b < i
                        &&& self.collectable(ready@, b as int)
                        &&& forall|k: int|
                            k < i && #[trigger] self.collectable(ready@, k)
                                ==> self.slots()[k].generation <= self.slots()[b as int].generation
                    },
                    None => forall|k: int| k < i ==> !(#[trigger] self.collectable(ready@, k)),
                },
            decreases self.slots.len() - i,
        {
            if self.slots[i].busy && ready[i] {
                match best {
                    Some(b) => {
                        if self.slots[i].generation >= self.slots[b].generation {
                            best = Some(i);
                        }
                    },
                    None => {
                        best = Some(i);
                    },
                }
            }
            i = i + 1;
        }
        match best {
            Some(b) => {
                let s: SlotState = self.slots[b];
                self.slots.set(b, SlotState { busy: false, generation: s.generation, extent: s.extent });
                proof {
                    assert(s.extent.w * s.extent.h <= 0xffff_ffff * 0xffff_ffff && 0 <= s.extent.w
                        * s.extent.h) by (nonlinear_arith)
                        requires
                            0 <= s.extent.w <= 0xffff_ffff,
                            0 <= s.extent.h <= 0xffff_ffff,
                    ;
                }
                let area: u64 = s.extent.w as u64 * s.extent.h as u64;
                let total_pixels: u32 = if area > 0xffff_ffff {
                    0xffff_ffff
                } else {
                    area as u32
                };
                Some(Collected { slot: b, generation: s.generation, total_pixels })
            },
            None => None,
        }
    }
}

/// Before any pixel every count is zero.
pub proof fn law_nothing_is_counted_at_first(d: HistogramData, p: PixelBuf, v: int)
    requires
        counts(d, p, 0),
        0 <= v < 256,
    ensures
        d.r@[v] == 0,
        d.g@[v] == 0,
        d.b@[v] == 0,
        d.luma@[v] == 0,
        d.clip.highlight_clipped == 0,
        d.clip.shadow_clipped == 0,
        d.clip.total_pixels == 0,
{
}

/// Each pixel counts once, for what it is: one more pixel, the next one row by
/// row, raises the bin of its own red, green and blue byte by one and no other,
/// and the highlight (shadow) count by one exactly if any one of its colour
/// channels is at 255 (at 0).
pub proof fn law_each_pixel_counts_for_what_it_is(
    before: HistogramData,
    after: HistogramData,
    p: PixelBuf,
    x: int,
    y: int,
    v: int,
)
    requires
        0 <= x < p.extent.w,
        0 <= y,
        p.format.size() == 4,
        counts(before, p, y * p.extent.w + x),
        counts(after, p, y * p.extent.w + x + 1),
        0 <= v < 256,
    ensures
        ({
            let q = p.pixel(x, y);
            &&& after.r@[v] - before.r@[v] == if q[0] == v { 1int } else { 0 }
            &&& after.g@[v] - before.g@[v] == if q[1] == v { 1int } else { 0 }
            &&& after.b@[v] - before.b@[v] == if q[2] == v { 1int } else { 0 }
            &&& after.luma@[v] - before.luma@[v] == if 256 * v <= 54 * q[0] + 183 * q[1] + 19 * q[2]
                < 256 * (v + 1) { 1int } else { 0 }
            &&& after.clip.highlight_clipped - before.clip.highlight_clipped == if exists|c: int|
                0 <= c < 3 && #[trigger] q[c] == 255 { 1int } else { 0 }
            &&& after.clip.shadow_clipped - before.clip.shadow_clipped == if exists|c: int|
                0 <= c < 3 && #[trigger] q[c] == 0 { 1int } else { 0 }
            &&& after.clip.total_pixels == before.clip.total_pixels + 1
        }),
{
    let n = y * p.extent.w + x;
    let q = p.pixel(x, y);
    lemma_row_major(y, x, p.extent.w as int);
    assert(nth_pixel(p, n) == q);
    assert(after.r@[v] == tally(p, n + 1, red_is(v)) && before.r@[v] == tally(p, n, red_is(v)));
    assert(after.g@[v] == tally(p, n + 1, green_is(v)) && before.g@[v] == tally(p, n, green_is(v)));
    assert(after.b@[v] == tally(p, n + 1, blue_is(v)) && before.b@[v] == tally(p, n, blue_is(v)));
    assert(after.luma@[v] == tally(p, n + 1, luma_is(v)) && before.luma@[v] == tally(
        p,
        n,
        luma_is(v),
    ));
    assert(red_is(v)(q) == (q[0] == v));
    assert(green_is(v)(q) == (q[1] == v));
    assert(blue_is(v)(q) == (q[2] == v));
    assert(luma_is(v)(q) == (luma_of(q[0], q[1], q[2]) == v));
    assert(is_highlight()(q) == highlight_clipped(q[0], q[1], q[2]));
    assert(is_shadow()(q) == shadow_clipped(q[0], q[1], q[2]));
    assert(q[0] == 255 || q[1] == 255 || q[2] == 255 <==> exists|c: int|
        0 <= c < 3 && #[trigger] q[c] == 255);
    assert(q[0] == 0 || q[1] == 0 || q[2] == 0 <==> exists|c: int|
        0 <= c < 3 && #[trigger] q[c] == 0);
}

/// A texel's luma bin is where its weighted sum falls on the 256-step scale, and
/// so never falls when a channel rises.
pub proof fn law_luma_rises_with_every_channel(r: u8, g: u8, b: u8, r2: u8, g2: u8, b2: u8)
    ensures
        256 * luma_of(r, g, b) <= 54 * r + 183 * g + 19 * b < 256 * (luma_of(r, g, b) + 1),
        0 <= luma_of(r, g, b) < 256,
        r <= r2 && g <= g2 && b <= b2 ==> luma_of(r, g, b) <= luma_of(r2, g2, b2),
{
}

/// A readback holds the red, green, blue and luma bins one plane after the
/// other, then the highlight and the shadow count, each as four bytes, least
/// significant first.
pub proof fn law_a_readback_is_read_plane_by_plane(mapped: Seq<u8>, d: HistogramData, v: int)
    requires
        mapped.len() >= 4104,
        le_words(readback_words(d)) == mapped.take(BINS_BYTES + CLIP_BYTES),
        0 <= v < 256,
    ensures
        mapped.subrange(4 * v, 4 * v + 4) == le32(d.r@[v]),
        mapped.subrange(1024 + 4 * v, 1024 + 4 * v + 4) == le32(d.g@[v]),
        mapped.subrange(2048 + 4 * v, 2048 + 4 * v + 4) == le32(d.b@[v]),
        mapped.subrange(3072 + 4 * v, 3072 + 4 * v + 4) == le32(d.luma@[v]),
        mapped.subrange(4096, 4100) == le32(d.clip.highlight_clipped),
        mapped.subrange(4100, 4104) == le32(d.clip.shadow_clipped),
{
    let words = readback_words(d);
    lemma_word_bytes(mapped, words, v);
    lemma_word_bytes(mapped, words, 256 + v);
    lemma_word_bytes(mapped, words, 512 + v);
    lemma_word_bytes(mapped, words, 768 + v);
    lemma_word_bytes(mapped, words, 1024);
    lemma_word_bytes(mapped, words, 1025);
}

proof fn lemma_word_bytes(mapped: Seq<u8>, words: Seq<u32>, k: int)
    requires
        words.len() == 1026,
        mapped.len() >= 4104,
        le_words(words) == mapped.take(4104),
        0 <= k < 1026,
    ensures
        mapped.subrange(4 * k, 4 * k + 4) == le32(words[k]),
{
    assert forall|j: int| 0 <= j < 4 implies mapped[4 * k + j] == le32(words[k])[j] by {
        assert((4 * k + j) / 4 == k && (4 * k + j) % 4 == j);
        assert(le_words(words)[4 * k + j] == mapped.take(4104)[4 * k + j]);
    }
    assert(mapped.subrange(4 * k, 4 * k + 4) =~= le32(words[k]));
}

impl HistogramRing {
    /// A slot can be collected exactly if it is busy and its readback is there.
    pub proof fn law_only_ready_busy_slots_are_collected(&self, ready: Seq<bool>, i: int)
        requires
            0 <= i < self.slots().len(),
        ensures
            self.collectable(ready, i) <==> self.slots()[i].busy && ready[i],
    {
    }
}

} // verus!
