//! The clipping overlay: clipped texels are tinted, the rest pass through.

use vstd::prelude::*;

use crate::tile::PixelBuf;
use crate::types::Extent;

verus! {

/// The highlight-clip tint (opaque red).
pub const HIGHLIGHT_TINT: [u8; 3] = [255, 0, 0];

/// The shadow-clip tint (opaque blue).
pub const SHADOW_TINT: [u8; 3] = [0, 0, 255];

/// Some channel is at its ceiling.
pub open spec fn highlight_clipped(r: u8, g: u8, b: u8) -> bool {
    r == 255 || g == 255 || b == 255
}

/// Some channel is at its floor.
pub open spec fn shadow_clipped(r: u8, g: u8, b: u8) -> bool {
    r == 0 || g == 0 || b == 0
}

/// What the overlay shows for a texel: the highlight tint wins over the shadow
/// tint, and alpha passes through.
pub open spec fn overlaid(p: Seq<u8>) -> Seq<u8> {
    if highlight_clipped(p[0], p[1], p[2]) {
        seq![HIGHLIGHT_TINT[0], HIGHLIGHT_TINT[1], HIGHLIGHT_TINT[2], p[3]]
    } else if shadow_clipped(p[0], p[1], p[2]) {
        seq![SHADOW_TINT[0], SHADOW_TINT[1], SHADOW_TINT[2], p[3]]
    } else {
        seq![p[0], p[1], p[2], p[3]]
    }
}

/// One texel of the overlay: highlight-clipped wins over shadow-clipped when a
/// texel is both, and alpha passes through unchanged.
pub fn clip_overlay_pixel(r: u8, g: u8, b: u8, a: u8) -> (out: [u8; 4])
    ensures
        out@ == overlaid(seq![r, g, b, a]),
{
    let out: [u8; 4] = if r == 255 || g == 255 || b == 255 {
        [HIGHLIGHT_TINT[0], HIGHLIGHT_TINT[1], HIGHLIGHT_TINT[2], a]
    } else if r == 0 || g == 0 || b == 0 {
        [SHADOW_TINT[0], SHADOW_TINT[1], SHADOW_TINT[2], a]
    } else {
        [r, g, b, a]
    };
    assert(out@ =~= overlaid(seq![r, g, b, a]));
    out
}

/// The overlay of a whole 4-byte-per-pixel buffer. Bytes that belong to no
/// pixel are copied.
pub fn clip_overlay_cpu(pixels: &PixelBuf) -> (out: PixelBuf)
    requires
        pixels.well_formed(),
        pixels.format.size() == 4,
    ensures
        out.format == pixels.format,
        out.extent == pixels.extent,
        out.stride == pixels.stride,
        out.bytes.len() == pixels.bytes.len(),
        forall|x: int, y: int| #[trigger]
            pixels.inside(x, y) ==> out.pixel(x, y) == overlaid(pixels.pixel(x, y)),
        forall|i: int|
            0 <= i < pixels.bytes.len() && (forall|x: int, y: int| #[trigger]
                pixels.inside(x, y) ==> !(pixels.start(x, y) <= i < pixels.start(x, y) + 4))
                ==> #[trigger] out.bytes[i] == pixels.bytes[i],
{
    let mut bytes: Vec<u8> = Vec::new();
    let mut k: usize = 0;
    while k < pixels.bytes.len()
        invariant
            k <= pixels.bytes.len(),
            bytes@ == pixels.bytes@.take(k as int),
        decreases pixels.bytes.len() - k,
    {
        bytes.push(pixels.bytes[k]);
        k = k + 1;
        assert(bytes@ =~= pixels.bytes@.take(k as int));
    }
    assert(bytes@ =~= pixels.bytes@);
    let w: u32 = pixels.extent.w;
    let h: u32 = pixels.extent.h;
    let mut y: u32 = 0;
    while y < h
        invariant
            y <= h,
            w == pixels.extent.w,
            h == pixels.extent.h,
            pixels.well_formed(),
            pixels.format.size() == 4,
            bytes.len() == pixels.bytes.len(),
            overlaid_before(*pixels, bytes@, 0, y as int),
        decreases h - y,
    {
        let mut x: u32 = 0;
        while x < w
            invariant
                x <= w,
                y < h,
                w == pixels.extent.w,
                h == pixels.extent.h,
                pixels.well_formed(),
                pixels.format.size() == 4,
                bytes.len() == pixels.bytes.len(),
                overlaid_before(*pixels, bytes@, x as int, y as int),
            decreases w - x,
        {
            proof {
                pixels.lemma_inside(x as int, y as int);
            }
            let o: usize = pixels.offset(x, y);
            let ghost before = bytes@;
            let tinted: [u8; 4] = clip_overlay_pixel(
                pixels.bytes[o],
                pixels.bytes[o + 1],
                pixels.bytes[o + 2],
                pixels.bytes[o + 3],
            );
            bytes.set(o, tinted[0]);
            bytes.set(o + 1, tinted[1]);
            bytes.set(o + 2, tinted[2]);
            bytes.set(o + 3, tinted[3]);
            proof {
                let p = pixels.pixel(x as int, y as int);
                assert(p =~= seq![p[0], p[1], p[2], p[3]]);
                assert(bytes@.subrange(o as int, o + 4) =~= tinted@);
                lemma_one_more(*pixels, before, bytes@, x as int, y as int);
            }
            x = x + 1;
        }
        proof {
            lemma_row_done(*pixels, bytes@, y as int);
        }
        y = y + 1;
    }
    let out = PixelBuf { bytes, format: pixels.format, extent: pixels.extent, stride: pixels.stride };
    proof {
        assert forall|px: int, py: int| #[trigger] pixels.inside(px, py) implies out.pixel(px, py)
            == overlaid(pixels.pixel(px, py)) by {
            pixels.lemma_inside(px, py);
            assert(out.pixel(px, py) =~= out.bytes@.subrange(
                pixels.start(px, py),
                pixels.start(px, py) + 4,
            ));
            assert(done(px, py, 0, h as int));
        }
    }
    out
}

/// Whether pixel `(px, py)` comes before `(x, y)` in row-major order.
spec fn done(px: int, py: int, x: int, y: int) -> bool {
    py < y || (py == y && px < x)
}

/// The pixels before `(x, y)` show the overlay and all other bytes are those of
/// the source.
spec fn overlaid_before(src: PixelBuf, bytes: Seq<u8>, x: int, y: int) -> bool {
    &&& forall|px: int, py: int| #[trigger]
        src.inside(px, py) && done(px, py, x, y) ==> bytes.subrange(
            src.start(px, py),
            src.start(px, py) + 4,
        ) == overlaid(src.pixel(px, py))
    &&& forall|i: int|
        0 <= i < src.bytes.len() && (forall|px: int, py: int| #[trigger]
            src.inside(px, py) && done(px, py, x, y) ==> !(src.start(px, py) <= i < src.start(
                px,
                py,
            ) + 4)) ==> #[trigger] bytes[i] == src.bytes[i]
}

/// Two different pixels of a well-formed 4-byte buffer share no byte.
proof fn lemma_apart(src: PixelBuf, x: int, y: int, px: int, py: int)
    requires
        src.well_formed(),
        src.format.size() == 4,
        src.inside(x, y),
        src.inside(px, py),
        (x, y) != (px, py),
    ensures
        src.start(px, py) + 4 <= src.start(x, y) || src.start(x, y) + 4 <= src.start(px, py),
{
    let s = src.stride as int;
    if py < y {
        assert(py * s + s <= y * s) by (nonlinear_arith)
            requires
                py + 1 <= y,
                0 <= s,
        ;
    } else if y < py {
        assert(y * s + s <= py * s) by (nonlinear_arith)
            requires
                y + 1 <= py,
                0 <= s,
        ;
    }
}

proof fn lemma_one_more(src: PixelBuf, before: Seq<u8>, after: Seq<u8>, x: int, y: int)
    requires
        src.well_formed(),
        src.format.size() == 4,
        src.inside(x, y),
        before.len() == src.bytes.len(),
        after.len() == before.len(),
        overlaid_before(src, before, x, y),
        after.subrange(src.start(x, y), src.start(x, y) + 4) == overlaid(src.pixel(x, y)),
        forall|i: int|
            0 <= i < before.len() && !(src.start(x, y) <= i < src.start(x, y) + 4)
                ==> #[trigger] after[i] == before[i],
    ensures
        overlaid_before(src, after, x + 1, y),
{
    src.lemma_inside(x, y);
    assert forall|px: int, py: int| #[trigger]
        src.inside(px, py) && done(px, py, x + 1, y) implies after.subrange(
        src.start(px, py),
        src.start(px, py) + 4,
    ) == overlaid(src.pixel(px, py)) by {
        src.lemma_inside(px, py);
        if (px, py) != (x, y) {
            lemma_apart(src, x, y, px, py);
            assert(done(px, py, x, y));
            assert(after.subrange(src.start(px, py), src.start(px, py) + 4) =~= before.subrange(
                src.start(px, py),
                src.start(px, py) + 4,
            ));
        }
    }
    assert forall|i: int|
        0 <= i < src.bytes.len() && (forall|px: int, py: int| #[trigger]
            src.inside(px, py) && done(px, py, x + 1, y) ==> !(src.start(px, py) <= i < src.start(
                px,
                py,
            ) + 4)) implies #[trigger] after[i] == src.bytes[i] by {
        assert(src.inside(x, y) && done(x, y, x + 1, y));
        assert(after[i] == before[i]);
        assert(forall|px: int, py: int| #[trigger]
            src.inside(px, py) && done(px, py, x, y) ==> done(px, py, x + 1, y));
    }
}

proof fn lemma_row_done(src: PixelBuf, bytes: Seq<u8>, y: int)
    requires
        overlaid_before(src, bytes, src.extent.w as int, y),
    ensures
        overlaid_before(src, bytes, 0, y + 1),
{
    assert(forall|px: int, py: int| #[trigger]
        src.inside(px, py) ==> (done(px, py, src.extent.w as int, y) <==> done(
            px,
            py,
            0,
            y + 1,
        )));
}

/// Whether the overlay's texture has to be made anew for a frame of the wanted
/// extent.
pub fn needs_rebuild(current: Option<Extent>, wanted: Extent) -> (r: bool)
    ensures
        r == (current != Some(wanted)),
{
    match current {
        Some(extent) => extent != wanted,
        None => true,
    }
}

/// The overlay shows the highlight tint exactly on highlight-clipped texels,
/// the shadow tint exactly on texels that are only shadow-clipped, and leaves
/// every other texel and every alpha alone.
pub proof fn law_tints_mark_exactly_the_clipped_texels(p: Seq<u8>)
    requires
        p.len() == 4,
    ensures
        ({
            let o = overlaid(p);
            let shown = o.take(3);
            &&& o.len() == 4
            &&& shown == HIGHLIGHT_TINT@ <==> highlight_clipped(p[0], p[1], p[2])
            &&& shown == SHADOW_TINT@ <==> shadow_clipped(p[0], p[1], p[2])
                && !highlight_clipped(p[0], p[1], p[2])
            &&& !highlight_clipped(p[0], p[1], p[2]) && !shadow_clipped(p[0], p[1], p[2]) ==> o
                == p
            &&& o[3] == p[3]
        }),
{
    assert(p =~= seq![p[0], p[1], p[2], p[3]]);
    let shown = overlaid(p).take(3);
    assert(shown[0] == overlaid(p)[0] && shown[1] == overlaid(p)[1] && shown[2] == overlaid(p)[2]);
    if highlight_clipped(p[0], p[1], p[2]) {
        assert(shown =~= HIGHLIGHT_TINT@);
    } else if shadow_clipped(p[0], p[1], p[2]) {
        assert(shown =~= SHADOW_TINT@);
    }
}

/// A texel shows the highlight tint whenever any one of its three colour
/// channels is at 255, whichever one it is.
pub proof fn law_any_blown_channel_shows_the_highlight_tint(p: Seq<u8>, c: int)
    requires
        p.len() == 4,
        0 <= c < 3,
        p[c] == 255,
    ensures
        overlaid(p) == HIGHLIGHT_TINT@.push(p[3]),
        overlaid(p) == seq![255u8, 0u8, 0u8, p[3]],
{
    assert(c == 0 || c == 1 || c == 2);
    assert(overlaid(p) =~= HIGHLIGHT_TINT@.push(p[3]));
    assert(overlaid(p) =~= seq![255u8, 0u8, 0u8, p[3]]);
}

/// A texel without a channel at 255 shows the shadow tint whenever any one of
/// its three colour channels is at 0.
pub proof fn law_any_crushed_channel_shows_the_shadow_tint(p: Seq<u8>, c: int)
    requires
        p.len() == 4,
        0 <= c < 3,
        p[c] == 0,
        forall|k: int| 0 <= k < 3 ==> #[trigger] p[k] != 255,
    ensures
        overlaid(p) == SHADOW_TINT@.push(p[3]),
        overlaid(p) == seq![0u8, 0u8, 255u8, p[3]],
{
    assert(p[0] != 255 && p[1] != 255 && p[2] != 255);
    assert(c == 0 || c == 1 || c == 2);
    assert(overlaid(p) =~= SHADOW_TINT@.push(p[3]));
    assert(overlaid(p) =~= seq![0u8, 0u8, 255u8, p[3]]);
}

/// A texel with every colour channel strictly between 0 and 255 passes through.
pub proof fn law_unclipped_texels_pass_through(p: Seq<u8>)
    requires
        p.len() == 4,
        forall|k: int| 0 <= k < 3 ==> 0 < #[trigger] p[k] < 255,
    ensures
        overlaid(p) == p,
{
    assert(0 < p[0] < 255 && 0 < p[1] < 255 && 0 < p[2] < 255);
    assert(overlaid(p) =~= p);
}

/// The clip tests treat the three channels alike: any one of them decides.
pub proof fn law_clip_tests_are_symmetric(p: Seq<u8>)
    requires
        p.len() == 4,
    ensures
        highlight_clipped(p[0], p[1], p[2]) <==> exists|c: int|
            0 <= c < 3 && #[trigger] p[c] == 255,
        shadow_clipped(p[0], p[1], p[2]) <==> exists|c: int| 0 <= c < 3 && #[trigger] p[c] == 0,
{
    if exists|c: int| 0 <= c < 3 && #[trigger] p[c] == 255 {
        let c = choose|c: int| 0 <= c < 3 && #[trigger] p[c] == 255;
        assert(c == 0 || c == 1 || c == 2);
    }
    if exists|c: int| 0 <= c < 3 && #[trigger] p[c] == 0 {
        let c = choose|c: int| 0 <= c < 3 && #[trigger] p[c] == 0;
        assert(c == 0 || c == 1 || c == 2);
    }
}

} // verus!
