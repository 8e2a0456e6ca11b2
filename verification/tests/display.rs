use lightbox_render::sched::clip_overlay::{
    clip_overlay_cpu, clip_overlay_pixel, needs_rebuild, HIGHLIGHT_TINT, SHADOW_TINT,
};
use lightbox_render::sched::histogram::{
    decode, histogram_cpu, luma_bin, workgroups, ClipStats, GpuParams, HistogramData, HistogramRing,
};
use lightbox_render::tile::{PixelBuf, PixelFormat, Texel};
use lightbox_render::types::Extent;

fn set_rgba_f32(px: &mut PixelBuf, x: u32, y: u32, rgba: [f32; 4]) {
    let q = |v: f32| (v.clamp(0.0, 1.0) * 255.0 + 0.5) as u8;
    px.set_texel(
        x,
        y,
        Texel::Unorm8([q(rgba[0]), q(rgba[1]), q(rgba[2]), q(rgba[3])]),
    );
}

fn highlight_fraction(c: &ClipStats) -> f32 {
    c.highlight_clipped as f32 / c.total_pixels as f32
}

fn shadow_fraction(c: &ClipStats) -> f32 {
    c.shadow_clipped as f32 / c.total_pixels as f32
}

/// A 4-texel ramp: black (shadow), white (highlight), mid-gray (neither), and
/// pure red (both, the highlight tie-break).
fn synthetic_ramp() -> PixelBuf {
    let mut px = PixelBuf::new_zeroed(PixelFormat::Rgba8Unorm, Extent { w: 4, h: 1 });
    set_rgba_f32(&mut px, 0, 0, [0.0, 0.0, 0.0, 1.0]);
    set_rgba_f32(&mut px, 1, 0, [1.0, 1.0, 1.0, 1.0]);
    set_rgba_f32(&mut px, 2, 0, [0.5, 0.5, 0.5, 1.0]);
    set_rgba_f32(&mut px, 3, 0, [1.0, 0.0, 0.0, 1.0]);
    px
}

#[test]
fn cpu_reference_tints_clipped_pixels_and_passes_through_the_rest() {
    let out = clip_overlay_cpu(&synthetic_ramp());
    let px = |x: u32| -> [u8; 4] {
        let o = x as usize * 4;
        [
            out.bytes[o],
            out.bytes[o + 1],
            out.bytes[o + 2],
            out.bytes[o + 3],
        ]
    };
    assert_eq!(px(0), [0, 0, 255, 255], "black -> shadow tint (blue)");
    assert_eq!(px(1), [255, 0, 0, 255], "white -> highlight tint (red)");
    assert_eq!(px(2), [128, 128, 128, 255], "mid gray passes through");
    assert_eq!(
        px(3),
        [255, 0, 0, 255],
        "pure red: highlight wins the tie-break"
    );
}

#[test]
fn clip_overlay_pixel_matches_the_documented_tie_break() {
    // Simultaneously highlight AND shadow clipped on different channels
    // (r=255, g=0): highlight wins.
    assert_eq!(clip_overlay_pixel(255, 0, 128, 255), [255, 0, 0, 255]);
}

#[test]
fn overlay_keeps_alpha_and_row_padding() {
    let px = PixelBuf {
        bytes: vec![1, 2, 3, 9, 77, 78, 0, 2, 3, 8],
        format: PixelFormat::Rgba8Unorm,
        extent: Extent { w: 1, h: 2 },
        stride: 6,
    };
    let out = clip_overlay_cpu(&px);
    assert_eq!(out.bytes, vec![1, 2, 3, 9, 77, 78, 0, 0, 255, 8]);
}

#[test]
fn overlay_texture_is_rebuilt_only_on_a_new_extent() {
    let e = Extent { w: 3, h: 2 };
    assert!(needs_rebuild(None, e));
    assert!(!needs_rebuild(Some(e), e));
    assert!(needs_rebuild(Some(Extent { w: 2, h: 3 }), e));
}

/// A 2x2 buffer: black, white, mid-gray, and one that is highlight-clipped in
/// green only.
fn synthetic_2x2() -> PixelBuf {
    let mut px = PixelBuf::new_zeroed(PixelFormat::Rgba8Unorm, Extent { w: 2, h: 2 });
    set_rgba_f32(&mut px, 0, 0, [0.0, 0.0, 0.0, 1.0]);
    set_rgba_f32(&mut px, 1, 0, [1.0, 1.0, 1.0, 1.0]);
    set_rgba_f32(&mut px, 0, 1, [0.5, 0.5, 0.5, 1.0]);
    set_rgba_f32(&mut px, 1, 1, [0.2, 1.0, 0.2, 1.0]);
    px
}

#[test]
fn cpu_reference_bins_known_synthetic_pixels_exactly() {
    let data = histogram_cpu(&synthetic_2x2());
    assert_eq!(data.r[0], 1, "one texel with r == 0");
    assert_eq!(data.r[255], 1, "one texel with r == 255");
    assert_eq!(data.clip.highlight_clipped, 2, "white + green-clipped");
    assert_eq!(data.clip.shadow_clipped, 1, "only the black texel");
    assert_eq!(data.clip.total_pixels, 4);
    assert!((highlight_fraction(&data.clip) - 0.5).abs() < 1e-6);
    assert!((shadow_fraction(&data.clip) - 0.25).abs() < 1e-6);
}

#[test]
fn luma_weights_sum_to_256_and_saturate_correctly() {
    assert_eq!(luma_bin(255, 255, 255), 255);
    assert_eq!(luma_bin(0, 0, 0), 0);
}

#[test]
fn luma_is_exact_fixed_point() {
    assert_eq!(luma_bin(255, 0, 0), 53);
    assert_eq!(luma_bin(0, 255, 0), 182);
    assert_eq!(luma_bin(0, 0, 255), 18);
    for v in 0..=255u8 {
        assert_eq!(luma_bin(v, v, v), v);
    }
}

#[test]
fn a_fully_black_frame_is_100pct_shadow_clipped() {
    let mut px = PixelBuf::new_zeroed(PixelFormat::Rgba8Unorm, Extent { w: 4, h: 4 });
    for chunk in px.bytes.chunks_exact_mut(4) {
        chunk.copy_from_slice(&[0, 0, 0, 255]);
    }
    let data = histogram_cpu(&px);
    assert_eq!(data.clip.shadow_clipped, 16);
    assert_eq!(data.clip.highlight_clipped, 0);
    assert!((shadow_fraction(&data.clip) - 1.0).abs() < 1e-6);
}

#[test]
fn every_plane_counts_every_pixel() {
    let data = histogram_cpu(&synthetic_2x2());
    let sum = |p: &[u32; 256]| p.iter().sum::<u32>();
    assert_eq!(sum(&data.r), 4);
    assert_eq!(sum(&data.g), 4);
    assert_eq!(sum(&data.b), 4);
    assert_eq!(sum(&data.luma), 4);
    // 0.2 -> 51: luma (51*54 + 255*183 + 51*19) / 256.
    assert_eq!(data.luma[196], 1);
}

#[test]
fn decode_reads_planes_then_clip_counts() {
    let mut bytes = vec![0u8; 4104];
    let mut put = |i: usize, v: u32| bytes[i * 4..i * 4 + 4].copy_from_slice(&v.to_le_bytes());
    put(0, 0x0102_0304);
    put(255, 7);
    put(256, 8);
    put(512 + 3, 9);
    put(768 + 255, 10);
    put(1024, 11);
    put(1025, 12);
    let d = decode(&bytes, 99);
    let mut want = HistogramData::default();
    want.r[0] = 0x0102_0304;
    want.r[255] = 7;
    want.g[0] = 8;
    want.b[3] = 9;
    want.luma[255] = 10;
    want.clip = ClipStats {
        highlight_clipped: 11,
        shadow_clipped: 12,
        total_pixels: 99,
    };
    assert_eq!(d, want);
}

#[test]
fn params_block_and_workgroups() {
    let b = GpuParams {
        width: 0x0403_0201,
        height: 5,
    }
    .to_bytes();
    assert_eq!(b, [1, 2, 3, 4, 5, 0, 0, 0, 0, 0, 0, 0, 0, 0, 0, 0]);
    assert_eq!(workgroups(Extent { w: 0, h: 1 }), (1, 1));
    assert_eq!(workgroups(Extent { w: 16, h: 17 }), (1, 2));
    assert_eq!(
        workgroups(Extent {
            w: u32::MAX,
            h: 4096
        }),
        (268_435_456, 256)
    );
}

#[test]
fn ring_skips_when_busy_and_collects_the_newest_ready_slot() {
    let mut ring = HistogramRing::new();
    let e = Extent { w: 3, h: 2 };
    let big = Extent {
        w: u32::MAX,
        h: 2,
    };
    let a = ring.free_slot().unwrap();
    assert_eq!(ring.claim(a, e), 1);
    let b = ring.free_slot().unwrap();
    assert_ne!(a, b);
    assert_eq!(ring.claim(b, big), 2);
    assert_eq!(ring.free_slot(), None, "every slot is busy: a skip");
    assert_eq!(ring.collect(&[false, false]), None);
    let c = ring.collect(&[true, true]).unwrap();
    assert_eq!((c.slot, c.generation, c.total_pixels), (b, 2, u32::MAX));
    let d = ring.collect(&[true, true]).unwrap();
    assert_eq!((d.slot, d.generation, d.total_pixels), (a, 1, 6));
    assert_eq!(ring.collect(&[true, true]), None);
    assert_eq!(ring.free_slot(), Some(0));
}

#[test]
fn tints_are_red_and_blue() {
    assert_eq!(HIGHLIGHT_TINT, [255, 0, 0]);
    assert_eq!(SHADOW_TINT, [0, 0, 255]);
    assert_eq!(clip_overlay_pixel(255, 9, 9, 7)[..3], HIGHLIGHT_TINT);
    assert_eq!(clip_overlay_pixel(9, 0, 9, 7)[..3], SHADOW_TINT);
}
