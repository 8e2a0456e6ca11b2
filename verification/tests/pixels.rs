use lightbox_render::bytes::{pack_words, word_of_i32};
use lightbox_render::handle::TileHandle;
use lightbox_render::nodes::support::{new_rgba16f, new_rgba8, read_rgba_f32};
use lightbox_render::source::{
    decodes_color, lift_plan, source_lanes, to_working_tile_cpu, ColorPrimaries, DecodeCurve, Gamut, LiftPlan,
    SourceColorimetry, SourceImage, SourceQuality, SourceWant, TransferFunction, Uploader,
};
use lightbox_render::tile::{Lane, PixelBuf, PixelFormat, Texel};
use lightbox_render::types::{Extent, TilePrecision};

#[test]
fn zeroed_buffers_are_tightly_packed() {
    for (format, bpp) in [
        (PixelFormat::Rgba8Unorm, 4u32),
        (PixelFormat::Rgba8Srgb, 4),
        (PixelFormat::Rgba16F, 8),
        (PixelFormat::Rgba32F, 16),
        (PixelFormat::R16F, 2),
    ] {
        assert_eq!(format.bytes_per_pixel(), bpp);
        let b = PixelBuf::new_zeroed(format, Extent { w: 3, h: 2 });
        assert_eq!(b.stride, 3 * bpp);
        assert_eq!(b.bytes, vec![0u8; (6 * bpp) as usize]);
        assert_eq!(b.offset(2, 1), (5 * bpp) as usize);
    }
    let empty = PixelBuf::new_zeroed(PixelFormat::Rgba8Unorm, Extent { w: 0, h: 9 });
    assert!(empty.bytes.is_empty());
    assert_eq!(empty.rows(), 0);
}

#[test]
fn a_stored_texel_reads_back_and_leaves_its_neighbors_alone() {
    for (format, t, u) in [
        (
            PixelFormat::Rgba8Srgb,
            Texel::Unorm8([1, 2, 3, 4]),
            Texel::Unorm8([9, 9, 9, 9]),
        ),
        (
            PixelFormat::Rgba16F,
            Texel::Half4([0x3c00, 1, 2, 0xffff]),
            Texel::Half4([5, 6, 7, 8]),
        ),
        (
            PixelFormat::Rgba32F,
            Texel::Single4([0x3f80_0000, 1, 0xdead_beef, 3]),
            Texel::Single4([4, 5, 6, 7]),
        ),
        (PixelFormat::R16F, Texel::Half1(0x1234), Texel::Half1(0xabcd)),
    ] {
        let mut b = PixelBuf::new_zeroed(format, Extent { w: 3, h: 2 });
        b.set_texel(1, 1, u);
        b.set_texel(0, 1, t);
        b.set_texel(2, 0, t);
        assert_eq!(b.texel(1, 1), u);
        assert_eq!(b.texel(0, 1), t);
        assert_eq!(b.texel(2, 0), t);
        assert_eq!(t.encode().len(), format.bytes_per_pixel() as usize);
    }
}

#[test]
fn lanes_are_little_endian() {
    assert_eq!(Texel::Half1(0x1234).encode(), vec![0x34, 0x12]);
    assert_eq!(
        Texel::Half4([0x0201, 0x0403, 0x0605, 0x0807]).encode(),
        vec![1, 2, 3, 4, 5, 6, 7, 8]
    );
    assert_eq!(
        Texel::Single4([0x0403_0201, 0, 0, 0xff00_0000]).encode()[..4],
        [1, 2, 3, 4]
    );
    assert_eq!(pack_words(&vec![0x0403_0201, 5]), vec![1, 2, 3, 4, 5, 0, 0, 0]);
    assert_eq!(word_of_i32(-2), 0xffff_fffe);
    assert_eq!(word_of_i32(7), 7);
}

#[test]
fn rows_cut_the_bytes_into_strides() {
    let b = PixelBuf {
        bytes: vec![0; 10],
        format: PixelFormat::Rgba8Unorm,
        extent: Extent { w: 1, h: 3 },
        stride: 4,
    };
    assert_eq!(b.rows(), 3);
    assert_eq!(b.row_range(0), (0, 4));
    assert_eq!(b.row_range(1), (4, 8));
    assert_eq!(b.row_range(2), (8, 10));
}

#[test]
fn support_buffers_hold_at_least_one_pixel() {
    let a = new_rgba16f(Extent { w: 0, h: 3 });
    assert_eq!(
        (a.format, a.extent, a.stride, a.bytes.len()),
        (PixelFormat::Rgba16F, Extent { w: 1, h: 3 }, 8, 24)
    );
    let b = new_rgba8(Extent { w: 5, h: 0 });
    assert_eq!(
        (b.format, b.extent, b.stride, b.bytes.len()),
        (PixelFormat::Rgba8Unorm, Extent { w: 5, h: 1 }, 20, 20)
    );
}

fn source(extent: Extent) -> SourceImage {
    SourceImage {
        pixels: PixelBuf::new_zeroed(PixelFormat::Rgba8Unorm, extent),
        colorimetry: SourceColorimetry::default(),
        full_extent: extent,
        quality: SourceQuality::Full,
    }
}

#[test]
fn sources_are_lifted_pixel_by_pixel_and_row_by_row() {
    let mut src = source(Extent { w: 3, h: 2 });
    // Two bytes of padding behind each row.
    src.pixels.stride = 14;
    src.pixels.bytes = vec![0xee; 28];
    for k in 0..6u8 {
        let t = Texel::Unorm8([k, 10 + k, 20 + k, 255]);
        src.pixels.set_texel(k as u32 % 3, k as u32 / 3, t);
    }
    let lanes = source_lanes(&src.pixels);
    assert_eq!(lanes.len(), 6);
    assert_eq!(lanes[4][1], Lane::Unorm(14));
    let raw = |_: LiftPlan, lanes: [Lane; 4]| {
        lanes.map(|l| match l {
            Lane::Unorm(b) => b as u16,
            _ => 0xffff,
        })
    };
    let t = to_working_tile_cpu(&src, raw);
    assert_eq!((t.format, t.stride), (PixelFormat::Rgba16F, 24));
    assert_eq!(t.texel(2, 1), Texel::Half4([5, 15, 25, 255]));
    assert_eq!(t.texel(0, 1), Texel::Half4([3, 13, 23, 255]));
}

#[test]
fn an_empty_source_is_lifted_from_one_pixel() {
    let mut src = source(Extent { w: 0, h: 0 });
    src.pixels.bytes = vec![1, 2, 3, 4];
    let one = to_working_tile_cpu(&src, |_, lanes| {
        lanes.map(|l| if let Lane::Unorm(b) = l { b as u16 } else { 0 })
    });
    assert_eq!(one.extent, Extent { w: 1, h: 1 });
    assert_eq!(one.bytes, vec![1, 0, 2, 0, 3, 0, 4, 0]);
}

#[test]
fn mask_weights_are_lifted_without_decoding() {
    let mut src = source(Extent { w: 1, h: 1 });
    src.colorimetry = SourceColorimetry {
        transfer: TransferFunction::Srgb,
        primaries: ColorPrimaries::Srgb,
    };
    let seen = |plan: LiftPlan, lanes: [Lane; 4]| {
        [
            plan.decode.is_some() as u16,
            plan.convert.is_some() as u16,
            (lanes[1] == Lane::Zero) as u16,
            (lanes[3] == Lane::One) as u16,
        ]
    };
    let color = to_working_tile_cpu(&src, seen);
    assert_eq!(color.texel(0, 0), Texel::Half4([1, 1, 0, 0]));
    src.pixels = PixelBuf::new_zeroed(PixelFormat::R16F, Extent { w: 1, h: 1 });
    let mask = to_working_tile_cpu(&src, seen);
    assert_eq!(mask.texel(0, 0), Texel::Half4([0, 1, 1, 1]));
}

#[test]
fn tags_choose_the_input_transform() {
    assert_eq!(
        lift_plan(&SourceColorimetry::default()),
        LiftPlan {
            decode: None,
            convert: None
        }
    );
    assert_eq!(
        lift_plan(&SourceColorimetry {
            transfer: TransferFunction::ProPhoto,
            primaries: ColorPrimaries::Working
        }),
        LiftPlan {
            decode: Some(DecodeCurve::ProPhoto),
            convert: None
        }
    );
    assert_eq!(
        lift_plan(&SourceColorimetry {
            transfer: TransferFunction::Srgb,
            primaries: ColorPrimaries::DisplayP3
        }),
        LiftPlan {
            decode: Some(DecodeCurve::Srgb),
            convert: Some(Gamut::DisplayP3)
        }
    );
    assert!(decodes_color(PixelFormat::Rgba8Unorm));
    assert!(!decodes_color(PixelFormat::R16F));
}

#[test]
fn uploads_have_a_row_length_and_a_pixel() {
    let l = Uploader::new().layout(Extent { w: 0, h: 7 });
    assert_eq!((l.extent, l.bytes_per_row), (Extent { w: 1, h: 7 }, 8));
    assert_ne!(SourceWant::DecodedFull, SourceWant::BestAvailable { max_px: 5 });
}

#[test]
fn handles_know_their_tile() {
    let none: TileHandle<&str> = TileHandle::default();
    assert!(none.is_empty());
    assert_eq!(none.extent(), None);
    let e = Extent { w: 4, h: 2 };
    let gpu: TileHandle<&str> = TileHandle::gpu("texture", e, TilePrecision::F32);
    assert!(!gpu.is_empty());
    assert_eq!(gpu.extent(), Some(e));
    assert_eq!(gpu.precision(), Some(TilePrecision::F32));
    assert_eq!(gpu.texture(), Some(&"texture"));
    assert!(gpu.cpu().is_none());
    assert_eq!(gpu.share().texture(), Some(&"texture"));
    let cpu: TileHandle<&str> =
        TileHandle::from_cpu(PixelBuf::new_zeroed(PixelFormat::R16F, e)).share();
    assert_eq!(cpu.extent(), Some(e));
    assert_eq!(cpu.precision(), None);
    assert!(cpu.texture().is_none());
    assert_eq!(cpu.cpu().unwrap().bytes.len(), 16);
    assert!(none.share().is_empty());
}

#[test]
fn both_8_bit_encodings_read_the_bytes_over_255() {
    for format in [PixelFormat::Rgba8Unorm, PixelFormat::Rgba8Srgb] {
        let mut b = PixelBuf::new_zeroed(format, Extent { w: 2, h: 2 });
        b.set_texel(1, 1, Texel::Unorm8([0, 128, 254, 255]));
        let lanes = [
            Lane::Unorm(0),
            Lane::Unorm(128),
            Lane::Unorm(254),
            Lane::Unorm(255),
        ];
        assert_eq!(b.get_rgba_f32(1, 1), lanes);
        assert_eq!(read_rgba_f32(&b, 1, 1), lanes);
        assert_eq!(b.get_rgba_f32(0, 1), [Lane::Unorm(0); 4]);
    }
}

#[test]
fn float_lanes_read_as_they_are() {
    let mut h = PixelBuf::new_zeroed(PixelFormat::Rgba16F, Extent { w: 1, h: 2 });
    h.set_texel(0, 1, Texel::Half4([0x3c00, 1, 2, 3]));
    let lanes = [
        Lane::Half(0x3c00),
        Lane::Half(1),
        Lane::Half(2),
        Lane::Half(3),
    ];
    assert_eq!(h.get_rgba_f32(0, 1), lanes);
    assert_eq!(read_rgba_f32(&h, 0, 1), lanes);
    let mut w = PixelBuf::new_zeroed(PixelFormat::Rgba32F, Extent { w: 2, h: 1 });
    w.set_texel(1, 0, Texel::Single4([4, 5, 6, 0x3f80_0000]));
    assert_eq!(w.get_rgba_f32(1, 0)[3], Lane::Single(0x3f80_0000));
    assert_eq!(read_rgba_f32(&w, 1, 0)[0], Lane::Single(4));
}

#[test]
fn a_mask_weight_is_gray_to_nodes_and_red_to_the_resampler() {
    let mut b = PixelBuf::new_zeroed(PixelFormat::R16F, Extent { w: 3, h: 1 });
    b.set_texel(2, 0, Texel::Half1(0x3800));
    let v = Lane::Half(0x3800);
    assert_eq!(b.get_rgba_f32(2, 0), [v, v, v, Lane::One]);
    assert_eq!(read_rgba_f32(&b, 2, 0), [v, Lane::Zero, Lane::Zero, Lane::One]);
}
