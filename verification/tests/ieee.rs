use lightbox_render::ieee::{Double, Single};

fn s(v: f32) -> Single {
    Single { bits: v.to_bits() }
}

#[test]
fn widening_is_the_exact_conversion() {
    for v in [
        0.0f32,
        -0.0,
        1.0,
        -1.0,
        0.1,
        -3.75,
        f32::MAX,
        f32::MIN_POSITIVE,
        f32::MIN_POSITIVE / 2.0,
        f32::from_bits(1),
        f32::from_bits(0x8000_0003),
        f32::from_bits(0x007f_ffff),
        f32::INFINITY,
        f32::NEG_INFINITY,
    ] {
        assert_eq!(s(v).widen().bits, f64::from(v).to_bits(), "{v}");
        assert_eq!(s(v).is_finite(), v.is_finite());
        assert_eq!(s(v).widen().is_finite(), v.is_finite());
        assert_eq!(s(v).is_zero(), v == 0.0);
        assert_eq!(s(v).is_at_most_zero(), v <= 0.0);
    }
    let nan = Single { bits: 0x7fc0_0000 };
    assert!(f64::from_bits(nan.widen().bits).is_nan());
    assert!(!nan.is_finite() && !nan.is_zero() && !nan.is_at_most_zero());
    assert!(!Single { bits: 0xffc0_0000 }.is_at_most_zero());
    assert!(!Double { bits: 0x7ff8_0000_0000_0000 }.is_finite());
}
