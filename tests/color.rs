use zercalo_format::color::{ColorRGB, ColorRGBA};

#[test]
fn rgb_constructors() {
    assert_eq!(ColorRGB::new(1, 2, 3), ColorRGB { r: 1, g: 2, b: 3 });
    assert_eq!(ColorRGB::white(), ColorRGB { r: 255, g: 255, b: 255 });
    assert_eq!(ColorRGB::black(), ColorRGB { r: 0, g: 0, b: 0 });
    assert_eq!(ColorRGB::default(), ColorRGB::black());
}

#[test]
fn rgba_constructors() {
    assert_eq!(ColorRGBA::new(1, 2, 3, 4), ColorRGBA { r: 1, g: 2, b: 3, a: 4 });
    assert_eq!(ColorRGBA::empty(), ColorRGBA { r: 0, g: 0, b: 0, a: 0 });
    assert_eq!(ColorRGBA::white(), ColorRGBA { r: 255, g: 255, b: 255, a: 255 });
    assert_eq!(ColorRGBA::black(), ColorRGBA { r: 0, g: 0, b: 0, a: 255 });
    assert_eq!(ColorRGBA::default(), ColorRGBA::black());
    assert_eq!(ColorRGBA::player1(), ColorRGBA::new(240, 0, 0, 255));
    assert_eq!(ColorRGBA::player2(), ColorRGBA::new(0, 0, 240, 255));
}

#[test]
fn emptiness_is_zero_alpha() {
    assert!(ColorRGBA::empty().is_empty());
    assert!(ColorRGBA::new(9, 9, 9, 0).is_empty());
    assert!(!ColorRGBA::new(0, 0, 0, 1).is_empty());
}

#[test]
fn with_alpha_keeps_rgb() {
    let c = ColorRGBA::new(10, 20, 30, 40).with_alpha(0);
    assert_eq!(c, ColorRGBA::new(10, 20, 30, 0));
}
