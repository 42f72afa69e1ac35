use epick_core::cie::{Lab, XyY};
use epick_core::color::Color;
use epick_core::fixed::SCALE;
use epick_core::illuminant::Illuminant;
use epick_core::rgb::Rgb;
use epick_core::workspace::{rgb_to_xyz, RgbWorkingSpace};
use epick_core::xyz::Xyz;

fn unit(v: i64) -> f64 {
    v as f64 / SCALE as f64
}

#[test]
fn xyy_round_trip_within_tolerance() {
    let samples = [
        Xyz::new_unchecked(2908438, 3060000, 3331820),
        Xyz::new_unchecked(SCALE as i64 / 2, SCALE as i64 / 3, SCALE as i64 / 7),
        Xyz::new_unchecked(1224000, 2448000, 612000),
    ];
    for v in samples {
        let back = XyY::from_xyz(v).to_xyz();
        assert!((unit(back.x()) - unit(v.x())).abs() < 1e-5);
        assert_eq!(back.y(), v.y());
        assert!((unit(back.z()) - unit(v.z())).abs() < 1e-5);
    }
}

#[test]
fn xyy_of_black_is_zero() {
    let b = XyY::from_xyz(Xyz::new_unchecked(0, 0, 0));
    assert_eq!((b.x, b.y, b.yy), (0, 0, 0));
    assert_eq!(b.to_xyz(), Xyz::new_unchecked(0, 0, 0));
}

#[test]
fn xyy_chromaticities_of_equal_energy() {
    let e = XyY::from_xyz(Xyz::new_unchecked(SCALE as i64, SCALE as i64, SCALE as i64));
    assert_eq!(e.x, SCALE / 3);
    assert_eq!(e.y, SCALE / 3);
    assert_eq!(e.yy, SCALE);
}

#[test]
fn lab_of_white_is_l100() {
    let wp = Illuminant::D65.white_point();
    let lab = Lab::from_xyz(wp, Illuminant::D65);
    assert!((unit(lab.l) - 1.0).abs() < 1e-4, "L = {}", unit(lab.l));
    assert!(unit(lab.a).abs() < 1e-3);
    assert!(unit(lab.b).abs() < 1e-3);
}

#[test]
fn lab_of_black_is_zero() {
    let lab = Lab::from_xyz(Xyz::new_unchecked(0, 0, 0), Illuminant::D65);
    assert_eq!(lab.l, 0);
    assert_eq!(lab.a, 0);
    assert_eq!(lab.b, 0);
}

#[test]
fn lab_round_trip_within_tolerance() {
    let samples = [
        Xyz::new_unchecked(2908438, 3060000, 3331820),
        Xyz::new_unchecked(SCALE as i64 / 2, SCALE as i64 / 3, SCALE as i64 / 7),
        Xyz::new_unchecked(1224000, 2448000, 612000),
        Xyz::new_unchecked(30000, 20000, 10000),
    ];
    for ill in [Illuminant::D65, Illuminant::D50, Illuminant::A] {
        for v in samples {
            let back = Lab::from_xyz(v, ill).to_xyz(ill);
            assert!((unit(back.x()) - unit(v.x())).abs() < 1e-4, "{ill:?} x");
            assert!((unit(back.y()) - unit(v.y())).abs() < 1e-4, "{ill:?} y");
            assert!((unit(back.z()) - unit(v.z())).abs() < 1e-4, "{ill:?} z");
        }
    }
}

#[test]
fn lab_known_value_red() {
    // sRGB red is about L 53.2, a 80.1, b 67.2 under D65.
    let xyz = rgb_to_xyz(Rgb::from_u8(255, 0, 0), RgbWorkingSpace::SRGB);
    let lab = Lab::from_xyz(xyz, Illuminant::D65);
    assert!((unit(lab.l) * 100.0 - 53.24).abs() < 0.2, "L = {}", unit(lab.l) * 100.0);
    assert!((unit(lab.a) * 100.0 - 80.09).abs() < 0.5, "a = {}", unit(lab.a) * 100.0);
    assert!((unit(lab.b) * 100.0 - 67.2).abs() < 0.5, "b = {}", unit(lab.b) * 100.0);
}

#[test]
fn lab_color_variant_resolves_to_rgb() {
    let ws = RgbWorkingSpace::SRGB;
    let ill = Illuminant::D65;
    let rgb = Rgb::from_u8(200, 120, 40);
    let lab = Lab::from_xyz(rgb_to_xyz(rgb, ws), ill);
    let c = Color::Lab(lab, ws, ill);
    let back = c.as_rgb();
    assert!((unit(back.r() as i64) - unit(rgb.r() as i64)).abs() < 1e-3);
    assert!((unit(back.g() as i64) - unit(rgb.g() as i64)).abs() < 1e-3);
    assert!((unit(back.b() as i64) - unit(rgb.b() as i64)).abs() < 1e-3);
}

#[test]
fn xyy_color_variant_resolves_to_rgb() {
    let ws = RgbWorkingSpace::SRGB;
    let rgb = Rgb::from_u8(40, 120, 200);
    let xyy = XyY::from_xyz(rgb_to_xyz(rgb, ws));
    let c = Color::XyY(xyy, ws);
    let back = c.as_rgb();
    assert!((unit(back.r() as i64) - unit(rgb.r() as i64)).abs() < 1e-3);
    assert!((unit(back.g() as i64) - unit(rgb.g() as i64)).abs() < 1e-3);
    assert!((unit(back.b() as i64) - unit(rgb.b() as i64)).abs() < 1e-3);
}

#[test]
fn luv_of_white_is_l100() {
    let wp = Illuminant::D65.white_point();
    let luv = epick_core::cie::Luv::from_xyz(wp, Illuminant::D65);
    assert!((unit(luv.l) - 1.0).abs() < 1e-4);
    assert!(unit(luv.u).abs() < 1e-3);
    assert!(unit(luv.v).abs() < 1e-3);
}

#[test]
fn luv_round_trip_within_tolerance() {
    let samples = [
        Xyz::new_unchecked(2908438, 3060000, 3331820),
        Xyz::new_unchecked(SCALE as i64 / 2, SCALE as i64 / 3, SCALE as i64 / 7),
        Xyz::new_unchecked(1224000, 2448000, 612000),
    ];
    for ill in [Illuminant::D65, Illuminant::D50] {
        for v in samples {
            let back = epick_core::cie::Luv::from_xyz(v, ill).to_xyz(ill);
            assert!((unit(back.x()) - unit(v.x())).abs() < 1e-4, "{ill:?} x");
            assert!((unit(back.y()) - unit(v.y())).abs() < 1e-4, "{ill:?} y");
            assert!((unit(back.z()) - unit(v.z())).abs() < 1e-4, "{ill:?} z");
        }
    }
}

#[test]
fn luv_known_value_red() {
    // sRGB red is about L 53.2, u 175.0, v 37.8 under D65.
    let xyz = rgb_to_xyz(Rgb::from_u8(255, 0, 0), RgbWorkingSpace::SRGB);
    let luv = epick_core::cie::Luv::from_xyz(xyz, Illuminant::D65);
    assert!((unit(luv.l) * 100.0 - 53.24).abs() < 0.2, "L = {}", unit(luv.l) * 100.0);
    assert!((unit(luv.u) * 100.0 - 175.05).abs() < 1.0, "u = {}", unit(luv.u) * 100.0);
    assert!((unit(luv.v) * 100.0 - 37.75).abs() < 1.0, "v = {}", unit(luv.v) * 100.0);
}

#[test]
fn luv_color_variant_resolves_to_rgb() {
    let ws = RgbWorkingSpace::SRGB;
    let ill = Illuminant::D65;
    let rgb = Rgb::from_u8(90, 160, 70);
    let luv = epick_core::cie::Luv::from_xyz(rgb_to_xyz(rgb, ws), ill);
    let c = Color::Luv(luv, ws, ill);
    let back = c.as_rgb();
    assert!((unit(back.r() as i64) - unit(rgb.r() as i64)).abs() < 1e-3);
    assert!((unit(back.g() as i64) - unit(rgb.g() as i64)).abs() < 1e-3);
    assert!((unit(back.b() as i64) - unit(rgb.b() as i64)).abs() < 1e-3);
}
