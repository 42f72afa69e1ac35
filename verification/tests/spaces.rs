use epick_core::color::Color;
use epick_core::fixed::SCALE;
use epick_core::illuminant::Illuminant;
use epick_core::rgb::Rgb;
use epick_core::workspace::{
    decode_channel, encode_channel, rgb_to_xyz, xyz_to_rgb, Companding, RgbWorkingSpace,
};

fn unit(v: i64) -> f64 {
    v as f64 / SCALE as f64
}

fn spaces() -> [RgbWorkingSpace; 9] {
    [
        RgbWorkingSpace::Adobe,
        RgbWorkingSpace::Apple,
        RgbWorkingSpace::CIE,
        RgbWorkingSpace::ECI,
        RgbWorkingSpace::NTSC,
        RgbWorkingSpace::PAL,
        RgbWorkingSpace::ProPhoto,
        RgbWorkingSpace::SRGB,
        RgbWorkingSpace::WideGamut,
    ]
}

#[test]
fn white_maps_to_reference_white() {
    for ws in spaces() {
        let white = Rgb::new_unchecked(SCALE, SCALE, SCALE);
        let xyz = rgb_to_xyz(white, ws);
        let wp = ws.reference_illuminant().white_point();
        let tol = 2e-4;
        assert!((unit(xyz.x()) - unit(wp.x())).abs() < tol, "{ws:?} x");
        assert!((unit(xyz.y()) - unit(wp.y())).abs() < tol, "{ws:?} y");
        assert!((unit(xyz.z()) - unit(wp.z())).abs() < tol, "{ws:?} z");
    }
}

#[test]
fn black_maps_to_zero() {
    for ws in spaces() {
        let xyz = rgb_to_xyz(Rgb::new_unchecked(0, 0, 0), ws);
        assert_eq!((xyz.x(), xyz.y(), xyz.z()), (0, 0, 0));
    }
}

#[test]
fn srgb_red_known_xyz() {
    let xyz = rgb_to_xyz(Rgb::from_u8(255, 0, 0), RgbWorkingSpace::SRGB);
    assert!((unit(xyz.x()) - 0.4124).abs() < 1e-3);
    assert!((unit(xyz.y()) - 0.2127).abs() < 1e-3);
    assert!((unit(xyz.z()) - 0.0193).abs() < 1e-3);
}

#[test]
fn rgb_xyz_round_trip_within_tolerance() {
    // The gamma curves have unbounded slope at black, so a rounding error of
    // a few linear-light units grows to a few 1e-3 in a companded channel
    // near zero; 32-bit floats behave the same way there. Away from black
    // the trip is tight.
    let channels = [0u64, SCALE / 9, SCALE / 3, SCALE / 2, 4 * SCALE / 5, SCALE];
    let tol_of = |c: u64| if c >= SCALE / 9 { 2e-4 } else { 4e-3 };
    for ws in spaces() {
        for &r in &channels {
            for &g in &channels {
                for &b in &channels {
                    let rgb = Rgb::new_unchecked(r, g, b);
                    let back = xyz_to_rgb(rgb_to_xyz(rgb, ws), ws);
                    assert!((unit(back.r() as i64) - unit(r as i64)).abs() < tol_of(r), "{ws:?} r");
                    assert!((unit(back.g() as i64) - unit(g as i64)).abs() < tol_of(g), "{ws:?} g");
                    assert!((unit(back.b() as i64) - unit(b as i64)).abs() < tol_of(b), "{ws:?} b");
                }
            }
        }
    }
}

#[test]
fn companding_round_trip_within_tolerance() {
    let curves = [
        Companding::Srgb,
        Companding::LStar,
        Companding::Power { num: 11 },
        Companding::Power { num: 9 },
    ];
    for c in curves {
        for v in [0u64, 1, SCALE / 100, SCALE / 10, SCALE / 2, SCALE - 1, SCALE] {
            let lin = decode_channel(v, c);
            let back = encode_channel(lin, c);
            assert!(
                (unit(back as i64) - unit(v as i64)).abs() < 2e-4,
                "{c:?} at {v}: {back}"
            );
        }
    }
}

#[test]
fn srgb_decode_known_values() {
    let half = decode_channel(SCALE / 2, Companding::Srgb);
    assert!((unit(half as i64) - 0.21404).abs() < 1e-4);
    assert_eq!(decode_channel(0, Companding::Srgb), 0);
    assert_eq!(decode_channel(SCALE, Companding::Srgb), SCALE);
    let gamma22 = decode_channel(SCALE / 2, Companding::Power { num: 11 });
    assert!((unit(gamma22 as i64) - 0.5f64.powf(2.2)).abs() < 1e-4);
}

#[test]
fn xyz_color_variant_resolves_through_its_space() {
    let ws = RgbWorkingSpace::SRGB;
    let rgb = Rgb::from_u8(10, 200, 60);
    let xyz = rgb_to_xyz(rgb, ws);
    let c = Color::Xyz(xyz, ws);
    let resolved = c.as_rgb();
    let tol = 2e-4;
    assert!((unit(resolved.r() as i64) - unit(rgb.r() as i64)).abs() < tol);
    assert!((unit(resolved.g() as i64) - unit(rgb.g() as i64)).abs() < tol);
    assert!((unit(resolved.b() as i64) - unit(rgb.b() as i64)).abs() < tol);
    let direct = c.as_xyz(ws);
    assert_eq!(direct, xyz);
    let from_rgb_color = Color::Rgb(rgb).as_xyz(ws);
    assert_eq!(from_rgb_color, xyz);
    let _ = Illuminant::D65;
}

#[test]
fn out_of_gamut_xyz_clips() {
    let v = epick_core::xyz::Xyz::new_unchecked(2 * SCALE as i64, 0, 0);
    let rgb = xyz_to_rgb(v, RgbWorkingSpace::SRGB);
    assert!(rgb.r() <= SCALE);
    assert!(rgb.g() <= SCALE);
    assert!(rgb.b() <= SCALE);
}
