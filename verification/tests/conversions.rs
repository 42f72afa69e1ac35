use epick_core::cmyk::Cmyk;
use epick_core::fixed::SCALE;
use epick_core::hsl::Hsl;
use epick_core::hsv::Hsv;
use epick_core::rgb::Rgb;

const TOL: f64 = 1e-5;

fn unit(v: u64) -> f64 {
    v as f64 / SCALE as f64
}

fn assert_close(a: u64, b: u64) {
    assert!(
        (unit(a) - unit(b)).abs() <= TOL,
        "{} and {} differ by more than the tolerance",
        unit(a),
        unit(b)
    );
}

#[test]
fn rgb_to_hsv() {
    let cases: [(u64, u64, u64, u64, u64, u64); 10] = [
        (0, 0, 0, 0, 0, 0),
        (255 * SCALE, 0, 0, 0, SCALE, SCALE),
        (255 * SCALE, 255 * SCALE, 0, SCALE / 6, SCALE, SCALE),
        (255 * SCALE / 2, 255 * SCALE, 0, SCALE / 4, SCALE, SCALE),
        (0, 255 * SCALE, 0, SCALE / 3, SCALE, SCALE),
        (0, 255 * SCALE, 255 * SCALE, SCALE / 2, SCALE, SCALE),
        (0, 0, 255 * SCALE, 2 * SCALE / 3, SCALE, SCALE),
        (255 * SCALE / 2, 0, 255 * SCALE, 3 * SCALE / 4, SCALE, SCALE),
        (255 * SCALE, 0, 255 * SCALE, 5 * SCALE / 6, SCALE, SCALE),
        (255 * SCALE, 0, 0, 0, SCALE, SCALE),
    ];
    for (r, g, b, h, s, v) in cases {
        let expected = Hsv::new(h, s, v);
        let rgb = Rgb::new(r, g, b);
        let got = Hsv::from_rgb(rgb);
        assert_eq!(got, expected);
    }
}

#[test]
fn known_hsv_values() {
    let cases: [(u8, u8, u8, u64, u64, u64); 7] = [
        (0, 0, 0, 0, 0, 0),
        (255, 0, 0, 0, SCALE, SCALE),
        (255, 255, 0, SCALE / 6, SCALE, SCALE),
        (0, 255, 0, SCALE / 3, SCALE, SCALE),
        (0, 255, 255, SCALE / 2, SCALE, SCALE),
        (0, 0, 255, 2 * SCALE / 3, SCALE, SCALE),
        (255, 0, 255, 5 * SCALE / 6, SCALE, SCALE),
    ];
    for (r, g, b, h, s, v) in cases {
        let hsv = Hsv::from_rgb(Rgb::from_u8(r, g, b));
        assert_eq!(hsv.h(), h);
        assert_eq!(hsv.s(), s);
        assert_eq!(hsv.v(), v);
    }
}

fn sample_channels() -> Vec<u64> {
    vec![
        0,
        1,
        SCALE / 255,
        SCALE / 7,
        SCALE / 3,
        SCALE / 2,
        2 * SCALE / 3,
        SCALE - 1,
        SCALE,
        1234567,
        2999999,
    ]
}

#[test]
fn rgb_hsv_round_trip_within_tolerance() {
    for &r in &sample_channels() {
        for &g in &sample_channels() {
            for &b in &sample_channels() {
                let rgb = Rgb::new_unchecked(r, g, b);
                let back = Hsv::from_rgb(rgb).to_rgb();
                assert_close(back.r(), r);
                assert_close(back.g(), g);
                assert_close(back.b(), b);
            }
        }
    }
}

#[test]
fn rgb_hsl_round_trip_within_tolerance() {
    for &r in &sample_channels() {
        for &g in &sample_channels() {
            for &b in &sample_channels() {
                let rgb = Rgb::new_unchecked(r, g, b);
                let back = Hsl::from_rgb(rgb).to_rgb();
                assert_close(back.r(), r);
                assert_close(back.g(), g);
                assert_close(back.b(), b);
            }
        }
    }
}

#[test]
fn rgb_cmyk_round_trip_within_tolerance() {
    for &r in &sample_channels() {
        for &g in &sample_channels() {
            for &b in &sample_channels() {
                let rgb = Rgb::new_unchecked(r, g, b);
                let back = Cmyk::from_rgb(rgb).to_rgb();
                assert_close(back.r(), r);
                assert_close(back.g(), g);
                assert_close(back.b(), b);
            }
        }
    }
}

#[test]
fn constructor_sanity_mapping() {
    let hsv = Hsv::new(180 * SCALE, 50 * SCALE, 100 * SCALE);
    assert_eq!(hsv.h(), SCALE / 2);
    assert_eq!(hsv.s(), SCALE / 2);
    assert_eq!(hsv.v(), SCALE);
    let in_range = Hsv::new(SCALE / 3, SCALE / 4, SCALE / 5);
    assert_eq!(in_range.h(), SCALE / 3);
    assert_eq!(in_range.s(), SCALE / 4);
    assert_eq!(in_range.v(), SCALE / 5);
    let rgb = Rgb::new(255 * SCALE, 128 * SCALE, 0);
    assert_eq!(rgb.r(), SCALE);
    assert_eq!(rgb.g(), 128 * SCALE / 255);
    assert_eq!(rgb.b(), 0);
}

#[test]
fn scaled_getters() {
    let hsv = Hsv::new_unchecked(SCALE / 2, SCALE / 4, SCALE);
    assert_eq!(hsv.h_scaled(), SCALE / 2 * 360);
    assert_eq!(hsv.s_scaled(), SCALE / 4 * 100);
    assert_eq!(hsv.v_scaled(), SCALE * 100);
    let rgb = Rgb::from_u8(10, 20, 30);
    assert_eq!(rgb.r_byte(), 10);
    assert_eq!(rgb.g_byte(), 20);
    assert_eq!(rgb.b_byte(), 30);
}

#[test]
fn cmyk_black_has_no_chroma() {
    let cmyk = Cmyk::from_rgb(Rgb::new_unchecked(0, 0, 0));
    assert_eq!(cmyk.c, 0);
    assert_eq!(cmyk.m, 0);
    assert_eq!(cmyk.y, 0);
    assert_eq!(cmyk.k, SCALE);
}
