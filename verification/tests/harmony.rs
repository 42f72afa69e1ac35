use epick_core::color::{Color, Gradient};
use epick_core::fixed::SCALE;
use epick_core::hsl::Hsl;
use epick_core::hsv::Hsv;
use epick_core::rgb::Rgb;

fn base() -> Color {
    Color::Hsv(Hsv::new_unchecked(SCALE / 5, SCALE / 2, SCALE))
}

fn hue_of(c: &Color) -> u64 {
    c.as_hsv().h()
}

#[test]
fn hue_wrap_full_turn_returns_same_hue() {
    for h in [0, 1, SCALE / 6, SCALE / 2, SCALE - 1] {
        let mut hsv = Hsv::new_unchecked(h, SCALE / 2, SCALE / 2);
        hsv.offset_hue(SCALE as i64);
        assert_eq!(hsv.h(), h);
        hsv.offset_hue(-(SCALE as i64));
        assert_eq!(hsv.h(), h);
    }
}

#[test]
fn hue_wrap_stays_in_range() {
    let offsets: [i64; 8] = [
        -(3 * SCALE as i64) - 17,
        -(SCALE as i64) - 1,
        -1,
        0,
        1,
        SCALE as i64 + 5,
        7 * SCALE as i64,
        i64::MAX / 2,
    ];
    for off in offsets {
        let mut hsv = Hsv::new_unchecked(SCALE / 3, SCALE, SCALE);
        hsv.offset_hue(off);
        assert!(hsv.h() < SCALE);
    }
}

#[test]
fn complementary_is_opposite() {
    let c = base();
    let compl = c.complementary();
    assert_eq!(hue_of(&compl), (hue_of(&c) + SCALE / 2) % SCALE);
    let back = compl.complementary();
    assert_eq!(hue_of(&back), hue_of(&c));
}

#[test]
fn tetradic_and_square_quarter_positions() {
    let c = base();
    let h = hue_of(&c);
    let (t1, t2, t3) = c.tetradic();
    assert_eq!(hue_of(&t1), (h + SCALE / 4) % SCALE);
    assert_eq!(hue_of(&t2), (h + SCALE / 2) % SCALE);
    assert_eq!(hue_of(&t3), (h + 3 * (SCALE / 4)) % SCALE);
    let (s1, s2, s3) = c.square();
    assert_eq!(hue_of(&s1), hue_of(&t1));
    assert_eq!(hue_of(&s2), hue_of(&t2));
    assert_eq!(hue_of(&s3), hue_of(&t3));
}

#[test]
fn triadic_third_positions() {
    let c = base();
    let h = hue_of(&c);
    let (t1, t2) = c.triadic();
    assert_eq!(hue_of(&t1), (h + SCALE / 3) % SCALE);
    assert_eq!(hue_of(&t2), (h + 2 * (SCALE / 3)) % SCALE);
}

#[test]
fn analogous_and_split_positions() {
    let c = base();
    let h = hue_of(&c);
    let (a1, a2) = c.analogous();
    assert_eq!(hue_of(&a1), (h + SCALE - SCALE / 12) % SCALE);
    assert_eq!(hue_of(&a2), (h + SCALE / 12) % SCALE);
    let (s1, s2) = c.split_complementary();
    assert_eq!(hue_of(&s1), (h + SCALE / 2 - SCALE / 12) % SCALE);
    assert_eq!(hue_of(&s2), (h + SCALE / 2 + SCALE / 12) % SCALE);
}

#[test]
fn monochromatic_keeps_hue() {
    let c = base();
    let (m1, m2, m3) = c.monochromatic();
    for m in [&m1, &m2, &m3] {
        match m {
            Color::Hsl(hsl) => assert_eq!(hsl.h(), c.as_hsl().h()),
            _ => panic!("monochromatic colors stay in HSL"),
        }
    }
}

#[test]
fn tints_step_toward_white() {
    let c = Color::Hsl(Hsl::new_unchecked(SCALE / 7, SCALE / 2, SCALE / 4));
    let tints = c.tints(6);
    assert_eq!(tints.len(), 6);
    let mut last = 0u64;
    for (i, t) in tints.iter().enumerate() {
        let l = t.as_hsl().l();
        if i == 0 {
            assert_eq!(l, SCALE / 4);
        }
        assert!(l >= last);
        last = l;
    }
    let near_white = (SCALE - last) as f64 / SCALE as f64;
    assert!(near_white <= (1.0 - 0.25) / 6.0 + 1e-6);
}

#[test]
fn shades_step_toward_black() {
    let c = Color::Hsl(Hsl::new_unchecked(SCALE / 7, SCALE / 2, 3 * SCALE / 4));
    let shades = c.shades(6);
    assert_eq!(shades.len(), 6);
    let mut last = SCALE;
    for (i, s) in shades.iter().enumerate() {
        let l = s.as_hsl().l();
        if i == 0 {
            assert_eq!(l, 3 * SCALE / 4);
        }
        assert!(l <= last);
        last = l;
    }
    let near_black = last as f64 / SCALE as f64;
    assert!(near_black <= 0.75 / 6.0 + 1e-6);
}

#[test]
fn zero_steps_give_empty_sequences() {
    let c = base();
    assert!(c.tints(0).is_empty());
    assert!(c.shades(0).is_empty());
    assert!(c.hues(0, 1000).is_empty());
}

#[test]
fn hues_rotate_by_constant_step() {
    let c = base();
    let step: i64 = SCALE as i64 / 20;
    let hues = c.hues(4, step);
    assert_eq!(hues.len(), 4);
    let h = hue_of(&c);
    for (i, x) in hues.iter().enumerate() {
        let expected = (h as i64 + (i as i64 + 1) * step).rem_euclid(SCALE as i64) as u64;
        assert_eq!(hue_of(x), expected);
        assert_eq!(x.as_hsv().s(), c.as_hsv().s());
        assert_eq!(x.as_hsv().v(), c.as_hsv().v());
    }
}

#[test]
fn same_color_compares_canonical_rgb() {
    let red_rgb = Color::Rgb(Rgb::from_u8(255, 0, 0));
    let red_hsv = Color::Hsv(Hsv::new_unchecked(0, SCALE, SCALE));
    assert!(red_rgb.same_color(&red_hsv));
    let blue = Color::Rgb(Rgb::from_u8(0, 0, 255));
    assert!(!red_rgb.same_color(&blue));
}

#[test]
fn gradient_samples_interpolate_endpoints() {
    let black = Color::Rgb(Rgb::new_unchecked(0, 0, 0));
    let white = Color::Rgb(Rgb::new_unchecked(SCALE, SCALE, SCALE));
    let g = Gradient::from_colors(vec![black, white]);
    assert_eq!(g.len(), 2);
    let first = g.color_at(0, 5);
    assert_eq!((first.r(), first.g(), first.b()), (0, 0, 0));
    let last = g.color_at(4, 5);
    assert_eq!((last.r(), last.g(), last.b()), (SCALE, SCALE, SCALE));
    let mid = g.color_at(2, 5);
    assert_eq!(mid.r(), SCALE / 2);
    let mut prev = 0;
    for i in 0..5 {
        let s = g.color_at(i, 5);
        assert!(s.r() >= prev);
        prev = s.r();
    }
}
