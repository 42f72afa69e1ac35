use epick_core::color::Color;
use epick_core::display::{color_tooltip, from_hex, hex_color, ColorFormat};
use epick_core::error::ErrorStack;
use epick_core::fixed::SCALE;
use epick_core::illuminant::Illuminant;
use epick_core::rgb::Rgb;
use epick_core::settings::{ColorDisplayFmtEnum, Settings};
use epick_core::workspace::RgbWorkingSpace;

fn show(c: &Color, f: ColorFormat) -> String {
    c.display(&f, RgbWorkingSpace::SRGB, Illuminant::D65)
}

#[test]
fn hex_round_trip_all_bytes() {
    for r in [0u8, 1, 15, 16, 127, 128, 254, 255] {
        for g in [0u8, 9, 99, 200, 255] {
            for b in [0u8, 77, 255] {
                let c = Color::Rgb(Rgb::from_u8(r, g, b));
                let text = show(&c, ColorFormat::Hex);
                let parsed = from_hex(&text).expect("hex output parses back");
                let rgb = parsed.as_rgb();
                assert_eq!(rgb.r_byte(), r);
                assert_eq!(rgb.g_byte(), g);
                assert_eq!(rgb.b_byte(), b);
            }
        }
    }
}

#[test]
fn hex_known_values() {
    let red = Color::Rgb(Rgb::from_u8(255, 0, 0));
    assert_eq!(show(&red, ColorFormat::Hex), "ff0000");
    assert_eq!(show(&red, ColorFormat::HexUpercase), "FF0000");
    let teal = Color::Rgb(Rgb::from_u8(0, 128, 128));
    assert_eq!(show(&teal, ColorFormat::Hex), "008080");
    let odd = Color::Rgb(Rgb::from_u8(1, 35, 171));
    assert_eq!(show(&odd, ColorFormat::Hex), "0123ab");
    assert_eq!(show(&odd, ColorFormat::HexUpercase), "0123AB");
}

#[test]
fn from_hex_accepts_only_six_hex_digits() {
    assert!(from_hex("aabbcc").is_some());
    assert!(from_hex("#aabbcc").is_some());
    assert!(from_hex("#AABBCC").is_some());
    assert!(from_hex("").is_none());
    assert!(from_hex("#").is_none());
    assert!(from_hex("aabbc").is_none());
    assert!(from_hex("aabbccd").is_none());
    assert!(from_hex("#aabbccdd").is_none());
    assert!(from_hex("aabbcg").is_none());
    assert!(from_hex("##abcde").is_none());
    assert!(from_hex("aab bc").is_none());
    assert!(from_hex("aabbc\u{e9}").is_none());
}

#[test]
fn from_hex_parses_channels() {
    let c = from_hex("#0180ff").expect("valid hex");
    let rgb = c.as_rgb();
    assert_eq!(rgb.r_byte(), 1);
    assert_eq!(rgb.g_byte(), 128);
    assert_eq!(rgb.b_byte(), 255);
}

#[test]
fn css_rgb_form() {
    let c = Color::Rgb(Rgb::from_u8(255, 0, 64));
    assert_eq!(show(&c, ColorFormat::CssRgb), "rgb(255, 0, 64)");
}

#[test]
fn css_hsl_form() {
    let red = Color::Rgb(Rgb::from_u8(255, 0, 0));
    assert_eq!(
        show(&red, ColorFormat::CssHsl { degree_symbol: true }),
        "hsl(0\u{b0}, 100%, 50%)"
    );
    assert_eq!(show(&red, ColorFormat::CssHsl { degree_symbol: false }), "hsl(0, 100%, 50%)");
    let green = Color::Rgb(Rgb::from_u8(0, 255, 0));
    assert_eq!(show(&green, ColorFormat::CssHsl { degree_symbol: false }), "hsl(120, 100%, 50%)");
}

#[test]
fn custom_template_fills_channels() {
    let c = Color::Rgb(Rgb::from_u8(12, 34, 56));
    let f = ColorFormat::Custom("R={r} G={g} B={b}".to_string());
    assert_eq!(show(&c, f), "R=12 G=34 B=56");
    let braces = ColorFormat::Custom("{x}{rr}{b}".to_string());
    assert_eq!(show(&c, braces), "{x}{rr}56");
}

#[test]
fn custom_format_fallback_reports_one_error() {
    let mut settings = Settings::default();
    settings.color_display_format = ColorDisplayFmtEnum::Custom("missing".to_string());
    let mut stack = ErrorStack::new();
    let format = settings.display_format(&mut stack);
    assert_eq!(format, ColorFormat::Hex);
    assert_eq!(stack.errors.len(), 1);
    assert_eq!(
        stack.errors[0].message(),
        "Custom color format `missing` not found"
    );
    let c = Color::Rgb(Rgb::from_u8(255, 255, 255));
    assert_eq!(show(&c, format), "ffffff");
}

#[test]
fn custom_format_resolves_when_registered() {
    let mut settings = Settings::default();
    settings.saved_color_formats.push(("mine".to_string(), "<{r}>".to_string()));
    settings.color_display_format = ColorDisplayFmtEnum::Custom("mine".to_string());
    let mut stack = ErrorStack::new();
    let format = settings.display_format(&mut stack);
    assert_eq!(stack.errors.len(), 0);
    assert_eq!(format, ColorFormat::Custom("<{r}>".to_string()));
    let c = Color::Rgb(Rgb::from_u8(9, 0, 0));
    assert_eq!(show(&c, format), "<9>");
}

#[test]
fn clipboard_format_falls_back_to_display_choice() {
    let mut settings = Settings::default();
    settings.color_display_format = ColorDisplayFmtEnum::CssHsl;
    settings.color_clipboard_format = None;
    let mut stack = ErrorStack::new();
    let format = settings.clipboard_format(&mut stack);
    assert_eq!(format, ColorFormat::CssHsl { degree_symbol: false });
    settings.color_clipboard_format = Some(ColorDisplayFmtEnum::CssRgb);
    let format = settings.clipboard_format(&mut stack);
    assert_eq!(format, ColorFormat::CssRgb);
    assert_eq!(stack.errors.len(), 0);
}

#[test]
fn tooltip_holds_display_and_text() {
    let c = Color::Rgb(Rgb::from_u8(255, 0, 0));
    let t = color_tooltip(&c, &ColorFormat::Hex, RgbWorkingSpace::SRGB, Illuminant::D65, None);
    assert_eq!(t, "ff0000\n\n");
    let t = color_tooltip(
        &c,
        &ColorFormat::Hex,
        RgbWorkingSpace::SRGB,
        Illuminant::D65,
        Some("click to save"),
    );
    assert_eq!(t, "ff0000\n\nclick to save");
}

#[test]
fn hex_color_helper_matches_display() {
    let rgb = Rgb::from_u8(171, 205, 239);
    assert_eq!(hex_color(&rgb, false), "abcdef");
    assert_eq!(hex_color(&rgb, true), "ABCDEF");
}

#[test]
fn gray_css_hsl_has_zero_saturation() {
    let gray = Color::Rgb(Rgb::new_unchecked(SCALE / 2, SCALE / 2, SCALE / 2));
    assert_eq!(show(&gray, ColorFormat::CssHsl { degree_symbol: false }), "hsl(0, 0%, 50%)");
}
