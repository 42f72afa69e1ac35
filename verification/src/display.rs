//! Formatting a color as text, and parsing hex text back into a color.

use vstd::prelude::*;

use crate::color::Color;
use crate::fixed::SCALE;
use crate::hsl::Hsl;
use crate::illuminant::Illuminant;
use crate::rgb::{spec_component_byte, Rgb, BYTE_UNIT};
use crate::text::{append_u64, push_digit, spec_decimal};
use crate::workspace::RgbWorkingSpace;
use vstd::utf8::{is_ascii_chars, is_ascii_chars_nat_bound};

verus! {

/// How a color is rendered as text.
#[derive(Clone, Debug, PartialEq, Eq)]
pub enum ColorFormat {
    Hex,
    HexUpercase,
    CssRgb,
    CssHsl { degree_symbol: bool },
    Custom(String),
}

/// The character for one hex digit.
pub open spec fn spec_hex_digit_char(d: int, upper: bool) -> char {
    if d < 10 {
        crate::text::spec_digit_char(d)
    } else if d == 10 {
        if upper {
            'A'
        } else {
            'a'
        }
    } else if d == 11 {
        if upper {
            'B'
        } else {
            'b'
        }
    } else if d == 12 {
        if upper {
            'C'
        } else {
            'c'
        }
    } else if d == 13 {
        if upper {
            'D'
        } else {
            'd'
        }
    } else if d == 14 {
        if upper {
            'E'
        } else {
            'e'
        }
    } else {
        if upper {
            'F'
        } else {
            'f'
        }
    }
}

/// The two hex digits of a byte.
pub open spec fn spec_hex_byte(b: int, upper: bool) -> Seq<char> {
    seq![spec_hex_digit_char(b / 16, upper), spec_hex_digit_char(b % 16, upper)]
}

/// The six hex digits of an RGB byte triple.
pub open spec fn spec_hex_color(r: int, g: int, b: int, upper: bool) -> Seq<char> {
    spec_hex_byte(r, upper) + spec_hex_byte(g, upper) + spec_hex_byte(b, upper)
}

/// The value of a hex digit character, or -1 for any other character.
pub open spec fn spec_hex_val(c: char) -> int {
    let v = c as int;
    if 48 <= v <= 57 {
        v - 48
    } else if 97 <= v <= 102 {
        v - 87
    } else if 65 <= v <= 70 {
        v - 55
    } else {
        -1
    }
}

/// The text without one leading `#`, if it carries one.
pub open spec fn spec_strip_hash(s: Seq<char>) -> Seq<char> {
    if s.len() > 0 && s[0] == '#' {
        s.drop_first()
    } else {
        s
    }
}

/// The byte triple that a hex string denotes: after the optional `#` there
/// must be exactly six hex digits, else there is no result.
pub open spec fn spec_from_hex(s: Seq<char>) -> Option<(int, int, int)> {
    let t = spec_strip_hash(s);
    if t.len() == 6 && (forall|i: int| 0 <= i < 6 ==> spec_hex_val(#[trigger] t[i]) >= 0) {
        Some(
            (
                spec_hex_val(t[0]) * 16 + spec_hex_val(t[1]),
                spec_hex_val(t[2]) * 16 + spec_hex_val(t[3]),
                spec_hex_val(t[4]) * 16 + spec_hex_val(t[5]),
            ),
        )
    } else {
        None
    }
}

/// A value rounded from the unit scale to a target scale `k`.
pub open spec fn spec_round_scaled(v: u64, k: u64) -> int {
    (v * k + SCALE / 2) as int / (SCALE as int)
}

/// The CSS `rgb(...)` form with 0-255 integer channels.
pub open spec fn spec_css_rgb(r: int, g: int, b: int) -> Seq<char> {
    "rgb("@ + spec_decimal(r) + ", "@ + spec_decimal(g) + ", "@ + spec_decimal(b) + ")"@
}

/// The CSS `hsl(...)` form with the hue in degrees and percentages for
/// saturation and lightness; the degree symbol only when asked for.
pub open spec fn spec_css_hsl(h: int, s: int, l: int, degree_symbol: bool) -> Seq<char> {
    let deg = if degree_symbol {
        seq!['\u{b0}']
    } else {
        Seq::<char>::empty()
    };
    "hsl("@ + spec_decimal(h) + deg + ", "@ + spec_decimal(s) + "%, "@ + spec_decimal(l) + "%)"@
}

/// A custom template resolved against an RGB byte triple: `{r}`, `{g}` and
/// `{b}` become the decimal channel values, all else is copied.
pub open spec fn spec_custom_fill(t: Seq<char>, r: int, g: int, b: int) -> Seq<char>
    decreases t.len(),
{
    if t.len() == 0 {
        t
    } else if t.len() >= 3 && t[0] == '{' && t[2] == '}' && (t[1] == 'r' || t[1] == 'g' || t[1]
        == 'b') {
        (if t[1] == 'r' {
            spec_decimal(r)
        } else if t[1] == 'g' {
            spec_decimal(g)
        } else {
            spec_decimal(b)
        }) + spec_custom_fill(t.skip(3), r, g, b)
    } else {
        seq![t[0]] + spec_custom_fill(t.skip(1), r, g, b)
    }
}

/// What `display` produces for a color under a format: the hex forms and
/// `rgb(...)` from the canonical RGB bytes, `hsl(...)` from the HSL
/// resolution, and a custom template filled from the RGB bytes (a template
/// that is not plain ASCII text is left as it is).
pub open spec fn spec_display(c: Color, format: ColorFormat) -> Seq<char> {
    let rgb = c.spec_rgb();
    let r = spec_component_byte(rgb.r);
    let g = spec_component_byte(rgb.g);
    let b = spec_component_byte(rgb.b);
    match format {
        ColorFormat::Hex => spec_hex_color(r, g, b, false),
        ColorFormat::HexUpercase => spec_hex_color(r, g, b, true),
        ColorFormat::CssRgb => spec_css_rgb(r, g, b),
        ColorFormat::CssHsl { degree_symbol } => {
            let hsl = c.spec_hsl();
            spec_css_hsl(
                spec_round_scaled(hsl.h, 360),
                spec_round_scaled(hsl.s, 100),
                spec_round_scaled(hsl.l, 100),
                degree_symbol,
            )
        },
        ColorFormat::Custom(t) => if is_ascii_chars(t@) {
            spec_custom_fill(t@, r, g, b)
        } else {
            t@
        },
    }
}

impl Color {
    /// Renders the color under the given format. The working space and
    /// illuminant parameters select the context that CIE-derived variants
    /// resolve under; the representations held here carry all they need, so
    /// the text depends on the color and format alone.
    pub fn display(
        &self,
        format: &ColorFormat,
        _ws: RgbWorkingSpace,
        _illuminant: Illuminant,
    ) -> (r: String)
        requires
            self.wf(),
        ensures
            r@ == spec_display(*self, *format),
    {
        let rgb = self.as_rgb();
        match format {
            ColorFormat::Hex => hex_color(&rgb, false),
            ColorFormat::HexUpercase => hex_color(&rgb, true),
            ColorFormat::CssRgb => css_rgb(&rgb),
            ColorFormat::CssHsl { degree_symbol } => css_hsl(&self.as_hsl(), *degree_symbol),
            ColorFormat::Custom(t) => custom_fill(t.as_str(), &rgb),
        }
    }
}

/// Renders an RGB color as six hex digits.
pub fn hex_color(rgb: &Rgb, upper: bool) -> (r: String)
    requires
        rgb.wf(),
    ensures
        r@ == spec_hex_color(
            spec_component_byte(rgb.r),
            spec_component_byte(rgb.g),
            spec_component_byte(rgb.b),
            upper,
        ),
{
    let mut s = String::new();
    append_hex_byte(&mut s, rgb.r_byte(), upper);
    append_hex_byte(&mut s, rgb.g_byte(), upper);
    append_hex_byte(&mut s, rgb.b_byte(), upper);
    s
}

/// Renders an RGB color as `rgb(R, G, B)` with 0-255 channels.
pub fn css_rgb(rgb: &Rgb) -> (r: String)
    requires
        rgb.wf(),
    ensures
        r@ == spec_css_rgb(
            spec_component_byte(rgb.r),
            spec_component_byte(rgb.g),
            spec_component_byte(rgb.b),
        ),
{
    let mut s: String = "rgb(".to_owned();
    proof {
        reveal_strlit("rgb(");
        reveal_strlit(", ");
        reveal_strlit(")");
    }
    append_u64(&mut s, rgb.r_byte() as u64);
    s.append(", ");
    append_u64(&mut s, rgb.g_byte() as u64);
    s.append(", ");
    append_u64(&mut s, rgb.b_byte() as u64);
    s.append(")");
    proof {
        assert(s@ =~= spec_css_rgb(
            spec_component_byte(rgb.r),
            spec_component_byte(rgb.g),
            spec_component_byte(rgb.b),
        ));
    }
    s
}

/// Renders an HSL color as `hsl(H, S%, L%)`, the hue in degrees.
pub fn css_hsl(hsl: &Hsl, degree_symbol: bool) -> (r: String)
    requires
        hsl.wf(),
    ensures
        r@ == spec_css_hsl(
            spec_round_scaled(hsl.h, 360),
            spec_round_scaled(hsl.s, 100),
            spec_round_scaled(hsl.l, 100),
            degree_symbol,
        ),
{
    let mut s: String = "hsl(".to_owned();
    proof {
        reveal_strlit("hsl(");
        reveal_strlit("\u{b0}");
        reveal_strlit(", ");
        reveal_strlit("%, ");
        reveal_strlit("%)");
    }
    append_u64(&mut s, round_scaled(hsl.h, 360));
    if degree_symbol {
        s.append("\u{b0}");
    }
    s.append(", ");
    append_u64(&mut s, round_scaled(hsl.s, 100));
    s.append("%, ");
    append_u64(&mut s, round_scaled(hsl.l, 100));
    s.append("%)");
    proof {
        assert(s@ =~= spec_css_hsl(
            spec_round_scaled(hsl.h, 360),
            spec_round_scaled(hsl.s, 100),
            spec_round_scaled(hsl.l, 100),
            degree_symbol,
        ));
    }
    s
}

/// Parses hex text into a color: an optional leading `#`, then exactly six
/// hex digits; anything else gives no result.
pub fn from_hex(text: &str) -> (r: Option<Color>)
    ensures
        ({
            match spec_from_hex(text@) {
                Option::None => r is None,
                Option::Some(t) => r == Some(
                    Color::Rgb(
                        Rgb {
                            r: (t.0 * BYTE_UNIT) as u64,
                            g: (t.1 * BYTE_UNIT) as u64,
                            b: (t.2 * BYTE_UNIT) as u64,
                        },
                    ),
                ),
            }
        }),
        r is Some <==> spec_from_hex(text@) is Some,
{
    if !text.is_ascii() {
        proof {
            lemma_non_ascii_no_hex(text@);
        }
        return None;
    }
    proof {
        is_ascii_chars_nat_bound(text@);
    }
    let n = text.unicode_len();
    let ghost t = spec_strip_hash(text@);
    let start: usize;
    if n >= 1 && text.get_ascii(0) == 35 {
        start = 1;
        proof {
            reveal_strlit("#");
            assert(text@[0] as u8 == 35 && ((text@[0] as nat) < 128));
            assert(text@[0] == '#') by {
                lemma_ascii_val(text@[0]);
                lemma_ascii_val('#');
            }
            assert(t =~= text@.drop_first());
        }
    } else {
        start = 0;
        proof {
            reveal_strlit("#");
            if n >= 1 && text@[0] == '#' {
                lemma_ascii_val(text@[0]);
                lemma_ascii_val('#');
            }
            assert(t =~= text@);
        }
    }
    if n < start || n - start != 6 {
        return None;
    }
    let d0 = hex_val(text.get_ascii(start));
    let d1 = hex_val(text.get_ascii(start + 1));
    let d2 = hex_val(text.get_ascii(start + 2));
    let d3 = hex_val(text.get_ascii(start + 3));
    let d4 = hex_val(text.get_ascii(start + 4));
    let d5 = hex_val(text.get_ascii(start + 5));
    proof {
        assert forall|i: int| 0 <= i < 6 implies t[i] == text@[start + i] && ((t[i] as nat)
            < 128) by {}
        lemma_hex_val_bridge(t[0]);
        lemma_hex_val_bridge(t[1]);
        lemma_hex_val_bridge(t[2]);
        lemma_hex_val_bridge(t[3]);
        lemma_hex_val_bridge(t[4]);
        lemma_hex_val_bridge(t[5]);
    }
    if d0 > 15 || d1 > 15 || d2 > 15 || d3 > 15 || d4 > 15 || d5 > 15 {
        return None;
    }
    Some(Color::Rgb(Rgb::from_u8(16 * d0 + d1, 16 * d2 + d3, 16 * d4 + d5)))
}

/// An ASCII character's byte cast carries its scalar value.
proof fn lemma_ascii_val(c: char)
    requires
        (c as nat) < 128,
    ensures
        (c as u8) as int == c as int,
{
}

/// For an ASCII character the byte-level hex value matches the char-level
/// one.
proof fn lemma_hex_val_bridge(c: char)
    requires
        (c as nat) < 128,
    ensures
        spec_hex_val_byte(c as u8) == spec_hex_val(c),
{
    lemma_ascii_val(c);
}

/// The value of a hex digit byte, or -1 for any other byte.
pub open spec fn spec_hex_val_byte(b: u8) -> int {
    if 48 <= b <= 57 {
        b - 48
    } else if 97 <= b <= 102 {
        b - 87
    } else if 65 <= b <= 70 {
        b - 55
    } else {
        -1
    }
}

/// Fills a custom template from a color's RGB byte channels.
pub fn custom_fill(template: &str, rgb: &Rgb) -> (r: String)
    requires
        rgb.wf(),
    ensures
        r@ == (if is_ascii_chars(template@) {
            spec_custom_fill(
                template@,
                spec_component_byte(rgb.r),
                spec_component_byte(rgb.g),
                spec_component_byte(rgb.b),
            )
        } else {
            template@
        }),
{
    if !template.is_ascii() {
        return template.to_owned();
    }
    proof {
        is_ascii_chars_nat_bound(template@);
    }
    let ghost rv = spec_component_byte(rgb.r) as int;
    let ghost gv = spec_component_byte(rgb.g) as int;
    let ghost bv = spec_component_byte(rgb.b) as int;
    let rb = rgb.r_byte();
    let gb = rgb.g_byte();
    let bb = rgb.b_byte();
    let n = template.unicode_len();
    let mut out = String::new();
    let mut i: usize = 0;
    proof {
        assert(template@.skip(0) =~= template@);
        reveal_strlit("{");
        reveal_strlit("}");
        reveal_strlit("r");
        reveal_strlit("g");
        reveal_strlit("b");
        assert('{' as int == 123 && '}' as int == 125);
        assert('r' as int == 114 && 'g' as int == 103 && 'b' as int == 98);
    }
    while i < n
        invariant
            is_ascii_chars(template@),
            forall|k: int| 0 <= k < template@.len() ==> ((#[trigger] template@[k]) as nat) < 128,
            n == template@.len(),
            i <= n,
            rv == spec_component_byte(rgb.r) && gv == spec_component_byte(rgb.g) && bv
                == spec_component_byte(rgb.b),
            rb == rv && gb == gv && bb == bv,
            out@ + spec_custom_fill(template@.skip(i as int), rv, gv, bv) == spec_custom_fill(
                template@,
                rv,
                gv,
                bv,
            ),
        decreases n - i,
    {
        let ghost rest = template@.skip(i as int);
        let c = template.get_ascii(i);
        if c == 123 && n - i > 2 && template.get_ascii(i + 2) == 125 {
            let tag = template.get_ascii(i + 1);
            if tag == 114 || tag == 103 || tag == 98 {
                proof {
                    assert(rest[0] == template@[i as int] && rest[1] == template@[i as int + 1]
                        && rest[2] == template@[i as int + 2]);
                    assert(rest.skip(3) =~= template@.skip(i as int + 3));
                }
                if tag == 114 {
                    append_u64(&mut out, rb as u64);
                } else if tag == 103 {
                    append_u64(&mut out, gb as u64);
                } else {
                    append_u64(&mut out, bb as u64);
                }
                i += 3;
                continue ;
            }
        }
        proof {
            assert(rest[0] == template@[i as int]);
            assert(rest.skip(1) =~= template@.skip(i as int + 1));
        }
        push_ascii(&mut out, c);
        i += 1;
    }
    proof {
        assert(template@.skip(n as int) =~= Seq::<char>::empty());
        assert(out@ =~= spec_custom_fill(template@, rv, gv, bv));
    }
    out
}

/// The text a color box shows on hover: the formatted color, a blank line,
/// and any extra help text.
pub fn color_tooltip(
    color: &Color,
    display_format: &ColorFormat,
    ws: RgbWorkingSpace,
    illuminant: Illuminant,
    text: Option<&str>,
) -> (r: String)
    requires
        color.wf(),
    ensures
        r@ == spec_display(*color, *display_format) + "\n\n"@ + (match text {
            Some(t) => t@,
            None => Seq::<char>::empty(),
        }),
{
    let mut s = color.display(display_format, ws, illuminant);
    s.append("\n\n");
    proof {
        reveal_strlit("\n\n");
    }
    match text {
        Some(t) => {
            s.append(t);
        },
        None => {
            proof {
                assert(s@ =~= s@ + Seq::<char>::empty());
            }
        },
    }
    s
}

/// Appends one character, given as its ASCII byte. Relies on String::push:
/// it appends exactly the given character to the end of the string.
#[verifier::external_body]
fn push_ascii(s: &mut String, b: u8)
    requires
        b < 128,
    ensures
        final(s)@ == old(s)@ + seq![b as char],
{
    s.push(b as char);
}

/// The value of one hex digit byte; 255 marks a byte that is no hex digit.
fn hex_val(b: u8) -> (r: u8)
    ensures
        spec_hex_val_byte(b) >= 0 ==> r == spec_hex_val_byte(b),
        spec_hex_val_byte(b) < 0 ==> r == 255,
        r <= 15 || r == 255,
{
    if 48 <= b && b <= 57 {
        b - 48
    } else if 97 <= b && b <= 102 {
        b - 87
    } else if 65 <= b && b <= 70 {
        b - 55
    } else {
        255
    }
}

/// A string of characters above ASCII can never spell six hex digits.
proof fn lemma_non_ascii_no_hex(s: Seq<char>)
    requires
        !is_ascii_chars(s),
    ensures
        spec_from_hex(s) is None,
{
    if spec_from_hex(s) is Some {
        let t = spec_strip_hash(s);
        assert(forall|i: int| 0 <= i < t.len() ==> ((#[trigger] t[i]) as nat) < 128) by {
            assert(forall|i: int| 0 <= i < 6 ==> spec_hex_val(#[trigger] t[i]) >= 0);
        }
        assert(forall|i: int| 0 <= i < s.len() ==> ((#[trigger] s[i]) as nat) < 128) by {
            reveal_strlit("#");
            assert(('#' as nat) < 128);
        }
        assert(is_ascii_chars(s));
    }
}

/// Appends the two hex digits of a byte.
fn append_hex_byte(s: &mut String, b: u8, upper: bool)
    ensures
        final(s)@ == old(s)@ + spec_hex_byte(b as int, upper),
{
    push_hex_digit(s, b / 16, upper);
    push_hex_digit(s, b % 16, upper);
}

/// Appends the character of one hex digit.
fn push_hex_digit(s: &mut String, d: u8, upper: bool)
    requires
        d < 16,
    ensures
        final(s)@ == old(s)@ + seq![spec_hex_digit_char(d as int, upper)],
{
    if d < 10 {
        push_digit(s, d as u64);
    } else {
        proof {
            reveal_strlit("a");
            reveal_strlit("b");
            reveal_strlit("c");
            reveal_strlit("d");
            reveal_strlit("e");
            reveal_strlit("f");
            reveal_strlit("A");
            reveal_strlit("B");
            reveal_strlit("C");
            reveal_strlit("D");
            reveal_strlit("E");
            reveal_strlit("F");
        }
        if upper {
            if d == 10 {
                s.append("A");
            } else if d == 11 {
                s.append("B");
            } else if d == 12 {
                s.append("C");
            } else if d == 13 {
                s.append("D");
            } else if d == 14 {
                s.append("E");
            } else {
                s.append("F");
            }
        } else {
            if d == 10 {
                s.append("a");
            } else if d == 11 {
                s.append("b");
            } else if d == 12 {
                s.append("c");
            } else if d == 13 {
                s.append("d");
            } else if d == 14 {
                s.append("e");
            } else {
                s.append("f");
            }
        }
    }
}

/// `(v * k + 1/2) / 1`, rounding a normalized value to the scale `k`.
fn round_scaled(v: u64, k: u64) -> (r: u64)
    requires
        v <= SCALE,
        1 <= k <= 1000,
    ensures
        r == spec_round_scaled(v, k),
        r <= k,
{
    proof {
        assert(v * k <= SCALE * 1000) by (nonlinear_arith)
            requires
                v <= SCALE && k <= 1000,
        ;
    }
    let q = (v * k + SCALE / 2) / SCALE;
    assert(q <= k) by {
        assert(v * k + SCALE / 2 <= SCALE * k + SCALE / 2) by (nonlinear_arith)
            requires
                v <= SCALE && k >= 0,
        ;
        assert((SCALE * k + SCALE / 2) as int / (SCALE as int) == k) by (nonlinear_arith)
            requires
                1 <= k <= 1000 && SCALE == 3060000,
        ;
        vstd::arithmetic::div_mod::lemma_div_is_ordered(
            (v * k + SCALE / 2) as int,
            (SCALE * k + SCALE / 2) as int,
            SCALE as int,
        );
    };
    q
}

/// Parsing undoes formatting: the hex digits of any byte triple parse back
/// to exactly that triple.
pub proof fn lemma_hex_round_trip(r: int, g: int, b: int, upper: bool)
    requires
        0 <= r < 256,
        0 <= g < 256,
        0 <= b < 256,
    ensures
        spec_from_hex(spec_hex_color(r, g, b, upper)) == Some((r, g, b)),
{
    let s = spec_hex_color(r, g, b, upper);
    assert(s.len() == 6);
    lemma_hex_digit_val(r / 16, upper);
    lemma_hex_digit_val(r % 16, upper);
    lemma_hex_digit_val(g / 16, upper);
    lemma_hex_digit_val(g % 16, upper);
    lemma_hex_digit_val(b / 16, upper);
    lemma_hex_digit_val(b % 16, upper);
    assert(s[0] == spec_hex_digit_char(r / 16, upper) && s[1] == spec_hex_digit_char(
        r % 16,
        upper,
    ) && s[2] == spec_hex_digit_char(g / 16, upper) && s[3] == spec_hex_digit_char(g % 16, upper)
        && s[4] == spec_hex_digit_char(b / 16, upper) && s[5] == spec_hex_digit_char(
        b % 16,
        upper,
    ));
    assert(spec_hex_val(s[0]) != -1 && s[0] != '#') by {
        reveal_strlit("#");
    }
    let t = spec_strip_hash(s);
    assert(t =~= s);
    vstd::arithmetic::div_mod::lemma_fundamental_div_mod(r, 16);
    vstd::arithmetic::div_mod::lemma_fundamental_div_mod(g, 16);
    vstd::arithmetic::div_mod::lemma_fundamental_div_mod(b, 16);
}

/// A digit character carries its digit's value, and is never `#`.
proof fn lemma_hex_digit_val(d: int, upper: bool)
    requires
        0 <= d < 16,
    ensures
        spec_hex_val(spec_hex_digit_char(d, upper)) == d,
        spec_hex_digit_char(d, upper) != '#',
{
    reveal_strlit("#");
}

} // verus!
