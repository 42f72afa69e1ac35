//! The settings that the color core consumes, and the display-format
//! resolution with its fallback.

use vstd::prelude::*;

use crate::adapt::ChromaticAdaptationMethod;
use crate::color::ColorHarmony;
use crate::display::ColorFormat;
use crate::error::{append_global_error, ErrorStack};
use crate::illuminant::Illuminant;
use crate::workspace::RgbWorkingSpace;

verus! {

/// The stored choice of display format, with custom formats by name.
#[derive(Clone, Debug, PartialEq, Eq)]
pub enum ColorDisplayFmtEnum {
    Hex,
    HexUppercase,
    CssRgb,
    CssHsl,
    Custom(String),
}

impl Default for ColorDisplayFmtEnum {
    /// Lowercase hex.
    fn default() -> (r: Self)
        ensures
            r == ColorDisplayFmtEnum::Hex,
    {
        ColorDisplayFmtEnum::Hex
    }
}

impl ColorDisplayFmtEnum {
    /// The format used when a custom format cannot be resolved.
    pub fn default_display_format() -> (r: ColorFormat)
        ensures
            r == ColorFormat::Hex,
    {
        ColorFormat::Hex
    }
}

/// How a whole palette is rendered to text for export.
#[derive(Clone, Copy, Debug, PartialEq, Eq, Structural)]
pub enum PaletteFormat {
    Gimp,
    Text,
    HexList,
}

impl Default for PaletteFormat {
    /// The GIMP palette file form.
    fn default() -> (r: Self)
        ensures
            r == PaletteFormat::Gimp,
    {
        PaletteFormat::Gimp
    }
}

/// How a set of harmony colors is laid out by the host.
#[derive(Clone, Copy, Debug, PartialEq, Eq, Structural)]
pub enum HarmonyLayout {
    Square,
    Stacked,
    Line,
    Gradient,
}

impl Default for HarmonyLayout {
    /// A compact square.
    fn default() -> (r: Self)
        ensures
            r == HarmonyLayout::Square,
    {
        HarmonyLayout::Square
    }
}

/// Which main tab the host shows.
#[derive(Clone, Copy, Debug, PartialEq, Eq, Structural)]
pub enum CentralPanelTab {
    Picker,
    Palettes,
}

/// The settings the core consumes: formats, color-space context and the
/// host's display toggles.
#[derive(Clone, Debug)]
pub struct Settings {
    pub color_display_format: ColorDisplayFmtEnum,
    pub color_clipboard_format: Option<ColorDisplayFmtEnum>,
    pub palette_clipboard_format: PaletteFormat,
    pub saved_color_formats: Vec<(String, String)>,
    pub saved_palette_formats: Vec<(String, String)>,
    pub rgb_working_space: RgbWorkingSpace,
    pub chromatic_adaptation_method: ChromaticAdaptationMethod,
    pub illuminant: Illuminant,
    pub cache_colors: bool,
    pub harmony: ColorHarmony,
    pub is_dark_mode: bool,
    pub harmony_layout: HarmonyLayout,
    pub harmony_display_color_label: bool,
    pub harmony_display_box: bool,
    pub auto_copy_picked_color: bool,
}

impl Default for Settings {
    /// Hex display, the sRGB working space under its own reference
    /// illuminant, Bradford adaptation, and the host toggles as shipped.
    fn default() -> (r: Self)
        ensures
            r.color_display_format == ColorDisplayFmtEnum::Hex,
            r.color_clipboard_format is None,
            r.palette_clipboard_format == PaletteFormat::Gimp,
            r.saved_color_formats@.len() == 0,
            r.saved_palette_formats@.len() == 0,
            r.rgb_working_space == RgbWorkingSpace::SRGB,
            r.chromatic_adaptation_method == ChromaticAdaptationMethod::Bradford,
            r.illuminant == crate::workspace::spec_reference_illuminant(RgbWorkingSpace::SRGB),
            r.cache_colors == true,
            r.harmony == ColorHarmony::Complementary,
            r.is_dark_mode == true,
            r.harmony_layout == HarmonyLayout::Square,
            r.harmony_display_color_label == false,
            r.harmony_display_box == true,
            r.auto_copy_picked_color == false,
    {
        let ws = RgbWorkingSpace::SRGB;
        Settings {
            color_display_format: ColorDisplayFmtEnum::Hex,
            color_clipboard_format: None,
            palette_clipboard_format: PaletteFormat::Gimp,
            saved_color_formats: Vec::new(),
            saved_palette_formats: Vec::new(),
            rgb_working_space: ws,
            chromatic_adaptation_method: ChromaticAdaptationMethod::Bradford,
            illuminant: ws.reference_illuminant(),
            cache_colors: true,
            harmony: ColorHarmony::Complementary,
            is_dark_mode: true,
            harmony_layout: HarmonyLayout::Square,
            harmony_display_color_label: false,
            harmony_display_box: true,
            auto_copy_picked_color: false,
        }
    }
}

/// The template registered under a name, searching from the front.
pub open spec fn spec_format_lookup(s: Seq<(String, String)>, name: Seq<char>) -> Option<
    Seq<char>,
>
    decreases s.len(),
{
    if s.len() == 0 {
        None
    } else if s[0].0@ == name {
        Some(s[0].1@)
    } else {
        spec_format_lookup(s.drop_first(), name)
    }
}

/// The message reported when a custom format name is not registered.
pub open spec fn spec_missing_format_message(name: Seq<char>) -> Seq<char> {
    "Custom color format `"@ + name + "` not found"@
}

/// What resolving a stored format choice must produce: the fixed choices map
/// straight over, and a custom name resolves through the table or falls back
/// to hex.
pub open spec fn spec_resolved_format(
    d: ColorDisplayFmtEnum,
    table: Seq<(String, String)>,
    degree_symbol: bool,
    r: ColorFormat,
) -> bool {
    match d {
        ColorDisplayFmtEnum::Hex => r == ColorFormat::Hex,
        ColorDisplayFmtEnum::HexUppercase => r == ColorFormat::HexUpercase,
        ColorDisplayFmtEnum::CssRgb => r == ColorFormat::CssRgb,
        ColorDisplayFmtEnum::CssHsl => r == (ColorFormat::CssHsl { degree_symbol }),
        ColorDisplayFmtEnum::Custom(name) => match spec_format_lookup(table, name@) {
            Some(t) => match r {
                ColorFormat::Custom(s) => s@ == t,
                _ => false,
            },
            None => r == ColorFormat::Hex,
        },
    }
}

/// Whether resolving a stored format choice reports an error: only a custom
/// name that is not in the table does.
pub open spec fn spec_format_misses(d: ColorDisplayFmtEnum, table: Seq<(String, String)>) -> bool {
    match d {
        ColorDisplayFmtEnum::Custom(name) => spec_format_lookup(table, name@) is None,
        _ => false,
    }
}

impl Settings {
    /// Resolves the display format. An unregistered custom name falls back
    /// to hex and reports exactly one error naming the format.
    pub fn display_format(&self, stack: &mut ErrorStack) -> (r: ColorFormat)
        ensures
            spec_resolved_format(
                self.color_display_format,
                self.saved_color_formats@,
                true,
                r,
            ),
            !spec_format_misses(self.color_display_format, self.saved_color_formats@) ==> final(stack).errors@ == old(stack).errors@,
            spec_format_misses(self.color_display_format, self.saved_color_formats@) ==> {
                &&& final(stack).errors@.len() == old(stack).errors@.len() + 1
                &&& final(stack).errors@.drop_last() == old(stack).errors@
                &&& final(stack).errors@.last().message@ == spec_missing_format_message(
                    self.color_display_format->Custom_0@,
                )
            },
    {
        resolve_format(&self.color_display_format, &self.saved_color_formats, true, stack)
    }

    /// Resolves the clipboard format: the clipboard choice if one is set,
    /// else the display choice, and never a degree symbol. An unregistered
    /// custom name falls back to hex and reports exactly one error.
    pub fn clipboard_format(&self, stack: &mut ErrorStack) -> (r: ColorFormat)
        ensures
            ({
                let d = match self.color_clipboard_format {
                    Some(d) => d,
                    None => self.color_display_format,
                };
                &&& spec_resolved_format(d, self.saved_color_formats@, false, r)
                &&& !spec_format_misses(d, self.saved_color_formats@) ==> final(stack).errors@
                    == old(stack).errors@
                &&& spec_format_misses(d, self.saved_color_formats@) ==> {
                    &&& final(stack).errors@.len() == old(stack).errors@.len() + 1
                    &&& final(stack).errors@.drop_last() == old(stack).errors@
                    &&& final(stack).errors@.last().message@ == spec_missing_format_message(
                        d->Custom_0@,
                    )
                }
            }),
    {
        match &self.color_clipboard_format {
            Some(d) => resolve_format(d, &self.saved_color_formats, false, stack),
            None => resolve_format(
                &self.color_display_format,
                &self.saved_color_formats,
                false,
                stack,
            ),
        }
    }
}

/// Resolves one stored format choice against the table.
fn resolve_format(
    d: &ColorDisplayFmtEnum,
    table: &Vec<(String, String)>,
    degree_symbol: bool,
    stack: &mut ErrorStack,
) -> (r: ColorFormat)
    ensures
        spec_resolved_format(*d, table@, degree_symbol, r),
        !spec_format_misses(*d, table@) ==> final(stack).errors@ == old(stack).errors@,
        spec_format_misses(*d, table@) ==> {
            &&& final(stack).errors@.len() == old(stack).errors@.len() + 1
            &&& final(stack).errors@.drop_last() == old(stack).errors@
            &&& final(stack).errors@.last().message@ == spec_missing_format_message(
                d->Custom_0@,
            )
        },
{
    match d {
        ColorDisplayFmtEnum::Hex => ColorFormat::Hex,
        ColorDisplayFmtEnum::HexUppercase => ColorFormat::HexUpercase,
        ColorDisplayFmtEnum::CssRgb => ColorFormat::CssRgb,
        ColorDisplayFmtEnum::CssHsl => ColorFormat::CssHsl { degree_symbol },
        ColorDisplayFmtEnum::Custom(name) => {
            match lookup_format(table, name.as_str()) {
                Some(t) => ColorFormat::Custom(t),
                None => {
                    let mut msg: String = "Custom color format `".to_owned();
                    msg.append(name.as_str());
                    msg.append("` not found");
                    proof {
                        reveal_strlit("Custom color format `");
                        reveal_strlit("` not found");
                    }
                    append_global_error(stack, msg);
                    ColorFormat::Hex
                },
            }
        },
    }
}

/// Looks a template up by name, cloning the stored text.
fn lookup_format(table: &Vec<(String, String)>, name: &str) -> (r: Option<String>)
    ensures
        ({
            match spec_format_lookup(table@, name@) {
                Some(t) => match r {
                    Some(s) => s@ == t,
                    None => false,
                },
                None => r is None,
            }
        }),
{
    let target: String = name.to_owned();
    let mut i: usize = 0;
    proof {
        assert(table@.skip(0) =~= table@);
    }
    while i < table.len()
        invariant
            i <= table@.len(),
            target@ == name@,
            spec_format_lookup(table@.skip(i as int), name@) == spec_format_lookup(table@, name@),
        decreases table@.len() - i,
    {
        let ghost rest = table@.skip(i as int);
        proof {
            assert(rest[0] == table@[i as int]);
            assert(rest.drop_first() =~= table@.skip(i as int + 1));
        }
        if table[i].0 == target {
            return Some(table[i].1.clone());
        }
        i += 1;
    }
    proof {
        assert(table@.skip(table@.len() as int) =~= Seq::<(String, String)>::empty());
    }
    None
}

} // verus!
