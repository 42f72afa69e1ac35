use epick_core::color::Color;
use epick_core::fixed::SCALE;
use epick_core::palette::{NamedPalette, Palette, Palettes};
use epick_core::rgb::Rgb;

fn c1() -> Color {
    Color::Rgb(Rgb::new_unchecked(0, 0, 0))
}

fn c2() -> Color {
    Color::Rgb(Rgb::new_unchecked(0, SCALE, 0))
}

fn c3() -> Color {
    Color::Rgb(Rgb::new_unchecked(SCALE, 0, SCALE))
}

fn named(name: &str, colors: Vec<Color>) -> NamedPalette {
    NamedPalette { name: name.to_string(), palette: Palette::from_colors(&colors) }
}

fn test_palettes() -> (NamedPalette, NamedPalette, NamedPalette, NamedPalette) {
    let p1 = named("p1", vec![c1()]);
    let p2 = named("p2", vec![c1(), c2()]);
    let p3 = named("p3", vec![c1(), c2(), c3()]);
    let p4 = named("p4", vec![c3()]);
    (p1, p2, p3, p4)
}

#[test]
fn removal() {
    let (p1, p2, p3, p4) = test_palettes();
    let mut palettes = Palettes::new(p1.clone());
    palettes.add(p1);
    palettes.add(p2);
    palettes.add(p3);
    palettes.add(p4);
}

#[test]
fn addition() {
    let (p1, p2, p3, p4) = test_palettes();
    let mut palettes = Palettes::new(p1.clone());
    palettes.add(p1);
    palettes.add(p2);
    palettes.add(p3);
    palettes.add(p4);
}

#[test]
fn add_rejects_taken_name() {
    let (p1, p2, _, _) = test_palettes();
    let mut palettes = Palettes::new(p1.clone());
    assert!(!palettes.add(p1.clone()));
    assert_eq!(palettes.len(), 1);
    assert!(palettes.add(p2));
    assert_eq!(palettes.len(), 2);
    let other_p1 = named("p1", vec![c2()]);
    assert!(!palettes.add(other_p1));
    assert_eq!(palettes.len(), 2);
}

#[test]
fn palette_color_duplicates_rejected() {
    let mut p = Palette::new();
    assert!(p.add(c1()));
    assert!(p.add(c2()));
    assert!(!p.add(c1()));
    assert_eq!(p.len(), 2);
    let same_black_as_hsv = Color::Hsv(epick_core::hsv::Hsv::new_unchecked(0, 0, 0));
    assert!(!p.add(same_black_as_hsv));
    assert_eq!(p.len(), 2);
}

#[test]
fn removing_last_palette_reseeds_default() {
    let (p1, _, _, _) = test_palettes();
    let mut palettes = Palettes::new(p1);
    let removed = palettes.remove_pos(0).expect("the one palette comes out");
    assert_eq!(removed.name, "p1");
    assert_eq!(palettes.len(), 1);
    assert_eq!(palettes.current().name, "palette");
    assert!(palettes.current().palette.is_empty());
    assert_eq!(palettes.current_idx(), 0);
}

#[test]
fn remove_pos_out_of_range_is_none() {
    let (p1, _, _, _) = test_palettes();
    let mut palettes = Palettes::new(p1);
    assert!(palettes.remove_pos(5).is_none());
    assert_eq!(palettes.len(), 1);
}

#[test]
fn remove_shifts_current_index() {
    let (p1, p2, p3, _) = test_palettes();
    let mut palettes = Palettes::new(p1);
    palettes.add(p2.clone());
    palettes.add(p3);
    palettes.move_to_name("p3");
    assert_eq!(palettes.current_idx(), 2);
    palettes.remove(&p2);
    assert_eq!(palettes.current_idx(), 1);
    assert_eq!(palettes.current().name, "p3");
}

#[test]
fn move_to_absent_name_keeps_current() {
    let (p1, p2, _, _) = test_palettes();
    let mut palettes = Palettes::new(p1);
    palettes.add(p2);
    palettes.move_to_name("p2");
    assert_eq!(palettes.current_idx(), 1);
    palettes.move_to_name("nowhere");
    assert_eq!(palettes.current_idx(), 1);
}

#[test]
fn append_empty_names_by_count() {
    let (p1, _, _, _) = test_palettes();
    let mut palettes = Palettes::new(p1);
    palettes.append_empty();
    assert_eq!(palettes.len(), 2);
    assert_eq!(palettes.get(1).name, "palette0");
    palettes.append_empty();
    assert_eq!(palettes.get(2).name, "palette1");
}

#[test]
fn prev_stops_at_first() {
    let (p1, p2, _, _) = test_palettes();
    let mut palettes = Palettes::new(p1);
    palettes.add(p2);
    palettes.move_to_name("p2");
    palettes.prev();
    assert_eq!(palettes.current_idx(), 0);
    palettes.prev();
    assert_eq!(palettes.current_idx(), 0);
}

#[test]
fn add_to_current_reports_duplicates() {
    let (p1, _, _, _) = test_palettes();
    let mut palettes = Palettes::new(p1);
    assert!(!palettes.add_to_current(c1()));
    assert!(palettes.add_to_current(c2()));
    assert_eq!(palettes.current().palette.len(), 2);
}
