use epick_core::adapt::{adapt, ChromaticAdaptationMethod};
use epick_core::error::{append_global_error, elapsed, DisplayError, ErrorStack};
use epick_core::fixed::SCALE;
use epick_core::illuminant::Illuminant;
use epick_core::window::{ExportWindow, SettingsWindow};
use epick_core::xyz::Xyz;

fn methods() -> [ChromaticAdaptationMethod; 3] {
    [
        ChromaticAdaptationMethod::Bradford,
        ChromaticAdaptationMethod::VonKries,
        ChromaticAdaptationMethod::XyzScaling,
    ]
}

fn illuminants() -> [Illuminant; 11] {
    [
        Illuminant::A,
        Illuminant::B,
        Illuminant::C,
        Illuminant::D50,
        Illuminant::D55,
        Illuminant::D65,
        Illuminant::D75,
        Illuminant::E,
        Illuminant::F2,
        Illuminant::F7,
        Illuminant::F11,
    ]
}

#[test]
fn adaptation_to_same_illuminant_is_identity() {
    let samples = [
        Xyz::new_unchecked(0, 0, 0),
        Xyz::new_unchecked(SCALE as i64 / 2, SCALE as i64 / 3, SCALE as i64 / 7),
        Xyz::new_unchecked(2908438, 3060000, 3331820),
        Xyz::new_unchecked(2 * SCALE as i64, 2 * SCALE as i64, 2 * SCALE as i64),
        Xyz::new_unchecked(1, 2, 3),
    ];
    for m in methods() {
        for i in illuminants() {
            for v in samples {
                let r = adapt(v, i, i, m);
                assert_eq!(r, v);
            }
        }
    }
}

#[test]
fn adapting_white_lands_on_destination_white() {
    let d65 = Illuminant::D65.white_point();
    let d50 = Illuminant::D50.white_point();
    let r = adapt(d65, Illuminant::D65, Illuminant::D50, ChromaticAdaptationMethod::Bradford);
    let tol = (SCALE / 1000) as i64;
    assert!((r.x() - d50.x()).abs() <= tol, "{} vs {}", r.x(), d50.x());
    assert!((r.y() - d50.y()).abs() <= tol);
    assert!((r.z() - d50.z()).abs() <= tol);
}

#[test]
fn xyz_scaling_scales_componentwise() {
    let v = Xyz::new_unchecked(SCALE as i64, SCALE as i64, SCALE as i64);
    let r = adapt(v, Illuminant::E, Illuminant::A, ChromaticAdaptationMethod::XyzScaling);
    let a = Illuminant::A.white_point();
    let tol = 2i64;
    assert!((r.x() - a.x()).abs() <= tol);
    assert!((r.y() - a.y()).abs() <= tol);
    assert!((r.z() - a.z()).abs() <= tol);
}

#[test]
fn error_stack_keeps_order() {
    let mut stack = ErrorStack::new();
    stack.push("first".to_string());
    append_global_error(&mut stack, "second".to_string());
    assert_eq!(stack.errors.len(), 2);
    assert_eq!(stack.errors[0].message(), "first");
    assert_eq!(stack.errors[1].message(), "second");
}

#[test]
fn display_error_carries_message_and_time() {
    let e = DisplayError::new("boom".to_string());
    assert_eq!(e.message(), "boom");
    assert!(elapsed(e.timestamp()) < 60);
}

#[test]
fn settings_window_status_lines_exclude_each_other() {
    let mut w = SettingsWindow::default();
    assert!(w.error.is_none() && w.message.is_none());
    w.set_error("bad".to_string());
    assert_eq!(w.error.as_deref(), Some("bad"));
    assert!(w.message.is_none());
    w.set_message("ok".to_string());
    assert_eq!(w.message.as_deref(), Some("ok"));
    assert!(w.error.is_none());
    w.clear_message();
    assert!(w.message.is_none());
    let e = ExportWindow::default();
    assert!(!e.show);
    assert_eq!(e.export_status, Ok(String::new()));
}
