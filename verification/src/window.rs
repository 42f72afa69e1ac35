//! Plain state of the host's settings and export windows.

use vstd::prelude::*;

use crate::settings::PaletteFormat;

verus! {

/// The state of the settings window: visibility, the hex-case toggle, and
/// at most one status line, either an error or a message.
#[derive(Debug)]
pub struct SettingsWindow {
    pub show: bool,
    pub upper_hex: bool,
    pub error: Option<String>,
    pub message: Option<String>,
}

impl SettingsWindow {
    /// Shows an error; any message is cleared so only one line shows.
    pub fn set_error(&mut self, error: String)
        ensures
            final(self).error matches Some(e) && e@ == error@,
            final(self).message is None,
            final(self).show == old(self).show,
            final(self).upper_hex == old(self).upper_hex,
    {
        self.clear_message();
        self.error = Some(error);
    }

    /// Drops the error line.
    pub fn clear_error(&mut self)
        ensures
            final(self).error is None,
            final(self).message == old(self).message,
            final(self).show == old(self).show,
            final(self).upper_hex == old(self).upper_hex,
    {
        self.error = None;
    }

    /// Shows a message; any error is cleared so only one line shows.
    pub fn set_message(&mut self, message: String)
        ensures
            final(self).message matches Some(m) && m@ == message@,
            final(self).error is None,
            final(self).show == old(self).show,
            final(self).upper_hex == old(self).upper_hex,
    {
        self.clear_error();
        self.message = Some(message);
    }

    /// Drops the message line.
    pub fn clear_message(&mut self)
        ensures
            final(self).message is None,
            final(self).error == old(self).error,
            final(self).show == old(self).show,
            final(self).upper_hex == old(self).upper_hex,
    {
        self.message = None;
    }
}

impl Default for SettingsWindow {
    /// Hidden, lowercase hex, no status line.
    fn default() -> (r: Self)
        ensures
            r.show == false,
            r.upper_hex == false,
            r.error is None,
            r.message is None,
    {
        SettingsWindow { show: false, upper_hex: false, error: None, message: None }
    }
}

/// The state of the palette export window.
#[derive(Debug)]
pub struct ExportWindow {
    pub show: bool,
    pub path: String,
    pub name: String,
    pub export_status: Result<String, String>,
    pub format: PaletteFormat,
    pub export_path_editable: bool,
}

impl Default for ExportWindow {
    /// Hidden, the GIMP format, empty name and path, a clean status.
    fn default() -> (r: Self)
        ensures
            r.show == false,
            r.format == PaletteFormat::Gimp,
            r.name@ == Seq::<char>::empty(),
            r.path@ == Seq::<char>::empty(),
            r.export_status matches Ok(s) && s@ == Seq::<char>::empty(),
            r.export_path_editable == false,
    {
        ExportWindow {
            show: false,
            path: String::new(),
            name: String::new(),
            export_status: Ok(String::new()),
            format: PaletteFormat::Gimp,
            export_path_editable: false,
        }
    }
}

} // verus!
