//! Where the application's bundled images live.

use std::sync::Arc;
use vstd::prelude::*;

verus! {

/// The desktop's colour scheme.
#[derive(Debug, Clone, Copy, PartialEq, Eq, Structural)]
pub enum ThemeMode {
    Dark,
    Light,
    Unspecified,
}

/// `dark_light::detect`: the desktop's colour scheme as the system reports
/// it, `None` when it cannot be read.  Nothing is promised of the value.
#[verifier::external_body]
fn detect_theme() -> (r: Option<ThemeMode>) {
    match dark_light::detect() {
        Ok(dark_light::Mode::Dark) => Some(ThemeMode::Dark),
        Ok(dark_light::Mode::Light) => Some(ThemeMode::Light),
        Ok(dark_light::Mode::Unspecified) => Some(ThemeMode::Unspecified),
        Err(_) => None,
    }
}

/// The application's install directory.
#[derive(Clone)]
pub struct AppRoot(pub Arc<String>);

impl AppRoot {
    /// The install directory's text.
    pub open spec fn dir(&self) -> Seq<char> {
        (*self.0)@
    }

    /// The theme images for the desktop's current colour scheme (light when
    /// it cannot be read).
    pub fn image_path(&self) -> (r: String)
        ensures
            r@ == self.dir() + "\\Images\\darkTheme"@ || r@ == self.dir() + "\\Images\\lightTheme"@,
    {
        let mode = match detect_theme() {
            Some(m) => m,
            None => ThemeMode::Light,
        };
        self.image_path_for(mode)
    }

    /// The theme images for a colour scheme: the dark set for dark, the
    /// light set otherwise.
    pub fn image_path_for(&self, mode: ThemeMode) -> (r: String)
        ensures
            r@ == self.dir() + (if mode == ThemeMode::Dark { "\\Images\\darkTheme"@ } else { "\\Images\\lightTheme"@ }),
    {
        let root: &String = &self.0;
        let mut s = root.clone();
        match mode {
            ThemeMode::Dark => s.append("\\Images\\darkTheme"),
            ThemeMode::Light => s.append("\\Images\\lightTheme"),
            ThemeMode::Unspecified => s.append("\\Images\\lightTheme"),
        }
        s
    }

    /// The images directory.
    pub fn image_path_general(&self) -> (r: String)
        ensures
            r@ == self.dir() + "\\Images"@,
    {
        let root: &String = &self.0;
        let mut s = root.clone();
        s.append("\\Images");
        s
    }
}

} // verus!
