//! What the desktop notifications say and whether they are sent; showing
//! them is the desktop's business.

use vstd::prelude::*;
use crate::paths::{path_file_name, std_path_file_name};

verus! {

/// The application name notifications are sent under.
pub const APP_NAME: &'static str = "Cloudreve.Sync";

/// Whether a kind of notification is sent, given its setting: sent unless
/// the setting is present and turned off.
pub fn notification_enabled(setting: Option<bool>) -> (r: bool)
    ensures
        r == (setting != Some(false)),
{
    match setting {
        Some(enabled) => enabled,
        None => true,
    }
}

/// The body of a conflict notification: the file's name, or
/// "Unknown file" when the path has none.
pub fn conflict_toast_body(path: &str) -> (r: String)
    ensures
        r@ == match std_path_file_name(path@) {
            Some(n) => n,
            None => "Unknown file"@,
        },
{
    match path_file_name(path) {
        Some(n) => n,
        None => "Unknown file".to_owned(),
    }
}

} // verus!
