//! What the application knows about itself and about its last session: its
//! identity, and whether the previous run ended without a clean shutdown.
//! The marker is written to the settings table at start (`"1"`) and reset
//! on a clean exit; reading and writing it is left to the caller.
use vstd::prelude::*;
use crate::text::str_eq;

verus! {

broadcast use vstd::string::group_string_axioms;

/// The settings key of the session marker.
pub const SESSION_OPEN_MARKER_KEY: &'static str = "app.session_open";

/// The marker's value while a session is open.
pub const SESSION_OPEN: &'static str = "1";

/// The application's name, version and identifier, as configured.
pub struct AppInfo {
    pub name: String,
    pub version: String,
    pub identifier: String,
}

/// Whether the previous session ended without a clean shutdown.
pub struct UncleanShutdownFlag(pub bool);

/// The previous session did not end cleanly when its marker was still
/// `"1"` at start.
pub fn was_unclean(marker: Option<&str>) -> (b: bool)
    ensures
        b == (marker matches Some(m) && m@ == SESSION_OPEN@),
{
    match marker {
        Some(m) => str_eq(m, SESSION_OPEN),
        None => false,
    }
}

impl UncleanShutdownFlag {
    /// The flag as found at start.
    pub fn from_marker(marker: Option<&str>) -> (f: Self)
        ensures
            f.0 == (marker matches Some(m) && m@ == SESSION_OPEN@),
    {
        UncleanShutdownFlag(was_unclean(marker))
    }

    /// Whether the previous session ended without a clean shutdown.
    pub fn was_unclean_shutdown(&self) -> (b: bool)
        ensures
            b == self.0,
    {
        self.0
    }
}

} // verus!
