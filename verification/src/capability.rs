//! The capability gate: a veto on command categories the host cannot
//! honour, such as screen capture without a graphical display.
//! It is consulted ahead of everything else, so a refused command is
//! never graded, confirmed or dispatched; the host's capabilities are
//! probed by the caller and handed in as plain booleans.

use vstd::prelude::*;

use crate::text::{contains_sub, has_sub, spec_lower, to_lowercase_str};

verus! {

/// The lower-cased command invokes one of the known screenshot tools.
pub open spec fn spec_is_screenshot(cmd: Seq<char>) -> bool {
    let n = spec_lower(cmd);
    ||| has_sub(n, "scrot"@)
    ||| has_sub(n, "gnome-screenshot"@)
    ||| has_sub(n, "import"@)
    ||| has_sub(n, "screencapture"@)
}

/// The command belongs to the screen-capture family, exactly as
/// `spec_is_screenshot` describes.
pub fn is_screenshot_command(cmd: &str) -> (r: bool)
    ensures
        r == spec_is_screenshot(cmd@),
{
    let lowered = to_lowercase_str(cmd);
    let n = lowered.as_str();
    contains_sub(n, "scrot") || contains_sub(n, "gnome-screenshot") || contains_sub(n, "import")
        || contains_sub(n, "screencapture")
}

/// Derives the capability triple from the two display-server environment
/// markers: whether any display is available, whether the session is
/// Wayland, and whether it is plain X11.
pub fn display_capabilities(x11_present: bool, wayland_present: bool) -> (r: (bool, bool, bool))
    ensures
        r.0 == (x11_present || wayland_present),
        r.1 == wayland_present,
        r.2 == (x11_present && !wayland_present),
{
    (x11_present || wayland_present, wayland_present, x11_present && !wayland_present)
}

} // verus!
