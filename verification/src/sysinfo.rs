//! The system-information text handed to the model at session start.
//! The environment itself is probed by the caller; this module only
//! renders the injected values, so the text is a pure function of them.

use vstd::prelude::*;

use crate::text::{bool_to_string, spec_bool_str};

verus! {

/// The rendered session header: operating system, user, display
/// availability, initial working directory, and the display-server
/// flags, each under its fixed label.
pub open spec fn spec_info(
    os: Seq<char>,
    user: Seq<char>,
    cwd: Seq<char>,
    display: bool,
    wayland: bool,
    x11: bool,
) -> Seq<char> {
    "OS: "@ + os + "\n        User: "@ + user + "\n        Display available: "@ + spec_bool_str(
        display,
    ) + "\n        Initial working directory: "@ + cwd
        + "\n        Display server:\n- Wayland: "@ + spec_bool_str(wayland) + "\n- X11: "@
        + spec_bool_str(x11) + ",\n        "@
}

/// Renders the session header exactly as `spec_info` describes.
pub fn gather_info(os: &str, user: &str, cwd: &str, display: bool, wayland: bool, x11: bool) -> (r:
    String)
    ensures
        r@ == spec_info(os@, user@, cwd@, display, wayland, x11),
{
    let mut out = String::from_str("OS: ");
    out.append(os);
    out.append("\n        User: ");
    out.append(user);
    out.append("\n        Display available: ");
    let d = bool_to_string(display);
    out.append(d.as_str());
    out.append("\n        Initial working directory: ");
    out.append(cwd);
    out.append("\n        Display server:\n- Wayland: ");
    let w = bool_to_string(wayland);
    out.append(w.as_str());
    out.append("\n- X11: ");
    let x = bool_to_string(x11);
    out.append(x.as_str());
    out.append(",\n        ");
    proof {
        assert(out@ =~= spec_info(os@, user@, cwd@, display, wayland, x11));
    }
    out
}

} // verus!
