//! Environment settings made before the desktop app starts.

use vstd::prelude::*;

verus! {

/// The environment variables to set at start-up on Linux: under a Wayland
/// session, WebKit's compositing mode is switched off and GTK is told to
/// prefer Wayland with an X11 fallback, each only when not already set.
pub fn wayland_env_overrides(wayland_display_set: bool, compositing_mode_set: bool, gdk_backend_set: bool)
    -> (r: Vec<(String, String)>)
    ensures
        r@.len() == (if wayland_display_set && !compositing_mode_set { 1int } else { 0 }) + (
        if wayland_display_set && !gdk_backend_set {
            1int
        } else {
            0
        }),
        wayland_display_set && !compositing_mode_set ==> r@[0].0@
            == "WEBKIT_DISABLE_COMPOSITING_MODE"@ && r@[0].1@ == "1"@,
        wayland_display_set && !gdk_backend_set ==> r@[r@.len() - 1].0@ == "GDK_BACKEND"@
            && r@[r@.len() - 1].1@ == "wayland,x11"@,
{
    let mut r: Vec<(String, String)> = Vec::new();
    if wayland_display_set {
        if !compositing_mode_set {
            r.push((String::from_str("WEBKIT_DISABLE_COMPOSITING_MODE"), String::from_str("1")));
        }
        if !gdk_backend_set {
            r.push((String::from_str("GDK_BACKEND"), String::from_str("wayland,x11")));
        }
    }
    r
}

} // verus!
