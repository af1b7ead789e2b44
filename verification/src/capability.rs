//! Decisions of the system capability check: which compositor a desktop
//! name stands for, and whether the Wayland session has what the daemon
//! needs.

use vstd::prelude::*;
use crate::text::{contains_chars, has_infix, str_chars, to_lowercase, unicode_lowercase};

verus! {

/// The compositor a desktop name stands for, as far as the check knows it.
#[derive(Debug, Clone, Copy, PartialEq, Eq, Structural)]
pub enum Compositor {
    Hyprland,
    Niri,
    Sway,
    River,
    /// KDE Plasma, which has no wlr-layer-shell.
    Plasma,
    /// GNOME, which has no wlr-layer-shell.
    Gnome,
    Unknown,
}

/// The compositor named by an already lowercased `XDG_CURRENT_DESKTOP`
/// value: the first of these names that occurs in it.
pub open spec fn spec_compositor_of(d: Seq<char>) -> Compositor {
    if has_infix(d, "hyprland"@) {
        Compositor::Hyprland
    } else if has_infix(d, "niri"@) {
        Compositor::Niri
    } else if has_infix(d, "sway"@) {
        Compositor::Sway
    } else if has_infix(d, "river"@) {
        Compositor::River
    } else if has_infix(d, "kde"@) || has_infix(d, "plasma"@) {
        Compositor::Plasma
    } else if has_infix(d, "gnome"@) {
        Compositor::Gnome
    } else {
        Compositor::Unknown
    }
}

/// The compositor named by a lowercased desktop value.
pub fn compositor_of_lowercase(desktop: &str) -> (c: Compositor)
    ensures
        c == spec_compositor_of(desktop@),
{
    let d = str_chars(desktop);
    if contains_chars(&d, "hyprland") {
        Compositor::Hyprland
    } else if contains_chars(&d, "niri") {
        Compositor::Niri
    } else if contains_chars(&d, "sway") {
        Compositor::Sway
    } else if contains_chars(&d, "river") {
        Compositor::River
    } else if contains_chars(&d, "kde") || contains_chars(&d, "plasma") {
        Compositor::Plasma
    } else if contains_chars(&d, "gnome") {
        Compositor::Gnome
    } else {
        Compositor::Unknown
    }
}

/// The compositor named by an `XDG_CURRENT_DESKTOP` value, ignoring case.
pub fn detect_compositor(desktop: &str) -> (c: Compositor)
    ensures
        c == spec_compositor_of(unicode_lowercase(desktop@)),
        crate::text::all_ascii(desktop@) ==> c == spec_compositor_of(crate::text::ascii_lower(desktop@)),
{
    let lowered = to_lowercase(desktop);
    compositor_of_lowercase(lowered.as_str())
}

impl Compositor {
    /// Whether the compositor is known to offer wlr-layer-shell.
    pub fn is_supported(&self) -> (b: bool)
        ensures
            b == (*self is Hyprland || *self is Niri || *self is Sway || *self is River),
    {
        match self {
            Compositor::Hyprland | Compositor::Niri | Compositor::Sway | Compositor::River => true,
            _ => false,
        }
    }
}

/// What keeps the daemon from running in the current session.
#[derive(Debug, Clone, Copy, PartialEq, Eq, Structural)]
pub enum SessionError {
    /// `WAYLAND_DISPLAY` is not set: not a Wayland session.
    NoWaylandDisplay,
    /// `XDG_RUNTIME_DIR` is not set: no place for the IPC socket.
    NoRuntimeDir,
}

/// Whether a session with the given `WAYLAND_DISPLAY` and
/// `XDG_RUNTIME_DIR` values can run the daemon; the display is checked
/// first.
pub fn check_session(wayland_display: Option<&str>, runtime_dir: Option<&str>) -> (r: Result<(), SessionError>)
    ensures
        wayland_display is None ==> r == Err::<(), SessionError>(SessionError::NoWaylandDisplay),
        wayland_display is Some && runtime_dir is None ==> r == Err::<(), SessionError>(
            SessionError::NoRuntimeDir,
        ),
        wayland_display is Some && runtime_dir is Some ==> r is Ok,
{
    if wayland_display.is_none() {
        Err(SessionError::NoWaylandDisplay)
    } else if runtime_dir.is_none() {
        Err(SessionError::NoRuntimeDir)
    } else {
        Ok(())
    }
}

} // verus!
