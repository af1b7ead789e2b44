use wayvid::capability::{check_session, compositor_of_lowercase, detect_compositor, Compositor, SessionError};

#[test]
fn compositor_names_ignore_case() {
    assert_eq!(detect_compositor("Hyprland"), Compositor::Hyprland);
    assert_eq!(detect_compositor("niri"), Compositor::Niri);
    assert_eq!(detect_compositor("sway:wlroots"), Compositor::Sway);
    assert_eq!(detect_compositor("River"), Compositor::River);
    assert_eq!(detect_compositor("KDE"), Compositor::Plasma);
    assert_eq!(detect_compositor("plasmawayland"), Compositor::Plasma);
    assert_eq!(detect_compositor("ubuntu:GNOME"), Compositor::Gnome);
    assert_eq!(detect_compositor("X-Cinnamon"), Compositor::Unknown);
    assert_eq!(detect_compositor(""), Compositor::Unknown);
}

#[test]
fn lowercase_matching_is_exact() {
    assert_eq!(compositor_of_lowercase("Hyprland"), Compositor::Unknown);
    assert_eq!(compositor_of_lowercase("hyprland"), Compositor::Hyprland);
    // The first name in the list wins when several occur.
    assert_eq!(compositor_of_lowercase("gnome-on-niri"), Compositor::Niri);
    assert_eq!(compositor_of_lowercase("nir"), Compositor::Unknown);
}

#[test]
fn supported_compositors() {
    assert!(Compositor::Hyprland.is_supported());
    assert!(Compositor::Niri.is_supported());
    assert!(Compositor::Sway.is_supported());
    assert!(Compositor::River.is_supported());
    assert!(!Compositor::Plasma.is_supported());
    assert!(!Compositor::Gnome.is_supported());
    assert!(!Compositor::Unknown.is_supported());
}

#[test]
fn session_needs_display_and_runtime_dir() {
    assert_eq!(check_session(Some("wayland-1"), Some("/run/user/1000")), Ok(()));
    assert_eq!(check_session(None, Some("/run/user/1000")), Err(SessionError::NoWaylandDisplay));
    assert_eq!(check_session(None, None), Err(SessionError::NoWaylandDisplay));
    assert_eq!(check_session(Some("wayland-0"), None), Err(SessionError::NoRuntimeDir));
}
