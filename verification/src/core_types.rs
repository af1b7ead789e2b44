//! Small enumerations shared by the daemon and its configuration.

use vstd::prelude::*;

verus! {

/// Layout/scaling mode of a wallpaper on an output.
#[derive(Debug, Clone, Copy, PartialEq, Eq, Structural)]
pub enum LayoutMode {
    /// Scale and crop to fill the entire output (keeps the aspect ratio).
    Fill,
    /// Scale to fit inside the output (keeps the aspect ratio, may letterbox).
    Contain,
    /// Stretch to the output (ignores the aspect ratio).
    Stretch,
    /// Same as `Fill`, kept for compatibility.
    Cover,
    /// Centre without scaling.
    Centre,
}

/// Playback state of a surface.
#[derive(Debug, Clone, Copy, PartialEq, Eq, Structural)]
pub enum PlaybackState {
    Playing,
    Paused,
    Stopped,
    Error,
}

/// Hardware decode preference.
#[derive(Debug, Clone, Copy, PartialEq, Eq, Hash, Structural)]
pub enum HwdecMode {
    /// Try hardware decoding, fall back to software.
    Auto,
    /// Force hardware decoding.
    Force,
    /// Disable hardware decoding.
    No,
}

impl From<bool> for HwdecMode {
    /// `Auto` when hardware decoding is enabled, `No` otherwise.
    fn from(enabled: bool) -> (m: HwdecMode) {
        if enabled {
            HwdecMode::Auto
        } else {
            HwdecMode::No
        }
    }
}

impl vstd::std_specs::convert::FromSpecImpl<bool> for HwdecMode {
    open spec fn obeys_from_spec() -> bool {
        true
    }

    open spec fn from_spec(enabled: bool) -> HwdecMode {
        if enabled {
            HwdecMode::Auto
        } else {
            HwdecMode::No
        }
    }
}

/// Render backend selection.
#[derive(Debug, Clone, Copy, PartialEq, Eq, Structural)]
pub enum RenderBackend {
    /// Detect the best backend (prefers Vulkan when available).
    Auto,
    /// Force the OpenGL (EGL) backend.
    OpenGL,
    /// Force the Vulkan backend.
    Vulkan,
}

impl RenderBackend {
    /// Whether Vulkan is requested, explicitly or through `Auto`.
    pub fn wants_vulkan(&self) -> (b: bool)
        ensures
            b <==> (*self == RenderBackend::Auto || *self == RenderBackend::Vulkan),
    {
        match self {
            RenderBackend::Auto => true,
            RenderBackend::Vulkan => true,
            RenderBackend::OpenGL => false,
        }
    }

    /// Whether OpenGL is requested, explicitly or through `Auto`.
    pub fn wants_opengl(&self) -> (b: bool)
        ensures
            b <==> (*self == RenderBackend::Auto || *self == RenderBackend::OpenGL),
    {
        match self {
            RenderBackend::Auto => true,
            RenderBackend::OpenGL => true,
            RenderBackend::Vulkan => false,
        }
    }
}

impl Default for RenderBackend {
    fn default() -> (b: Self)
        ensures
            b == RenderBackend::Auto,
    {
        RenderBackend::Auto
    }
}

} // verus!
