//! Decisions of a wallpaper layer surface: which renderer it uses, when it
//! may draw, and when its decoder and scene resources are set up and
//! released. The surface itself performs the Wayland and GL calls.

use vstd::prelude::*;
use crate::core_types::RenderBackend;

verus! {

/// The renderer a surface draws with.
#[derive(Debug, Clone, Copy, PartialEq, Eq, Structural)]
pub enum ActiveBackend {
    OpenGL,
    Vulkan,
}

/// The renderer for the requested backend: Vulkan only when asked for by
/// name and built in; OpenGL otherwise, `Auto` included.
pub fn select_backend(requested: RenderBackend, vulkan_built_in: bool) -> (b: ActiveBackend)
    ensures
        b == (if requested == RenderBackend::Vulkan && vulkan_built_in {
            ActiveBackend::Vulkan
        } else {
            ActiveBackend::OpenGL
        }),
{
    match requested {
        RenderBackend::OpenGL => ActiveBackend::OpenGL,
        RenderBackend::Vulkan => {
            if vulkan_built_in {
                ActiveBackend::Vulkan
            } else {
                ActiveBackend::OpenGL
            }
        },
        RenderBackend::Auto => ActiveBackend::OpenGL,
    }
}

/// What a render request does.
#[derive(Debug, Clone, Copy, PartialEq, Eq, Structural)]
pub enum RenderStep {
    /// Nothing: the surface is not configured or no frame is due.
    Skip,
    /// Set up the decoder or scene first (then call
    /// `finish_initialization`), then draw.
    Initialize,
    /// Draw with what is set up.
    Draw,
}

/// The frame and resource state of a surface.
#[derive(Debug, Clone, Copy, PartialEq, Eq, Structural)]
pub struct FrameGate {
    /// The compositor has configured the surface.
    pub configured: bool,
    /// The first configure has been handled.
    pub initial_configure_done: bool,
    /// A frame may be drawn: the compositor asked for one, or the surface
    /// was just configured.
    pub frame_pending: bool,
    /// The output is visible.
    pub is_active: bool,
    /// The decoder or scene player is set up.
    pub resources_initialized: bool,
    /// Frames drawn.
    pub frame_count: u64,
}

/// The state and step of a render request.
pub open spec fn spec_begin_render(g: FrameGate) -> (FrameGate, RenderStep) {
    if !g.configured || !g.frame_pending {
        (g, RenderStep::Skip)
    } else {
        let g2 = FrameGate { frame_pending: false, ..g };
        if !g.resources_initialized && g.is_active {
            (g2, RenderStep::Initialize)
        } else {
            (g2, RenderStep::Draw)
        }
    }
}

/// The state after a configure event.
pub open spec fn spec_configure(g: FrameGate) -> FrameGate {
    if !g.initial_configure_done {
        FrameGate { configured: true, initial_configure_done: true, frame_pending: true, ..g }
    } else {
        FrameGate { configured: true, ..g }
    }
}

/// The state after the output is marked active or inactive: an output
/// that becomes inactive gives its resources up.
pub open spec fn spec_set_active(g: FrameGate, active: bool) -> FrameGate {
    if g.is_active == active {
        g
    } else if active {
        FrameGate { is_active: true, ..g }
    } else {
        FrameGate { is_active: false, resources_initialized: false, ..g }
    }
}

impl FrameGate {
    /// A surface that is not configured yet; an output counts as active
    /// until told otherwise.
    pub fn new() -> (g: FrameGate)
        ensures
            g == (FrameGate {
                configured: false,
                initial_configure_done: false,
                frame_pending: false,
                is_active: true,
                resources_initialized: false,
                frame_count: 0,
            }),
    {
        FrameGate {
            configured: false,
            initial_configure_done: false,
            frame_pending: false,
            is_active: true,
            resources_initialized: false,
            frame_count: 0,
        }
    }

    /// Handle a configure event. Returns whether it was the first one, on
    /// which the surface commits and allows its first frame.
    pub fn configure(&mut self) -> (first: bool)
        ensures
            first == !old(self).initial_configure_done,
            *final(self) == spec_configure(*old(self)),
    {
        let first = !self.initial_configure_done;
        if first {
            self.initial_configure_done = true;
            self.frame_pending = true;
        }
        self.configured = true;
        first
    }

    /// The compositor asked for the next frame.
    pub fn on_frame_ready(&mut self)
        ensures
            *final(self) == (FrameGate { frame_pending: true, ..*old(self) }),
    {
        self.frame_pending = true;
    }

    /// Start a render request: what to do, with the pending frame taken.
    pub fn begin_render(&mut self) -> (step: RenderStep)
        ensures
            (*final(self), step) == spec_begin_render(*old(self)),
    {
        if !self.configured || !self.frame_pending {
            return RenderStep::Skip;
        }
        self.frame_pending = false;
        if !self.resources_initialized && self.is_active {
            RenderStep::Initialize
        } else {
            RenderStep::Draw
        }
    }

    /// The resources were set up.
    pub fn finish_initialization(&mut self)
        ensures
            *final(self) == (FrameGate { resources_initialized: true, ..*old(self) }),
    {
        self.resources_initialized = true;
    }

    /// Count a drawn frame. Returns whether the decoder's memory pressure
    /// is due for a check, every 600th frame.
    pub fn count_frame(&mut self) -> (check_memory: bool)
        requires
            old(self).frame_count < u64::MAX,
        ensures
            *final(self) == (FrameGate { frame_count: (old(self).frame_count + 1) as u64, ..*old(self) }),
            check_memory == ((old(self).frame_count + 1) % 600 == 0),
    {
        self.frame_count = self.frame_count + 1;
        self.frame_count % 600 == 0
    }

    /// Mark the output active or inactive. Returns whether the resources
    /// are to be released now: the output became inactive while they were
    /// set up.
    pub fn set_active(&mut self, active: bool) -> (release: bool)
        ensures
            *final(self) == spec_set_active(*old(self), active),
            release == (old(self).is_active && !active && old(self).resources_initialized),
    {
        if self.is_active != active {
            self.is_active = active;
            if !active {
                return self.release_resources();
            }
        }
        false
    }

    /// Give the resources up. Returns whether there were any.
    pub fn release_resources(&mut self) -> (had: bool)
        ensures
            *final(self) == (FrameGate { resources_initialized: false, ..*old(self) }),
            had == old(self).resources_initialized,
    {
        let had = self.resources_initialized;
        self.resources_initialized = false;
        had
    }
}

/// At most one frame is drawn per frame request: a render right after
/// another, with no frame request or configure in between, does nothing.
pub proof fn law_one_frame_per_request(g: FrameGate)
    ensures
        spec_begin_render(spec_begin_render(g).0).1 == RenderStep::Skip,
        spec_begin_render(spec_begin_render(g).0).0 == spec_begin_render(g).0,
{
}

/// The first configure of a new surface lets it set up its resources and
/// draw.
pub proof fn law_first_configure_starts_rendering()
    ensures
        spec_begin_render(
            spec_configure(
                FrameGate {
                    configured: false,
                    initial_configure_done: false,
                    frame_pending: false,
                    is_active: true,
                    resources_initialized: false,
                    frame_count: 0,
                },
            ),
        ).1 == RenderStep::Initialize,
{
}

/// Later configures do not by themselves allow a frame.
pub proof fn law_later_configure_waits_for_request(g: FrameGate)
    requires
        g.initial_configure_done,
        !g.frame_pending,
    ensures
        spec_begin_render(spec_configure(g)).1 == RenderStep::Skip,
{
}

/// An output that becomes inactive gives its resources up, and it is not
/// set up again while it stays inactive.
pub proof fn law_inactive_output_is_released(g: FrameGate)
    requires
        g.is_active,
    ensures
        !spec_set_active(g, false).resources_initialized,
        spec_begin_render(spec_set_active(g, false)).1 != RenderStep::Initialize,
{
}

} // verus!
