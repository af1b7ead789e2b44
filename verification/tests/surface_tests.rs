use wayvid::core_types::RenderBackend;
use wayvid::registry::{bind_version, global_kind, provisional_output_name, GlobalKind};
use wayvid::surface::{select_backend, ActiveBackend, FrameGate, RenderStep};

#[test]
fn backend_choice() {
    assert_eq!(select_backend(RenderBackend::OpenGL, true), ActiveBackend::OpenGL);
    assert_eq!(select_backend(RenderBackend::Vulkan, true), ActiveBackend::Vulkan);
    assert_eq!(select_backend(RenderBackend::Vulkan, false), ActiveBackend::OpenGL);
    assert_eq!(select_backend(RenderBackend::Auto, true), ActiveBackend::OpenGL);
    assert_eq!(select_backend(RenderBackend::Auto, false), ActiveBackend::OpenGL);
}

#[test]
fn surface_draws_once_per_frame_request() {
    let mut g = FrameGate::new();
    assert_eq!(g.begin_render(), RenderStep::Skip);
    assert!(g.configure());
    assert_eq!(g.begin_render(), RenderStep::Initialize);
    g.finish_initialization();
    assert!(!g.count_frame());
    assert_eq!(g.begin_render(), RenderStep::Skip);
    assert!(!g.configure());
    assert_eq!(g.begin_render(), RenderStep::Skip);
    g.on_frame_ready();
    assert_eq!(g.begin_render(), RenderStep::Draw);
    assert_eq!(g.begin_render(), RenderStep::Skip);
}

#[test]
fn inactive_surface_releases_and_reinitializes() {
    let mut g = FrameGate::new();
    g.configure();
    assert_eq!(g.begin_render(), RenderStep::Initialize);
    g.finish_initialization();
    assert!(g.set_active(false));
    assert!(!g.resources_initialized);
    assert!(!g.set_active(false));
    g.on_frame_ready();
    assert_eq!(g.begin_render(), RenderStep::Draw);
    assert!(!g.set_active(true));
    g.on_frame_ready();
    assert_eq!(g.begin_render(), RenderStep::Initialize);
}

#[test]
fn memory_check_every_600_frames() {
    let mut g = FrameGate::new();
    let mut checks = Vec::new();
    for _ in 0..1200 {
        if g.count_frame() {
            checks.push(g.frame_count);
        }
    }
    assert_eq!(checks, vec![600, 1200]);
}

#[test]
fn registry_globals() {
    assert_eq!(global_kind("wl_compositor"), GlobalKind::Compositor);
    assert_eq!(global_kind("zwlr_layer_shell_v1"), GlobalKind::LayerShell);
    assert_eq!(global_kind("wl_output"), GlobalKind::Output);
    assert_eq!(global_kind("zxdg_output_manager_v1"), GlobalKind::XdgOutputManager);
    assert_eq!(global_kind("wl_seat"), GlobalKind::Other);
    assert_eq!(global_kind("wl_output2"), GlobalKind::Other);
    assert_eq!(bind_version(GlobalKind::Compositor, 6), Some(4));
    assert_eq!(bind_version(GlobalKind::Compositor, 2), Some(2));
    assert_eq!(bind_version(GlobalKind::Output, 4), Some(3));
    assert_eq!(bind_version(GlobalKind::XdgOutputManager, 3), Some(3));
    assert_eq!(bind_version(GlobalKind::LayerShell, 5), Some(4));
    assert_eq!(bind_version(GlobalKind::Other, 1), None);
    assert_eq!(provisional_output_name(42), "output-42");
    assert_eq!(provisional_output_name(0), "output-0");
}
