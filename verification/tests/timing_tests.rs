use std::time::Duration;

use wayvid::daemon::{command_target, parse_layout_name, power_transition, socket_path, source_from_path, switch_source_path, CommandTarget, PowerAction};
use wayvid::config::VideoSource;
use wayvid::core_types::LayoutMode;
use wayvid::frame_timing::{target_rate, FrameTiming, LoadLevel};

fn timing(fps: u32) -> FrameTiming {
    let d = Duration::from_secs_f64(1.0 / target_rate(fps) as f64);
    FrameTiming::new(d.as_nanos() as u64)
}

/// The load level of the history, computed as the daemon does.
fn level(t: &FrameTiming) -> (LoadLevel, f64) {
    let (total, len) = t.history_total();
    if len == 0 {
        return (LoadLevel::Moderate, 0.0);
    }
    let avg = Duration::from_nanos((total / len as u128) as u64);
    let load = avg.as_secs_f64() / Duration::from_nanos(t.target_frame_nanos()).as_secs_f64();
    let l = if load > 0.80 {
        LoadLevel::Overloaded
    } else if load < 0.60 {
        LoadLevel::Recovered
    } else {
        LoadLevel::Moderate
    };
    (l, load)
}

#[test]
fn test_frame_timing_basic() {
    let mut t = timing(60);
    for _ in 0..20 {
        t.end_frame(Duration::from_millis(10).as_nanos() as u64);
        let (l, _) = level(&t);
        assert!(!t.should_skip_frame(l), "Should not skip under normal load");
    }
    let (rendered, skipped, _) = t.get_counts();
    assert_eq!(rendered, 20);
    assert_eq!(skipped, 0);
}

#[test]
fn test_frame_timing_overload() {
    let mut t = timing(60);
    for i in 0..20 {
        t.end_frame(Duration::from_millis(20).as_nanos() as u64);
        let (l, _) = level(&t);
        let should_skip = t.should_skip_frame(l);
        if i >= 12 {
            assert!(should_skip, "Should skip after sustained overload");
        }
    }
    let (_, _, in_skip) = t.get_counts();
    assert!(in_skip, "Should be in skip mode");
    assert!(level(&t).1 * 100.0 > 80.0, "Load should be high");
}

#[test]
fn test_frame_timing_recovery() {
    let mut t = timing(60);
    for _ in 0..15 {
        t.end_frame(Duration::from_millis(20).as_nanos() as u64);
        let (l, _) = level(&t);
        t.should_skip_frame(l);
    }
    assert!(t.get_counts().2, "Should be in skip mode");
    for _ in 0..60 {
        t.end_frame(Duration::from_millis(8).as_nanos() as u64);
        let (l, _) = level(&t);
        t.should_skip_frame(l);
    }
    assert!(!t.get_counts().2, "Should exit skip mode after recovery");
}

#[test]
fn test_load_percentage() {
    let mut t = timing(60);
    for _ in 0..20 {
        t.end_frame(Duration::from_millis(8).as_nanos() as u64);
    }
    let load = level(&t).1;
    assert!(load > 0.45 && load < 0.55, "Load should be ~50%, got {}", load);
}

#[test]
fn skip_mode_needs_three_consecutive_frames() {
    let mut t = FrameTiming::new(1000);
    for _ in 0..10 {
        t.end_frame(1);
    }
    assert!(!t.should_skip_frame(LoadLevel::Overloaded));
    assert!(!t.should_skip_frame(LoadLevel::Overloaded));
    assert!(!t.should_skip_frame(LoadLevel::Moderate));
    assert!(!t.should_skip_frame(LoadLevel::Overloaded));
    assert!(!t.should_skip_frame(LoadLevel::Overloaded));
    assert!(t.should_skip_frame(LoadLevel::Overloaded));
    assert!(t.should_skip_frame(LoadLevel::Recovered));
    assert!(t.should_skip_frame(LoadLevel::Recovered));
    assert!(!t.should_skip_frame(LoadLevel::Recovered));
}

#[test]
fn short_history_never_skips_and_history_is_bounded() {
    let mut t = FrameTiming::new(1000);
    for _ in 0..9 {
        t.end_frame(5000);
        assert!(!t.should_skip_frame(LoadLevel::Overloaded));
    }
    for _ in 0..100 {
        t.end_frame(7);
    }
    assert_eq!(t.history_total(), (60 * 7, 60));
    t.record_skip();
    assert_eq!(t.get_counts(), (109, 1, false));
    t.reset_stats();
    assert_eq!(t.get_counts(), (0, 0, false));
    assert_eq!(target_rate(0), 60);
    assert_eq!(target_rate(144), 144);
}

#[test]
fn battery_pause_acts_once() {
    assert_eq!(power_transition(true, true, false), (true, PowerAction::Pause));
    assert_eq!(power_transition(true, true, true), (true, PowerAction::Keep));
    assert_eq!(power_transition(true, false, true), (false, PowerAction::Resume));
    assert_eq!(power_transition(false, true, true), (false, PowerAction::Resume));
    assert_eq!(power_transition(false, true, false), (false, PowerAction::Keep));
}

#[test]
fn commands_and_sources() {
    assert_eq!(parse_layout_name("Center"), Some(LayoutMode::Centre));
    assert_eq!(parse_layout_name("FIT"), Some(LayoutMode::Contain));
    assert_eq!(parse_layout_name("zoom"), None);
    let outputs = vec!["DP-1".to_string(), "HDMI-A-1".to_string()];
    assert_eq!(command_target(&outputs, None), CommandTarget::All);
    assert_eq!(command_target(&outputs, Some("HDMI-A-1")), CommandTarget::One(1));
    assert_eq!(command_target(&outputs, Some("eDP-1")), CommandTarget::NotFound);
    assert_eq!(
        source_from_path("https://x/v.mp4", "https://x/v.mp4", false),
        VideoSource::Url { url: "https://x/v.mp4".to_string() }
    );
    assert_eq!(
        source_from_path("rtsp://cam", "rtsp://cam", false),
        VideoSource::Rtsp { url: "rtsp://cam".to_string() }
    );
    assert_eq!(
        source_from_path("~/videos", "/home/u/videos", true),
        VideoSource::Directory { path: "/home/u/videos".to_string() }
    );
    assert_eq!(
        source_from_path("~/v.mp4", "/home/u/v.mp4", false),
        VideoSource::File { path: "/home/u/v.mp4".to_string() }
    );
    assert_eq!(switch_source_path(&VideoSource::Pipe { path: String::new() }), "fd://0");
    assert_eq!(switch_source_path(&VideoSource::WeProject { path: "/p".to_string() }), "/p");
    assert_eq!(socket_path(Some("/run/user/1000"), Some("me")), "/run/user/1000/wayvid.sock");
    assert_eq!(socket_path(None, Some("me")), "/tmp/wayvid-me/wayvid.sock");
    assert_eq!(socket_path(None, None), "/tmp/wayvid-unknown/wayvid.sock");
}

#[test]
fn ipc_client_test_socket_path() {
    let path = socket_path(Some("/run/user/1000"), Some("me"));
    assert!(path.contains("wayvid.sock"));
    let path = socket_path(None, Some("me"));
    assert!(path.contains("wayvid.sock"));
}

#[test]
fn ipc_server_test_socket_path() {
    let path = socket_path(Some("/run/user/1000"), Some("me"));
    assert!(path.contains("wayvid"));
    let path = socket_path(None, None);
    assert!(path.contains("wayvid.sock"));
}

#[test]
fn scene_pacing_clamps_rate() {
    let mut p = wayvid::frame_timing::ScenePacing::new();
    assert_eq!(p.frame_time_ms(), 16);
    p.set_target_fps(0);
    assert_eq!(p.frame_time_ms(), 1000);
    p.set_target_fps(240);
    assert_eq!(p.frame_time_ms(), 6);
    p.set_target_fps(30);
    assert_eq!(p.frame_time_ms(), 33);
}

#[test]
fn startup_needs_compositor_and_layer_shell() {
    let check = wayvid::daemon::check_required_globals;
    assert_eq!(check(true, true), Ok(()));
    assert_eq!(check(false, true), Err(wayvid::daemon::StartupError::NoCompositor));
    assert_eq!(check(false, false), Err(wayvid::daemon::StartupError::NoCompositor));
    assert_eq!(check(true, false), Err(wayvid::daemon::StartupError::NoLayerShell));
    let due = wayvid::daemon::periodic_work_due;
    assert_eq!(due(4999, 9999), (false, false));
    assert_eq!(due(5000, 9999), (true, false));
    assert_eq!(due(0, 10000), (false, true));
}
