use wayvid::config::{
    default_hwdec, default_layout, default_loop, default_max_buffers, default_max_memory_mb,
    default_mute, default_pause_hidden, default_playback_rate_bits, default_priority, Config,
    OutputConfig, PowerConfig, VideoSource,
};
use wayvid::core_types::LayoutMode;
use wayvid::pattern::matches_pattern;

fn base_config(path: &str, per_output: Vec<(String, OutputConfig)>) -> Config {
    Config {
        source: VideoSource::File { path: path.to_string() },
        layout: default_layout(),
        loop_playback: default_loop(),
        start_time_bits: 0,
        playback_rate_bits: default_playback_rate_bits(),
        mute: default_mute(),
        volume_bits: 0,
        hwdec: default_hwdec(),
        per_output,
        power: PowerConfig::default(),
    }
}

fn layout_override(priority: u32, layout: LayoutMode) -> OutputConfig {
    OutputConfig {
        priority,
        source: None,
        layout: Some(layout),
        start_time_bits: None,
        playback_rate_bits: None,
        mute: None,
        volume_bits: None,
    }
}

#[test]
fn test_per_output_override() {
    let mut o = layout_override(default_priority(), LayoutMode::Contain);
    o.start_time_bits = Some(5.0f64.to_bits());
    let config = base_config("/default.mp4", vec![("HDMI-A-1".to_string(), o)]);
    let effective = config.for_output("HDMI-A-1");
    assert_eq!(effective.layout, LayoutMode::Contain);
    assert_eq!(f64::from_bits(effective.start_time_bits), 5.0);
}

#[test]
fn test_pattern_matching() {
    let config = base_config(
        "/default.mp4",
        vec![
            ("HDMI-*".to_string(), layout_override(50, LayoutMode::Contain)),
            ("DP-?".to_string(), layout_override(50, LayoutMode::Stretch)),
            ("eDP-1".to_string(), layout_override(50, LayoutMode::Cover)),
        ],
    );
    assert_eq!(config.for_output("eDP-1").layout, LayoutMode::Cover);
    assert_eq!(config.for_output("HDMI-A-1").layout, LayoutMode::Contain);
    assert_eq!(config.for_output("HDMI-B-2").layout, LayoutMode::Contain);
    assert_eq!(config.for_output("DP-1").layout, LayoutMode::Stretch);
    assert_eq!(config.for_output("DP-2").layout, LayoutMode::Stretch);
    assert_eq!(config.for_output("DVI-I-1").layout, LayoutMode::Fill);
}

#[test]
fn test_priority_sorting() {
    let config = base_config(
        "/default.mp4",
        vec![
            ("*".to_string(), layout_override(99, LayoutMode::Stretch)),
            ("HDMI-*".to_string(), layout_override(10, LayoutMode::Contain)),
            ("HDMI-A-*".to_string(), layout_override(5, LayoutMode::Cover)),
        ],
    );
    assert_eq!(config.for_output("HDMI-A-1").layout, LayoutMode::Cover);
    assert_eq!(config.for_output("HDMI-B-1").layout, LayoutMode::Contain);
    assert_eq!(config.for_output("DP-1").layout, LayoutMode::Stretch);
}

#[test]
fn test_exact_match_priority() {
    let config = base_config(
        "/default.mp4",
        vec![
            ("HDMI-A-1".to_string(), layout_override(50, LayoutMode::Centre)),
            ("HDMI-*".to_string(), layout_override(1, LayoutMode::Contain)),
        ],
    );
    assert_eq!(config.for_output("HDMI-A-1").layout, LayoutMode::Centre);
    assert_eq!(config.for_output("HDMI-A-2").layout, LayoutMode::Contain);
}

#[test]
fn test_fallback_pattern() {
    let config = base_config(
        "/default.mp4",
        vec![
            ("HDMI-*".to_string(), layout_override(50, LayoutMode::Contain)),
            ("*".to_string(), layout_override(99, LayoutMode::Stretch)),
        ],
    );
    assert_eq!(config.for_output("HDMI-A-1").layout, LayoutMode::Contain);
    assert_eq!(config.for_output("DP-1").layout, LayoutMode::Stretch);
    assert_eq!(config.for_output("eDP-1").layout, LayoutMode::Stretch);
}

#[test]
fn defaults_of_the_configuration() {
    assert_eq!(default_layout(), LayoutMode::Fill);
    assert!(default_loop());
    assert!(default_mute());
    assert!(default_hwdec());
    assert!(default_pause_hidden());
    assert_eq!(default_max_memory_mb(), 100);
    assert_eq!(default_max_buffers(), 8);
    assert_eq!(default_priority(), 50);
    assert_eq!(f64::from_bits(default_playback_rate_bits()), 1.0);
    let p = PowerConfig::default();
    assert!(p.pause_when_hidden && !p.pause_on_battery);
    assert_eq!((p.max_fps, p.max_memory_mb, p.max_buffers), (0, 100, 8));
}

#[test]
fn override_keeps_global_settings_it_does_not_name() {
    let mut o = layout_override(50, LayoutMode::Stretch);
    o.mute = Some(false);
    o.source = Some(VideoSource::Url { url: "https://example.org/a.mp4".to_string() });
    let mut config = base_config("/default.mp4", vec![("DP-*".to_string(), o)]);
    config.volume_bits = 0.25f64.to_bits();
    let e = config.for_output("DP-3");
    assert_eq!(e.layout, LayoutMode::Stretch);
    assert!(!e.mute);
    assert_eq!(e.source, VideoSource::Url { url: "https://example.org/a.mp4".to_string() });
    assert_eq!(f64::from_bits(e.volume_bits), 0.25);
    assert!(e.loop_playback);
    assert!(e.hwdec);
    let none = config.for_output("HDMI-A-1");
    assert_eq!(none.source, VideoSource::File { path: "/default.mp4".to_string() });
    assert!(none.mute);
}

#[test]
fn equal_scores_keep_the_first_entry() {
    let config = base_config(
        "/default.mp4",
        vec![
            ("DP-?".to_string(), layout_override(50, LayoutMode::Stretch)),
            ("D?-1".to_string(), layout_override(50, LayoutMode::Cover)),
        ],
    );
    assert_eq!(config.for_output("DP-1").layout, LayoutMode::Stretch);
}

#[test]
fn glob_patterns() {
    assert!(matches_pattern("HDMI-A-1", "HDMI-*"));
    assert!(matches_pattern("HDMI-", "HDMI-*"));
    assert!(!matches_pattern("HDM", "HDMI-*"));
    assert!(matches_pattern("DP-1", "DP-?"));
    assert!(!matches_pattern("DP-10", "DP-?"));
    assert!(matches_pattern("anything", "*"));
    assert!(matches_pattern("", "*"));
    assert!(!matches_pattern("", "?"));
    assert!(matches_pattern("a*b", "a*b"));
    assert!(matches_pattern("axxbyyb", "a*b"));
    assert!(!matches_pattern("axxbyyc", "a*b"));
    assert!(matches_pattern("eDP-1", "*DP-*"));
    assert!(!matches_pattern("eDP-1", "DP-1"));
}

#[test]
fn video_source_paths() {
    let pipe = VideoSource::Pipe { path: String::new() };
    assert_eq!(pipe.get_mpv_path(), "fd://0");
    assert_eq!(pipe.get_source_string(), "stdin");
    assert!(pipe.is_streaming());
    let url = VideoSource::Url { url: "http://x/y".to_string() };
    assert_eq!(url.get_mpv_path(), "http://x/y");
    let file = VideoSource::File { path: "/abs/video.mp4".to_string() };
    assert_eq!(file.get_mpv_path(), "/abs/video.mp4");
    assert!(!file.is_streaming());
    let home = VideoSource::File { path: "~/v.mp4".to_string() };
    assert!(home.get_mpv_path().ends_with("/v.mp4"));
    let seq = VideoSource::ImageSequence { path: "/g.gif".to_string(), fps_bits: 30.0f64.to_bits() };
    assert!(seq.is_image_sequence());
    assert!(VideoSource::WeScene { path: "/s".to_string() }.is_scene());
}

#[test]
fn reload_switches_only_changed_sources() {
    let mut hdmi = layout_override(50, LayoutMode::Contain);
    hdmi.source = Some(VideoSource::Url { url: "https://example.com/a.m3u8".to_string() });
    let config = base_config("/new.mp4", vec![("HDMI-*".to_string(), hdmi)]);
    let outputs = vec![
        ("eDP-1".to_string(), VideoSource::File { path: "/old.mp4".to_string() }),
        ("DP-1".to_string(), VideoSource::File { path: "/new.mp4".to_string() }),
        ("HDMI-A-1".to_string(), VideoSource::Url { url: "https://example.com/a.m3u8".to_string() }),
        ("HDMI-A-2".to_string(), VideoSource::File { path: "/new.mp4".to_string() }),
    ];
    let changes = wayvid::daemon::reload_source_changes(&config, &outputs);
    assert_eq!(
        changes,
        vec![
            ("eDP-1".to_string(), VideoSource::File { path: "/new.mp4".to_string() }),
            ("HDMI-A-2".to_string(), VideoSource::Url { url: "https://example.com/a.m3u8".to_string() }),
        ]
    );
}

#[test]
fn priority_ranks_before_wildcards_and_length() {
    let config = base_config(
        "/new.mp4",
        vec![
            ("a*".to_string(), layout_override(2, LayoutMode::Stretch)),
            ("????????????".to_string(), layout_override(1, LayoutMode::Cover)),
        ],
    );
    assert_eq!(config.for_output("abcdefghijkl").layout, LayoutMode::Cover);
    // Large priorities rank without overflowing.
    let config = base_config(
        "/new.mp4",
        vec![
            ("*".to_string(), layout_override(u32::MAX, LayoutMode::Contain)),
            ("D*".to_string(), layout_override(u32::MAX, LayoutMode::Fill)),
        ],
    );
    assert_eq!(config.for_output("DP-1").layout, LayoutMode::Fill);
    let outputs = vec![("DP-1".to_string(), VideoSource::File { path: "/new.mp4".to_string() })];
    assert_eq!(wayvid::daemon::reload_source_changes(&config, &outputs), Vec::new());
}

#[test]
fn exact_name_wins_over_any_pattern() {
    let long_pattern = format!("{}*", "x".repeat(999));
    let config = base_config(
        "/new.mp4",
        vec![
            (long_pattern, layout_override(0, LayoutMode::Stretch)),
            ("*".to_string(), layout_override(0, LayoutMode::Cover)),
            ("xxx".to_string(), layout_override(99, LayoutMode::Contain)),
        ],
    );
    assert_eq!(config.for_output("xxx").layout, LayoutMode::Contain);
}
