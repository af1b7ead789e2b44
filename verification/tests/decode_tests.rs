use wayvid::config::{EffectiveConfig, PowerConfig, VideoSource};
use wayvid::core_types::LayoutMode;
use wayvid::shared_decode::{FrameBuffer, SharedDecodeManager, SourceKey};

fn make_test_config(path: &str) -> EffectiveConfig {
    EffectiveConfig {
        source: VideoSource::File { path: path.to_string() },
        layout: LayoutMode::Fill,
        hwdec: true,
        loop_playback: true,
        mute: false,
        volume_bits: 1.0f64.to_bits(),
        start_time_bits: 0,
        playback_rate_bits: 1.0f64.to_bits(),
        power: PowerConfig::default(),
    }
}

#[test]
fn test_source_key_equality() {
    let key1 = SourceKey::from_config(&make_test_config("/path/to/video.mp4"));
    let key2 = SourceKey::from_config(&make_test_config("/path/to/video.mp4"));
    let key3 = SourceKey::from_config(&make_test_config("/path/to/other.mp4"));
    assert_eq!(key1, key2);
    assert_ne!(key1, key3);
}

#[test]
fn test_decoder_reference_counting() {
    let mut mgr = SharedDecodeManager::new();
    let key = || SourceKey::from_config(&make_test_config("/test/video.mp4"));
    assert!(mgr.acquire_decoder(key()));
    let s = mgr.global_stats();
    assert_eq!((s.active_decoders, s.total_consumers), (1, 1));
    assert!(!mgr.acquire_decoder(key()));
    let s = mgr.global_stats();
    assert_eq!((s.active_decoders, s.total_consumers), (1, 2));
    assert!(!mgr.release_decoder(&key()));
    let s = mgr.global_stats();
    assert_eq!((s.active_decoders, s.total_consumers), (1, 1));
    assert!(mgr.release_decoder(&key()));
    let s = mgr.global_stats();
    assert_eq!((s.active_decoders, s.total_consumers), (0, 0));
    assert!(!mgr.release_decoder(&key()));
}

#[test]
fn test_multiple_different_sources() {
    let mut mgr = SharedDecodeManager::new();
    mgr.acquire_decoder(SourceKey::from_config(&make_test_config("/test/video1.mp4")));
    mgr.acquire_decoder(SourceKey::from_config(&make_test_config("/test/video2.mp4")));
    let s = mgr.global_stats();
    assert_eq!((s.active_decoders, s.total_consumers), (2, 2));
}

#[test]
fn frame_buffer_keeps_the_latest_frame() {
    let mut fb = FrameBuffer::new();
    assert!(fb.get_frame().is_none());
    fb.update_frame(vec![1, 2, 3, 4], 1, 1);
    fb.update_frame(vec![9, 9, 9, 9, 8, 8, 8, 8], 2, 1);
    let (data, w, h, seq) = fb.get_frame().unwrap();
    assert_eq!(*data, vec![9, 9, 9, 9, 8, 8, 8, 8]);
    assert_eq!((w, h, seq), (2, 1, 2));
}

#[test]
fn equal_keys_collapse_in_a_hash_set() {
    let mut set = std::collections::HashSet::new();
    set.insert(SourceKey::from_config(&make_test_config("/a.mp4")));
    set.insert(SourceKey::from_config(&make_test_config("/a.mp4")));
    set.insert(SourceKey::from_config(&make_test_config("/b.mp4")));
    assert_eq!(set.len(), 2);
}
