use wayvid::config::VideoSource;
use wayvid::core_types::LayoutMode;
use wayvid::we_project::{
    alignment_name, config_header, generate_wayvid_config, WeGeneral, WeProject, WeProperty,
};
use wayvid::workshop::{
    detect_we_project, join_path, parse_item_id, resolve_video_path, validate_project_type,
    WeError, WorkshopItem, WorkshopScanner,
};

fn project(ty: &str, props: Vec<(String, WeProperty)>) -> WeProject {
    WeProject {
        project_type: ty.to_string(),
        file: "video.mp4".to_string(),
        title: "Test".to_string(),
        description: "Test description".to_string(),
        preview: None,
        workshopid: None,
        general: WeGeneral { properties: props },
        tags: vec![],
    }
}

#[test]
fn test_generate_wayvid_config_minimal() {
    let p = project("video", WeGeneral::default().properties);
    let config = generate_wayvid_config(&p, "/path/to/video.mp4".to_string());
    assert_eq!(f64::from_bits(config.playback_rate_bits), 1.0);
    assert_eq!(f64::from_bits(config.volume_bits), 50.0);
    assert!(config.loop_playback);
    assert_eq!(config.layout, LayoutMode::Contain);
}

#[test]
fn generated_config_follows_properties() {
    let props = vec![
        ("alignment".to_string(), WeProperty::Combo { order: 0, text: String::new(), kind: String::new(), value: 3, options: vec![] }),
        ("playbackmode".to_string(), WeProperty::Combo { order: 0, text: String::new(), kind: String::new(), value: 1, options: vec![] }),
        (
            "volume".to_string(),
            WeProperty::Slider { order: 0, text: String::new(), kind: String::new(), value_bits: 0.0f64.to_bits(), min_bits: None, max_bits: None, fraction: None },
        ),
        (
            "rate".to_string(),
            WeProperty::Slider { order: 0, text: String::new(), kind: String::new(), value_bits: 2.0f64.to_bits(), min_bits: None, max_bits: None, fraction: None },
        ),
    ];
    let c = generate_wayvid_config(&project("video", props), "/v.mp4".to_string());
    assert_eq!(c.layout, LayoutMode::Fill);
    assert!(!c.loop_playback);
    assert!(c.mute);
    assert_eq!(f64::from_bits(c.playback_rate_bits), 2.0);
    assert_eq!(c.source, VideoSource::File { path: "/v.mp4".to_string() });
    assert!(c.per_output.is_empty());
}

#[test]
fn a_property_of_another_kind_gives_the_default() {
    let props = vec![("alignment".to_string(), WeProperty::Bool { order: 0, text: String::new(), kind: String::new(), value: true })];
    let c = generate_wayvid_config(&project("video", props), "/v.mp4".to_string());
    assert_eq!(c.layout, LayoutMode::Contain);
}

#[test]
fn alignment_names() {
    assert_eq!(alignment_name(0), "center");
    assert_eq!(alignment_name(1), "fit");
    assert_eq!(alignment_name(2), "fill");
    assert_eq!(alignment_name(3), "stretch");
    assert_eq!(alignment_name(-1), "unknown");
}

#[test]
fn header_of_an_imported_configuration() {
    let mut p = project("video", vec![]);
    p.title = "Ocean Waves".to_string();
    p.description = "Beautiful ocean scene".to_string();
    p.workshopid = Some("123456789".to_string());
    let h = config_header(&p);
    assert!(h.contains("# Title: Ocean Waves"));
    assert!(h.contains("# Workshop ID: 123456789"));
    assert!(h.contains("# Description: Beautiful ocean scene"));
    assert!(h.ends_with("\n\n"));
    p.description = String::new();
    p.workshopid = None;
    assert_eq!(
        config_header(&p),
        "# wayvid configuration\n# Imported from Wallpaper Engine\n# Title: Ocean Waves\n\n"
    );
}

#[test]
fn test_detect_we_project() {
    let dir = "/tmp/we-project";
    assert!(detect_we_project(dir, false).is_err());
    assert_eq!(detect_we_project(dir, true).unwrap(), "/tmp/we-project/project.json");
}

#[test]
fn test_resolve_video_path_missing_file() {
    let result = resolve_video_path("/tmp/we-project", "nonexistent.mp4", false, false);
    assert_eq!(
        result,
        Err(WeError::VideoNotFound { path: "/tmp/we-project/nonexistent.mp4".to_string() })
    );
    assert_eq!(
        resolve_video_path("/tmp/p", "v.mp4", true, true),
        Ok("/tmp/p/v.mp4".to_string())
    );
    assert_eq!(
        resolve_video_path("/tmp/p", "dir", true, false),
        Err(WeError::NotAFile { path: "/tmp/p/dir".to_string() })
    );
}

#[test]
fn test_parse_we_project_unsupported_type() {
    let web = project("web", vec![]);
    assert_eq!(
        validate_project_type(&web),
        Err(WeError::UnsupportedType { project_type: "web".to_string() })
    );
    assert_eq!(validate_project_type(&project("video", vec![])), Ok(()));
}

#[test]
fn path_joining() {
    assert_eq!(join_path("/a", "b"), "/a/b");
    assert_eq!(join_path("/a/", "b"), "/a/b");
    assert_eq!(join_path("/a", "/b"), "/b");
    assert_eq!(join_path("", "b"), "b");
}

#[test]
fn test_workshop_item_title() {
    let item = WorkshopItem { id: 123456, path: "/test".to_string(), project: None };
    assert_eq!(item.title(), "Workshop Item 123456");
    assert!(!item.is_valid());
    assert_eq!(item.video_path(), None);
}

#[test]
fn workshop_items_with_projects() {
    let valid = WorkshopItem { id: 7, path: "/w/7".to_string(), project: Some(project("video", vec![])) };
    assert_eq!(valid.title(), "Test");
    assert_eq!(valid.video_path(), Some("/w/7/video.mp4".to_string()));
    let invalid = WorkshopItem { id: 8, path: "/w/8".to_string(), project: None };
    let scanner = WorkshopScanner::scan(vec![invalid, valid]);
    assert_eq!(scanner.items().len(), 1);
    assert_eq!(scanner.find(7).map(|i| i.id), Some(7));
    assert!(scanner.find(8).is_none());
}

#[test]
fn item_ids() {
    assert_eq!(parse_item_id("3578699777"), Some(3578699777));
    assert_eq!(parse_item_id("+12"), Some(12));
    assert_eq!(parse_item_id(""), None);
    assert_eq!(parse_item_id("+"), None);
    assert_eq!(parse_item_id("12a"), None);
    assert_eq!(parse_item_id("-1"), None);
    assert_eq!(parse_item_id("18446744073709551615"), Some(u64::MAX));
    assert_eq!(parse_item_id("18446744073709551616"), None);
    for s in ["0", "42", "007", "+9", "99999999999999999999", "x"] {
        assert_eq!(parse_item_id(s), s.parse::<u64>().ok());
    }
}

#[test]
fn cached_ids_are_sorted_directory_ids() {
    let entries = vec![
        ("300".to_string(), true),
        ("12".to_string(), true),
        ("abc".to_string(), true),
        ("5".to_string(), false),
        ("7".to_string(), true),
        ("12.tmp".to_string(), false),
    ];
    assert_eq!(wayvid::workshop::cached_item_ids(&entries), vec![7, 12, 300]);
    let dup = vec![("007".to_string(), true), ("7".to_string(), true), ("1".to_string(), true)];
    assert_eq!(wayvid::workshop::cached_item_ids(&dup), vec![1, 7, 7]);
    assert_eq!(wayvid::workshop::cached_item_ids(&Vec::new()), Vec::<u64>::new());
}
