use wayvid::library::{add_to_library, add_workshop_items, search_library, WallpaperItem, WallpaperSource};
use wayvid::we_project::{WeGeneral, WeProject};
use wayvid::workshop::WorkshopItem;

fn project(title: &str, file: &str) -> WeProject {
    WeProject {
        project_type: "video".to_string(),
        file: file.to_string(),
        title: title.to_string(),
        description: String::new(),
        preview: None,
        workshopid: None,
        general: WeGeneral { properties: vec![] },
        tags: vec![],
    }
}

fn summary(lib: &[WallpaperItem]) -> Vec<(String, String, String, WallpaperSource)> {
    lib.iter()
        .map(|w| (w.id.clone(), w.name.clone(), w.source_path.clone(), w.source_type))
        .collect()
}

#[test]
fn library_adds_each_source_once() {
    let mut lib = Vec::new();
    add_to_library(&mut lib, "/home/u/videos/sea.mp4", false);
    add_to_library(&mut lib, "https://example.com/live.m3u8", false);
    add_to_library(&mut lib, "/home/u/frames", true);
    add_to_library(&mut lib, "/home/u/videos/sea.mp4", false);
    assert_eq!(
        summary(&lib),
        vec![
            ("local-0".to_string(), "sea.mp4".to_string(), "/home/u/videos/sea.mp4".to_string(), WallpaperSource::LocalFile),
            ("local-1".to_string(), "live.m3u8".to_string(), "https://example.com/live.m3u8".to_string(), WallpaperSource::Url),
            ("local-2".to_string(), "frames".to_string(), "/home/u/frames".to_string(), WallpaperSource::Directory),
        ]
    );
    assert!(lib.iter().all(|w| w.is_valid));
}

#[test]
fn library_names_a_path_without_last_component_by_itself() {
    let mut lib = Vec::new();
    add_to_library(&mut lib, "..", false);
    add_to_library(&mut lib, "/", true);
    assert_eq!(lib[0].name, "..");
    assert_eq!(lib[1].name, "/");
    assert_eq!(lib[1].source_type, WallpaperSource::Directory);
}

#[test]
fn workshop_scan_merges_valid_items() {
    let mut lib = Vec::new();
    add_to_library(&mut lib, "/lib/100/a.mp4", false);
    let items = vec![
        WorkshopItem { id: 100, path: "/lib/100".to_string(), project: Some(project("A", "a.mp4")) },
        WorkshopItem { id: 200, path: "/lib/200".to_string(), project: None },
        WorkshopItem { id: 300, path: "/lib/300".to_string(), project: Some(project("C", "c.mp4")) },
        WorkshopItem { id: 301, path: "/lib/300".to_string(), project: Some(project("C again", "c.mp4")) },
    ];
    let count = add_workshop_items(&mut lib, &items);
    assert_eq!(count, 1);
    assert_eq!(
        summary(&lib),
        vec![
            ("local-0".to_string(), "a.mp4".to_string(), "/lib/100/a.mp4".to_string(), WallpaperSource::LocalFile),
            (
                "workshop-300".to_string(),
                "C".to_string(),
                "/lib/300/c.mp4".to_string(),
                WallpaperSource::Workshop { workshop_id: 300 }
            ),
        ]
    );
    // A second scan adds nothing.
    assert_eq!(add_workshop_items(&mut lib, &items), 1);
    assert_eq!(lib.len(), 2);
}

#[test]
fn library_search_ignores_case() {
    let mut lib = Vec::new();
    add_to_library(&mut lib, "/home/u/Videos/Sea.mp4", false);
    add_to_library(&mut lib, "https://example.com/live.m3u8", false);
    add_to_library(&mut lib, "/home/u/frames", true);
    assert_eq!(search_library(&lib, ""), vec![0, 1, 2]);
    assert_eq!(search_library(&lib, "SEA"), vec![0]);
    assert_eq!(search_library(&lib, "videos"), vec![0]);
    assert_eq!(search_library(&lib, "/HOME/U"), vec![0, 2]);
    assert_eq!(search_library(&lib, "m3u8"), vec![1]);
    assert_eq!(search_library(&lib, "nothing"), Vec::<usize>::new());
}
