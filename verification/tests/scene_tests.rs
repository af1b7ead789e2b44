use wayvid::core_types::LayoutMode;
use wayvid::scene_types::{blend_factors, draw_order, tex_path_for, is_texture_extension, texture_candidates, BlendMode, ImageAlignment};
use wayvid::we_project::convert_alignment;

#[test]
fn test_convert_alignment() {
    assert_eq!(convert_alignment(0), LayoutMode::Centre);
    assert_eq!(convert_alignment(1), LayoutMode::Contain);
    assert_eq!(convert_alignment(2), LayoutMode::Cover);
    assert_eq!(convert_alignment(3), LayoutMode::Fill);
    assert_eq!(convert_alignment(99), LayoutMode::Contain);
}

#[test]
fn test_blend_mode_from_int() {
    assert_eq!(BlendMode::from_int(0), BlendMode::Normal);
    assert_eq!(BlendMode::from_int(1), BlendMode::Additive);
    assert_eq!(BlendMode::from_int(99), BlendMode::Normal);
}

#[test]
fn test_image_alignment_from_str() {
    assert_eq!(ImageAlignment::from_str("center"), ImageAlignment::Center);
    assert_eq!(ImageAlignment::from_str("topleft"), ImageAlignment::TopLeft);
    assert_eq!(ImageAlignment::from_str("unknown"), ImageAlignment::Center);
}

#[test]
fn texture_candidates_drop_json_suffixes() {
    assert_eq!(
        texture_candidates("models/bg.json"),
        vec![
            "models/bg.png",
            "models/bg.jpg",
            "models/bg.jpeg",
            "models/bg.gif",
            "models/bg.webp",
            "models/bg.tex"
        ]
    );
    assert_eq!(texture_candidates("a.json.json")[0], "a.png");
    assert_eq!(texture_candidates("plain")[5], "plain.tex");
    assert_eq!(texture_candidates(".json")[1], ".jpg");
    assert_eq!(texture_candidates("b.JSON")[0], "b.JSON.png");
    assert!(is_texture_extension("png"));
    assert!(is_texture_extension("tex"));
    assert!(!is_texture_extension("PNG"));
    assert!(!is_texture_extension("bmp"));
    assert!(!is_texture_extension(""));
}

#[test]
fn layers_draw_by_id_in_scene_order() {
    // (id, visible, is an image)
    let objects = vec![
        (5, true, true),
        (2, true, true),
        (9, false, true),
        (2, true, true),
        (1, true, false),
        (0, true, true),
    ];
    assert_eq!(draw_order(&objects), vec![5, 1, 3, 0]);
    assert_eq!(draw_order(&Vec::new()), Vec::<usize>::new());
}

#[test]
fn blend_modes_map_to_gl_factors() {
    assert_eq!(blend_factors(BlendMode::Normal), (0x0302, 0x0303));
    assert_eq!(blend_factors(BlendMode::Additive), (0x0302, 1));
    assert_eq!(blend_factors(BlendMode::Multiply), (0x0306, 0));
    assert_eq!(blend_factors(BlendMode::Screen), (1, 0x0301));
    assert_eq!(blend_factors(BlendMode::Overlay), (0x0302, 0x0303));
}

#[test]
fn tex_path_of_images() {
    assert_eq!(tex_path_for("materials/sky.tex"), "materials/sky.tex");
    assert_eq!(tex_path_for("models/sky.json"), "materials/sky.tex");
    assert_eq!(tex_path_for("sky.png"), "materials/sky.tex");
    assert_eq!(tex_path_for("archive.tar.gz"), "materials/archive.tar.tex");
    assert_eq!(tex_path_for(""), "materials/.tex");
    assert_eq!(tex_path_for("a/.."), "materials/a/...tex");
    assert!(wayvid::texture::is_tex_data(b"TEXV0005\0TEXI0001"));
    assert!(!wayvid::texture::is_tex_data(b"TEXV000"));
    assert!(!wayvid::texture::is_tex_data(b"\x89PNG\r\n\x1a\n"));
}
