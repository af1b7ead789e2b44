use wayvid::pkg::trim_trailing_nuls;
use wayvid::texture::TextureFormat;

#[test]
fn test_pkg_entry_name_parsing() {
    let name_with_null = "test.json\0";
    let cleaned = trim_trailing_nuls(name_with_null);
    assert_eq!(cleaned, "test.json");
}

#[test]
fn test_texture_format_bpp() {
    assert_eq!(TextureFormat::ARGB8888.bytes_per_pixel(), Some(4));
    assert_eq!(TextureFormat::RGB888.bytes_per_pixel(), Some(3));
    assert_eq!(TextureFormat::R8.bytes_per_pixel(), Some(1));
    assert_eq!(TextureFormat::DXT1.bytes_per_pixel(), None);
}

#[test]
fn test_texture_format_compressed() {
    assert!(TextureFormat::DXT1.is_compressed());
    assert!(TextureFormat::DXT5.is_compressed());
    assert!(!TextureFormat::ARGB8888.is_compressed());
}
