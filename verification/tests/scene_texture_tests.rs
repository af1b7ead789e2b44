use wayvid::scene_textures::{texture_from_file_data, texture_from_image, texture_from_tex, TextureLoadError};
use wayvid::texture::TexError;

fn tex_one_level(w: u32, h: u32, payload: &[u8]) -> Vec<u8> {
    let mut d = Vec::new();
    d.extend_from_slice(b"TEXV0005\0");
    d.extend_from_slice(b"TEXI0001\0");
    for v in [0u32, 1, w, h, w, h] {
        d.extend_from_slice(&v.to_le_bytes());
    }
    d.extend_from_slice(b"TEXB0002\0");
    for v in [1u32, w, h, 0, payload.len() as u32, payload.len() as u32] {
        d.extend_from_slice(&v.to_le_bytes());
    }
    d.extend_from_slice(payload);
    d
}

fn png_bytes(w: u32, h: u32, pixels: Vec<u8>) -> Vec<u8> {
    let img = image::RgbaImage::from_raw(w, h, pixels).unwrap();
    let mut out = std::io::Cursor::new(Vec::new());
    img.write_to(&mut out, image::ImageFormat::Png).unwrap();
    out.into_inner()
}

#[test]
fn tex_files_give_their_first_level() {
    let data = tex_one_level(2, 1, &[10, 20, 30, 40, 50, 60, 70, 80]);
    let info = texture_from_tex(&data).unwrap();
    assert_eq!((info.gl_handle, info.width, info.height), (0, 2, 1));
    assert_eq!(info.data, vec![20, 30, 40, 10, 60, 70, 80, 50]);
    let info = texture_from_file_data(&data).unwrap().unwrap();
    assert_eq!(info.data, vec![20, 30, 40, 10, 60, 70, 80, 50]);
}

#[test]
fn tex_errors_are_reported() {
    let mut data = tex_one_level(2, 1, &[0; 8]);
    data[9] = b'X';
    assert_eq!(texture_from_tex(&data).unwrap_err(), TextureLoadError::Tex(TexError::InvalidSubHeader));
    let empty = tex_one_level(0, 0, &[]);
    assert_eq!(texture_from_tex(&empty).unwrap_err(), TextureLoadError::EmptyMipmap);
}

#[test]
fn images_are_decoded_to_rgba() {
    let pixels = vec![255, 0, 0, 255, 0, 255, 0, 128];
    let png = png_bytes(2, 1, pixels.clone());
    let info = texture_from_image(&png).unwrap();
    assert_eq!((info.gl_handle, info.width, info.height), (0, 2, 1));
    assert_eq!(info.data, pixels);
    let info = texture_from_file_data(&png).unwrap().unwrap();
    assert_eq!(info.data, pixels);
}

#[test]
fn unknown_or_broken_images() {
    assert_eq!(texture_from_image(b"not an image at all").unwrap_err(), TextureLoadError::UnknownImageFormat);
    let png = png_bytes(2, 1, vec![1; 8]);
    let broken = &png[..20];
    assert_eq!(texture_from_image(broken).unwrap_err(), TextureLoadError::ImageDecode);
}
