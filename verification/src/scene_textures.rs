//! Loading the texture of a scene layer from a file's bytes: a TEX file
//! through the TEX reader, any other image through the `image` crate, both
//! as RGBA8 pixels.

use vstd::prelude::*;
use crate::scene_types::TextureInfo;
use crate::texture::{occurs_at, spec_parse, texv_tag, is_tex_data, TexError, Texture, TextureView};

verus! {

/// Why a layer's texture cannot be loaded.
#[derive(Debug, Clone, Copy, PartialEq, Eq, Structural)]
pub enum TextureLoadError {
    /// The TEX file is malformed.
    Tex(TexError),
    /// The TEX file has no mipmap level.
    NoMipmaps,
    /// The first mipmap level holds no pixels.
    EmptyMipmap,
    /// The bytes are no image format the `image` crate knows.
    UnknownImageFormat,
    /// The `image` crate could not decode the image.
    ImageDecode,
}

/// A loaded texture as plain values: width, height, RGBA8 pixels.
pub open spec fn info_view(i: TextureInfo) -> (u32, u32, Seq<u8>) {
    (i.width, i.height, i.data@)
}

/// The texture a parsed TEX file gives: its first mipmap level.
pub open spec fn spec_tex_texture(r: Result<TextureView, TexError>) -> Result<(u32, u32, Seq<u8>), TextureLoadError> {
    match r {
        Err(e) => Err(TextureLoadError::Tex(e)),
        Ok(t) => if t.mipmaps.len() == 0 {
            Err(TextureLoadError::NoMipmaps)
        } else if t.mipmaps[0].2.len() == 0 {
            Err(TextureLoadError::EmptyMipmap)
        } else {
            Ok(t.mipmaps[0])
        },
    }
}

/// The texture of a TEX file: its first mipmap level, not yet uploaded.
pub fn texture_from_tex(data: &[u8]) -> (r: Result<TextureInfo, TextureLoadError>)
    requires
        spec_parse(data@) is Some,
    ensures
        match spec_tex_texture(spec_parse(data@)->0) {
            Ok(v) => r matches Ok(i) && i.gl_handle == 0 && info_view(i) == v,
            Err(e) => r matches Err(f) && f == e,
        },
{
    let t = match Texture::parse(data) {
        Ok(t) => t,
        Err(e) => return Err(TextureLoadError::Tex(e)),
    };
    let mut mipmaps = t.mipmaps;
    if mipmaps.len() == 0 {
        return Err(TextureLoadError::NoMipmaps);
    }
    let first = mipmaps.swap_remove(0);
    if first.data.len() == 0 {
        return Err(TextureLoadError::EmptyMipmap);
    }
    Ok(TextureInfo { gl_handle: 0, width: first.width, height: first.height, data: first.data })
}

/// Name for what `image::guess_format` decides of some bytes: whether
/// their first bytes are the signature of an image format the crate knows.
pub uninterp spec fn image_format_recognized(data: Seq<u8>) -> bool;

/// Calls `image::guess_format`; whether it returned a format is named
/// `image_format_recognized`.
#[verifier::external_body]
fn recognizes_image_format(data: &[u8]) -> (b: bool)
    ensures
        b == image_format_recognized(data@),
{
    image::guess_format(data).is_ok()
}

/// Name for what `image::load_from_memory` followed by `to_rgba8` gives
/// of some bytes: the width, height and RGBA8 pixels of the decoded image,
/// or nothing when decoding fails.
pub uninterp spec fn image_rgba8(data: Seq<u8>) -> Option<(u32, u32, Seq<u8>)>;

/// Calls `image::load_from_memory` and converts the image to RGBA8
/// (`to_rgba8`, `dimensions`, `into_raw`). The result is named
/// `image_rgba8`. The crate keeps an image buffer at least four bytes per
/// pixel long; the crate's default decoding limits keep the image small
/// enough for the conversion to allocate it. The contract does not claim
/// that every decoder of the enabled formats reports malformed input as an
/// error rather than panicking: the sources at hand do not show it for all
/// of them, and no condition on the bytes that a caller could test would
/// rule it out.
#[verifier::external_body]
fn decode_image_rgba8(data: &[u8]) -> (r: Option<(u32, u32, Vec<u8>)>)
    ensures
        r matches Some(t) ==> image_rgba8(data@) == Some((t.0, t.1, t.2@)) && t.2@.len() >= t.0 * t.1 * 4,
        r is None ==> image_rgba8(data@) is None,
{
    match image::load_from_memory(data) {
        Ok(img) => {
            let rgba = img.to_rgba8();
            let (width, height) = rgba.dimensions();
            Some((width, height, rgba.into_raw()))
        },
        Err(_) => None,
    }
}

/// The texture an ordinary image file gives.
pub open spec fn spec_image_texture(data: Seq<u8>) -> Result<(u32, u32, Seq<u8>), TextureLoadError> {
    if !image_format_recognized(data) {
        Err(TextureLoadError::UnknownImageFormat)
    } else {
        match image_rgba8(data) {
            None => Err(TextureLoadError::ImageDecode),
            Some(v) => Ok(v),
        }
    }
}

/// The texture of an ordinary image file (PNG, JPEG, ...), not yet
/// uploaded.
pub fn texture_from_image(data: &[u8]) -> (r: Result<TextureInfo, TextureLoadError>)
    ensures
        match spec_image_texture(data@) {
            Ok(v) => r matches Ok(i) && i.gl_handle == 0 && info_view(i) == v,
            Err(e) => r matches Err(f) && f == e,
        },
{
    if !recognizes_image_format(data) {
        return Err(TextureLoadError::UnknownImageFormat);
    }
    match decode_image_rgba8(data) {
        None => Err(TextureLoadError::ImageDecode),
        Some((width, height, pixels)) => Ok(TextureInfo { gl_handle: 0, width, height, data: pixels }),
    }
}

/// Whether a layer file can be loaded: a TEX file must be one the TEX
/// reader is defined on (see `Texture::parse_is_defined`).
pub open spec fn loadable(data: Seq<u8>) -> bool {
    occurs_at(data, texv_tag(), 0) ==> spec_parse(data) is Some
}

/// The texture of a layer file, told apart by the TEX magic: `None` when
/// the file is a TEX file the reader is not defined on.
pub fn texture_from_file_data(data: &[u8]) -> (r: Option<Result<TextureInfo, TextureLoadError>>)
    ensures
        r is None <==> !loadable(data@),
        r matches Some(res) ==> match (if occurs_at(data@, texv_tag(), 0) {
            spec_tex_texture(spec_parse(data@)->0)
        } else {
            spec_image_texture(data@)
        }) {
            Ok(v) => res matches Ok(i) && i.gl_handle == 0 && info_view(i) == v,
            Err(e) => res matches Err(f) && f == e,
        },
{
    if is_tex_data(data) {
        if !Texture::parse_is_defined(data) {
            return None;
        }
        Some(texture_from_tex(data))
    } else {
        Some(texture_from_image(data))
    }
}

} // verus!
