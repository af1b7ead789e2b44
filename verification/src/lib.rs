//! Verified core of a Wayland video-wallpaper daemon: configuration rules,
//! Wallpaper Engine asset formats (PKG archives, TEX textures), memory
//! accounting and frame pacing decisions.

pub mod capability;
pub mod config;
pub mod conflicts;
pub mod core_types;
pub mod daemon;
pub mod frame_timing;
pub mod hdr;
pub mod library;
pub mod memory;
pub mod niri;
pub mod pattern;
pub mod pkg;
pub mod registry;
pub mod scene_textures;
pub mod scene_types;
pub mod shared_decode;
pub mod steam;
pub mod surface;
pub mod text;
pub mod texture;
pub mod vulkan;
pub mod we_project;
pub mod workshop;

use vstd::prelude::*;

verus! {

} // verus!
