use wayvid::core_types::{HwdecMode, RenderBackend};
use wayvid::hdr::{
    default_compute_peak, default_tone_mapping_mode, parse_colorspace, parse_transfer_function,
    ColorSpace, HdrMetadata, ToneMappingAlgorithm, TransferFunction,
};
use wayvid::niri::{focused_workspace, Workspace};
use wayvid::pkg::{PkgError, PkgReader, SceneContainer};
use wayvid::steam::{steam_root_candidates, SteamLibrary};
use wayvid::vulkan::{
    choose_extent, choose_image_count, choose_present_mode, choose_sharing_mode,
    choose_surface_format, find_queue_families, fragment_shader_spirv, instance_api_version,
    instance_extensions_and_layers, missing_required_extension, rate_device, wayland_extensions,
    select_physical_device, spirv_to_bytes, version_string, vertex_shader_spirv,
    DeviceCandidate, FrameCursor, QueueFamilyIndices, MAX_FRAMES_IN_FLIGHT,
};

fn pkg_bytes(entries: &[(&str, &[u8])]) -> Vec<u8> {
    let mut dir = Vec::new();
    let mut body = Vec::new();
    dir.extend_from_slice(&0u32.to_le_bytes());
    dir.extend_from_slice(b"PKGV0023");
    dir.extend_from_slice(&(entries.len() as u32).to_le_bytes());
    for (name, data) in entries {
        let mut n = name.as_bytes().to_vec();
        n.push(0);
        dir.extend_from_slice(&(n.len() as u32).to_le_bytes());
        dir.extend_from_slice(&n);
        dir.extend_from_slice(&(body.len() as u32).to_le_bytes());
        dir.extend_from_slice(&(data.len() as u32).to_le_bytes());
        body.extend_from_slice(data);
    }
    dir.extend_from_slice(&body);
    dir
}

#[test]
fn package_directory_and_reading() {
    let data = pkg_bytes(&[("scene.json", b"{\"objects\":[]}"), ("a.tex", b"TEXV")]);
    let pkg = PkgReader::from_bytes("scene.pkg".to_string(), data).unwrap();
    assert_eq!(pkg.entry_count(), 2);
    assert_eq!(pkg.list_files(), vec!["scene.json", "a.tex"]);
    assert!(pkg.contains("scene.json"));
    assert!(!pkg.contains("missing"));
    assert_eq!(pkg.read_file("a.tex").unwrap(), b"TEXV".to_vec());
    assert_eq!(pkg.read_file_string("scene.json").unwrap(), "{\"objects\":[]}");
    assert_eq!(pkg.read_file("missing"), Err(PkgError::NotFound));
    assert_eq!(pkg.get_entry("a.tex").unwrap().size, 4);
}

#[test]
fn duplicate_names_keep_the_last_entry() {
    let data = pkg_bytes(&[("x", b"first"), ("x", b"second!")]);
    let pkg = PkgReader::from_bytes("p".to_string(), data).unwrap();
    assert_eq!(pkg.entry_count(), 1);
    assert_eq!(pkg.read_file("x").unwrap(), b"second!".to_vec());
}

#[test]
fn package_errors() {
    assert_eq!(PkgReader::from_bytes("p".into(), vec![0; 8]).err(), Some(PkgError::UnexpectedEnd));
    let mut bad = pkg_bytes(&[]);
    bad[5] = b'X';
    assert_eq!(PkgReader::from_bytes("p".into(), bad).err(), Some(PkgError::InvalidMagic));
    let mut cut = pkg_bytes(&[("scene.json", b"x")]);
    cut.truncate(20);
    assert_eq!(PkgReader::from_bytes("p".into(), cut).err(), Some(PkgError::UnexpectedEnd));
    let mut short_body = pkg_bytes(&[("a", b"abcdef")]);
    short_body.truncate(short_body.len() - 2);
    let pkg = PkgReader::from_bytes("p".into(), short_body).unwrap();
    assert_eq!(pkg.read_file("a"), Err(PkgError::UnexpectedEnd));
    let pkg = PkgReader::from_bytes("p".into(), pkg_bytes(&[("bin", &[0xFF, 0xFE])])).unwrap();
    assert_eq!(pkg.read_file_string("bin"), Err(PkgError::InvalidUtf8));
}

#[test]
fn scene_container_prefers_the_package() {
    let pkg = PkgReader::from_bytes("s.pkg".into(), pkg_bytes(&[("scene.json", b"pkg")])).unwrap();
    let c = SceneContainer::new("/scenes/1", Some(pkg));
    assert!(c.uses_pkg());
    assert_eq!(c.base_path(), "/scenes/1");
    assert_eq!(c.read_file_string("scene.json", Some(b"disk".to_vec())).unwrap(), "pkg");
    assert_eq!(c.read_file("other.png", Some(vec![1, 2])).unwrap(), vec![1, 2]);
    assert_eq!(c.read_file("other.png", None), Err(PkgError::NotFound));
    assert!(c.file_exists("scene.json", false));
    assert!(!c.file_exists("other.png", false));
    assert!(c.file_exists("other.png", true));
    assert_eq!(c.list_files(), vec!["scene.json".to_string()]);
    assert_eq!(c.disk_path("x.png"), "/scenes/1/x.png");
    let plain = SceneContainer::new("/scenes/2", None);
    assert!(!plain.uses_pkg());
    assert!(plain.list_files().is_empty());
    assert_eq!(SceneContainer::pkg_path("/scenes/2"), "/scenes/2/scene.pkg");
}

#[test]
fn hdr_classification() {
    assert_eq!(parse_colorspace("BT.2020-NCL"), ColorSpace::Hdr10);
    assert_eq!(parse_colorspace("sRGB"), ColorSpace::Sdr);
    assert_eq!(parse_colorspace("xyz"), ColorSpace::Unknown);
    assert_eq!(parse_transfer_function("PQ"), TransferFunction::Pq);
    assert_eq!(parse_transfer_function("arib-std-b67"), TransferFunction::Hlg);
    assert_eq!(parse_transfer_function("bt.1886"), TransferFunction::Srgb);
    assert_eq!(parse_transfer_function("gamma2.2"), TransferFunction::Unknown);
    let m = |c, t| HdrMetadata {
        color_space: c,
        transfer_function: t,
        primaries: "bt.2020".to_string(),
        peak_luminance_bits: None,
        avg_luminance_bits: None,
        min_luminance_bits: None,
    };
    assert_eq!(m(ColorSpace::Sdr, TransferFunction::Srgb).format_description(), "SDR");
    assert_eq!(m(ColorSpace::Hdr10, TransferFunction::Pq).format_description(), "HDR10");
    assert_eq!(m(ColorSpace::Hlg, TransferFunction::Hlg).format_description(), "HLG");
    assert_eq!(m(ColorSpace::DolbyVision, TransferFunction::Srgb).format_description(), "Dolby Vision");
    assert_eq!(m(ColorSpace::Sdr, TransferFunction::Pq).format_description(), "HDR (Unknown)");
    assert!(m(ColorSpace::Sdr, TransferFunction::Hlg).is_hdr());
    assert_eq!(ToneMappingAlgorithm::Bt2390.as_mpv_str(), "bt.2390");
    assert_eq!(ToneMappingAlgorithm::default().as_mpv_str(), "hable");
    assert!(default_compute_peak());
    assert_eq!(default_tone_mapping_mode(), "hybrid");
}

#[test]
fn core_choices() {
    assert_eq!(HwdecMode::from(true), HwdecMode::Auto);
    assert_eq!(HwdecMode::from(false), HwdecMode::No);
    assert!(RenderBackend::default().wants_vulkan() && RenderBackend::default().wants_opengl());
    assert!(!RenderBackend::OpenGL.wants_vulkan());
    assert!(!RenderBackend::Vulkan.wants_opengl());
}

#[test]
fn steam_candidates() {
    let c = steam_root_candidates(Some("/home/u"));
    assert_eq!(c, vec!["/home/u/.steam/steam", "/home/u/.local/share/Steam", "/usr/share/steam"]);
    assert_eq!(steam_root_candidates(None), vec!["/usr/share/steam"]);
    let found = vec![("/a".to_string(), false), ("/b".to_string(), true), ("/c".to_string(), true)];
    assert_eq!(SteamLibrary::find_steam_root(&found), Ok("/b".to_string()));
    assert!(SteamLibrary::find_steam_root(&vec![("/a".to_string(), false)]).is_err());
    let lib = SteamLibrary::discover("/r".to_string(), vec!["/m".to_string()]);
    assert_eq!(lib.libraries, vec!["/r".to_string(), "/m".to_string()]);
    assert_eq!(SteamLibrary::workshop_dir("/r", 431960), "/r/steamapps/workshop/content/431960");
    assert_eq!(SteamLibrary::library_folders_path("/r"), "/r/steamapps/libraryfolders.vdf");
    let content = "\"path\"\t\"/x\"\r\n  \"path\" \"/y\"\n\"label\" \"z\"\n\"path\"";
    assert_eq!(SteamLibrary::parse_vdf_paths(content), vec!["/x".to_string(), "/y".to_string()]);
    assert_eq!(SteamLibrary::extract_vdf_value("\"a\" \"b"), Some("b".to_string()));
    assert_eq!(SteamLibrary::extract_vdf_value("\"a\""), None);
}

#[test]
fn vulkan_choices() {
    let v = vertex_shader_spirv();
    assert_eq!(v[0], 0x07230203);
    assert_eq!(fragment_shader_spirv()[0], 0x07230203);
    let b = spirv_to_bytes(&v);
    assert_eq!(b.len(), v.len() * 4);
    let expected: Vec<u8> = v.iter().flat_map(|w| w.to_le_bytes()).collect();
    assert_eq!(b, expected);
    let q = find_queue_families(&vec![0x4, 0x3, 0x1]);
    assert_eq!(q, QueueFamilyIndices { graphics: Some(1), present: Some(1) });
    assert!(q.is_complete());
    assert!(!find_queue_families(&vec![0x4]).is_complete());
    assert_eq!(rate_device(2, true, 16384), 1026);
    assert_eq!(rate_device(1, false, 8192), 108);
    let cand = |ext, ty, dim| DeviceCandidate {
        has_required_extensions: ext,
        queue_families: QueueFamilyIndices { graphics: Some(0), present: Some(0) },
        device_type: ty,
        geometry_shader: false,
        max_image_dimension_2d: dim,
    };
    assert_eq!(select_physical_device(&vec![cand(true, 1, 8192), cand(false, 2, 16384), cand(true, 2, 4096)]), Some(2));
    assert_eq!(select_physical_device(&vec![cand(true, 0, 999)]), None);
    assert_eq!(select_physical_device(&vec![cand(true, 1, 0), cand(true, 1, 0)]), Some(0));
    assert_eq!(choose_surface_format(&vec![(44, 0), (50, 0)]), Some((50, 0)));
    assert_eq!(choose_surface_format(&vec![(44, 0), (50, 1)]), Some((44, 0)));
    assert_eq!(choose_surface_format(&vec![]), None);
    assert_eq!(choose_present_mode(&vec![2, 1]), 1);
    assert_eq!(choose_present_mode(&vec![0, 3]), 2);
    assert_eq!(choose_extent((800, 600), (1, 1), (4096, 4096), 1920, 1080), (800, 600));
    assert_eq!(choose_extent((u32::MAX, u32::MAX), (1, 1), (1000, 1000), 1920, 0), (1000, 1));
    assert_eq!(choose_image_count(2, 0), 3);
    assert_eq!(choose_image_count(2, 2), 2);
    assert_eq!(choose_sharing_mode(&QueueFamilyIndices { graphics: Some(0), present: Some(1) }), 1);
    assert_eq!(choose_sharing_mode(&q), 0);
    assert_eq!(version_string((1 << 22) | (3 << 12) | 275), "1.3.275");
}

#[test]
fn focused_workspace_is_the_first_focused() {
    let ws = |id, f| Workspace { id, name: None, is_focused: f, is_active: true };
    assert_eq!(focused_workspace(&vec![ws(1, false), ws(2, true), ws(3, true)]), Some(2));
    assert_eq!(focused_workspace(&vec![ws(1, false)]), None);
}

#[test]
fn vulkan_instance_setup() {
    assert_eq!(instance_api_version(None), 4194304);
    assert_eq!(instance_api_version(Some(4206592)), 4206592);
    let all = vec![
        "VK_KHR_wayland_surface".to_string(),
        "VK_EXT_debug_utils".to_string(),
        "VK_KHR_surface".to_string(),
    ];
    assert_eq!(wayland_extensions(&all), (true, true));
    assert_eq!(missing_required_extension(&all), None);
    let no_wayland = vec!["VK_KHR_surface".to_string(), "VK_KHR_xcb_surface".to_string()];
    assert_eq!(wayland_extensions(&no_wayland), (true, false));
    assert_eq!(missing_required_extension(&no_wayland), Some("VK_KHR_wayland_surface".to_string()));
    assert_eq!(missing_required_extension(&Vec::new()), Some("VK_KHR_surface".to_string()));
    let (exts, layers) = instance_extensions_and_layers(false);
    assert_eq!(exts, vec!["VK_KHR_surface", "VK_KHR_wayland_surface"]);
    assert!(layers.is_empty());
    let (exts, layers) = instance_extensions_and_layers(true);
    assert_eq!(exts, vec!["VK_KHR_surface", "VK_KHR_wayland_surface", "VK_EXT_debug_utils"]);
    assert_eq!(layers, vec!["VK_LAYER_KHRONOS_validation"]);
}

#[test]
fn frames_in_flight_cycle() {
    let mut c = FrameCursor::new();
    let mut seen = Vec::new();
    for _ in 0..5 {
        seen.push(c.current_frame());
        c.advance_frame();
    }
    assert_eq!(seen, vec![0, 1, 0, 1, 0]);
    assert_eq!(MAX_FRAMES_IN_FLIGHT, 2);
}

#[test]
fn hdr_names_ignore_ascii_case() {
    assert_eq!(parse_colorspace("BT.2020-NCL"), ColorSpace::Hdr10);
    assert_eq!(parse_colorspace("Bt.709"), ColorSpace::Sdr);
    assert_eq!(parse_transfer_function("SMPTE2084"), TransferFunction::Pq);
    assert_eq!(parse_transfer_function("Arib-Std-B67"), TransferFunction::Hlg);
}

#[test]
fn whitespace_agrees_with_std_on_every_char() {
    for v in 0..=0x10FFFFu32 {
        if let Some(c) = char::from_u32(v) {
            assert_eq!(wayvid::text::is_whitespace(c), c.is_whitespace(), "{:#x}", v);
        }
    }
}

#[test]
fn fragment_shader_samples_the_texture() {
    let words = fragment_shader_spirv();
    assert_eq!(words[0], 0x07230203);
    let bound = words[3];
    let mut k = 5;
    let mut opcodes = Vec::new();
    while k < words.len() {
        let count = (words[k] >> 16) as usize;
        assert!(count > 0);
        opcodes.push(words[k] & 0xFFFF);
        k += count;
    }
    assert_eq!(k, words.len());
    assert!(bound > 1);
    // OpEntryPoint Fragment, OpImageSampleImplicitLod, OpFMul, OpStore.
    assert!(opcodes.contains(&15));
    assert!(opcodes.contains(&87));
    assert!(opcodes.contains(&133));
    assert!(opcodes.contains(&62));
    let entry = words.iter().position(|&w| w & 0xFFFF == 15 && (w >> 16) == 7).unwrap();
    assert_eq!(words[entry + 1], 4);
}
