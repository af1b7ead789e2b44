use wayvid::texture::{
    calculate_data_size, convert_to_rgba, find_magic, read_u32, TexError, Texture, TextureFlags,
    TextureFormat,
};

fn u32le(v: u32) -> [u8; 4] {
    v.to_le_bytes()
}

fn header(format: u32, flags: u32, w: u32, h: u32) -> Vec<u8> {
    let mut d = Vec::new();
    d.extend_from_slice(b"TEXV0005\0");
    d.extend_from_slice(b"TEXI0001\0");
    for v in [format, flags, w, h, w, h] {
        d.extend_from_slice(&u32le(v));
    }
    d
}

/// A TEXB0002 body with one level.
fn tex_v2(format: u32, w: u32, h: u32, flag: u32, unc: u32, payload: &[u8]) -> Vec<u8> {
    let mut d = header(format, 1, w, h);
    d.extend_from_slice(b"TEXB0002\0");
    d.extend_from_slice(&u32le(1));
    d.extend_from_slice(&u32le(w));
    d.extend_from_slice(&u32le(h));
    d.extend_from_slice(&u32le(flag));
    d.extend_from_slice(&u32le(unc));
    d.extend_from_slice(&u32le(payload.len() as u32));
    d.extend_from_slice(payload);
    d
}

#[test]
fn argb_level_becomes_rgba() {
    let data = tex_v2(0, 2, 1, 0, 8, &[10, 20, 30, 40, 50, 60, 70, 80]);
    let tex = Texture::parse(&data).unwrap();
    assert_eq!(tex.format, TextureFormat::ARGB8888);
    assert!(tex.flags.no_interpolation && !tex.flags.clamp_uvs);
    assert_eq!((tex.width, tex.height), (2, 1));
    assert_eq!(tex.mipmaps.len(), 1);
    assert_eq!(tex.rgba_data().unwrap(), &[20, 30, 40, 10, 60, 70, 80, 50]);
}

#[test]
fn lz4_level_is_decompressed() {
    let raw: Vec<u8> = (0..64u32).map(|i| (i % 7) as u8).collect();
    let packed = lz4_flex::block::compress(&raw);
    let data = tex_v2(9, 8, 8, 1, 64, &packed);
    let tex = Texture::parse(&data).unwrap();
    let rgba = tex.rgba_data().unwrap();
    assert_eq!(rgba.len(), 256);
    for i in 0..64 {
        assert_eq!(&rgba[4 * i..4 * i + 4], &[raw[i], raw[i], raw[i], 255]);
    }
}

#[test]
fn undecodable_lz4_is_taken_raw() {
    let payload = [0xFFu8, 0xFF, 0xFF, 0xFF];
    let data = tex_v2(9, 2, 2, 1, 4, &payload);
    let tex = Texture::parse(&data).unwrap();
    let rgba = tex.rgba_data().unwrap();
    assert_eq!(rgba.len(), 16);
    assert_eq!(&rgba[0..4], &[0xFF, 0xFF, 0xFF, 255]);
}

#[test]
fn texb_v1_and_v4_bodies() {
    let mut d = header(1, 0, 1, 1);
    d.extend_from_slice(b"TEXB0001\0");
    d.extend_from_slice(&u32le(1));
    d.extend_from_slice(&u32le(1));
    d.extend_from_slice(&u32le(1));
    d.extend_from_slice(&[7, 8, 9]);
    let tex = Texture::parse(&d).unwrap();
    assert_eq!(tex.rgba_data().unwrap(), &[7, 8, 9, 255]);

    let mut d = header(9, 0, 1, 1);
    d.extend_from_slice(b"TEXB0004\0");
    for v in [1u32, 13, 0, 2] {
        d.extend_from_slice(&u32le(v));
    }
    for (w, px) in [(1u32, 5u8), (1, 6)] {
        d.extend_from_slice(&u32le(w));
        d.extend_from_slice(&u32le(1));
        d.extend_from_slice(&u32le(0));
        d.extend_from_slice(&u32le(1));
        d.extend_from_slice(&u32le(0xFFFF_FFFF));
        d.push(px);
    }
    let tex = Texture::parse(&d).unwrap();
    assert_eq!(tex.mipmaps.len(), 2);
    assert_eq!(tex.mipmaps[1].data, vec![6, 6, 6, 255]);
}

#[test]
fn texb_v3_skips_a_byte() {
    let mut d = header(9, 0, 1, 1);
    d.extend_from_slice(b"TEXB0003\0");
    d.extend_from_slice(&u32le(1));
    d.push(0xAB);
    d.extend_from_slice(&u32le(1));
    d.extend_from_slice(&u32le(1));
    d.extend_from_slice(&u32le(0));
    d.extend_from_slice(&u32le(1));
    d.extend_from_slice(&u32le(1));
    d.push(42);
    let tex = Texture::parse(&d).unwrap();
    assert_eq!(tex.rgba_data().unwrap(), &[42, 42, 42, 255]);
}

#[test]
fn errors_of_parsing() {
    assert_eq!(Texture::parse(&[0u8; 10]).err(), Some(TexError::TooSmall));
    let mut bad = header(0, 0, 1, 1);
    bad[0] = b'X';
    assert_eq!(Texture::parse(&bad).err(), Some(TexError::InvalidHeader));
    let mut bad = header(0, 0, 1, 1);
    bad[12] = b'X';
    assert_eq!(Texture::parse(&bad).err(), Some(TexError::InvalidSubHeader));
    let short = &header(0, 0, 1, 1)[..30];
    assert_eq!(Texture::parse(short).err(), Some(TexError::UnexpectedEnd));
    let mut nobody = header(0, 0, 1, 1);
    nobody.extend_from_slice(b"nothing here");
    assert_eq!(Texture::parse(&nobody).err(), Some(TexError::BodyNotFound));
    let mut unknown = header(0, 0, 1, 1);
    unknown.extend_from_slice(b"TEXB0009\0");
    assert_eq!(Texture::parse(&unknown).err(), Some(TexError::UnknownBodyVersion));
    let mut cut = header(0, 0, 1, 1);
    cut.extend_from_slice(b"TEXB0002\0");
    cut.extend_from_slice(&u32le(1));
    cut.extend_from_slice(&u32le(1));
    assert_eq!(Texture::parse(&cut).err(), Some(TexError::UnexpectedEnd));
}

#[test]
fn short_or_oversized_levels_end_the_list() {
    let data = tex_v2(0, 2, 1, 0, 8, &[1, 2, 3]);
    let tex = Texture::parse(&data).unwrap();
    assert!(tex.mipmaps.is_empty());
    assert!(tex.rgba_data().is_none());
    let data = tex_v2(0, 2, 1, 0, 2_000_000_000, &[1, 2, 3, 4, 5, 6, 7, 8]);
    assert!(Texture::parse(&data).unwrap().mipmaps.is_empty());
}

fn dxt1_reference(block: &[u8]) -> Vec<[u8; 4]> {
    let c0 = u16::from_le_bytes([block[0], block[1]]);
    let c1 = u16::from_le_bytes([block[2], block[3]]);
    let (r0, g0, b0) = (((c0 >> 11) & 0x1F) as u8, ((c0 >> 5) & 0x3F) as u8, (c0 & 0x1F) as u8);
    let (r1, g1, b1) = (((c1 >> 11) & 0x1F) as u8, ((c1 >> 5) & 0x3F) as u8, (c1 & 0x1F) as u8);
    let colors: [[u8; 4]; 4] = if c0 > c1 {
        [
            [r0 << 3 | r0 >> 2, g0 << 2 | g0 >> 4, b0 << 3 | b0 >> 2, 255],
            [r1 << 3 | r1 >> 2, g1 << 2 | g1 >> 4, b1 << 3 | b1 >> 2, 255],
            [
                ((2 * (r0 as u16) + r1 as u16) / 3) as u8 * 8,
                ((2 * (g0 as u16) + g1 as u16) / 3) as u8 * 4,
                ((2 * (b0 as u16) + b1 as u16) / 3) as u8 * 8,
                255,
            ],
            [
                ((r0 as u16 + 2 * r1 as u16) / 3) as u8 * 8,
                ((g0 as u16 + 2 * g1 as u16) / 3) as u8 * 4,
                ((b0 as u16 + 2 * b1 as u16) / 3) as u8 * 8,
                255,
            ],
        ]
    } else {
        [
            [r0 << 3 | r0 >> 2, g0 << 2 | g0 >> 4, b0 << 3 | b0 >> 2, 255],
            [r1 << 3 | r1 >> 2, g1 << 2 | g1 >> 4, b1 << 3 | b1 >> 2, 255],
            [
                (((r0 as u16 + r1 as u16) / 2) as u8) << 3,
                (((g0 as u16 + g1 as u16) / 2) as u8) << 2,
                (((b0 as u16 + b1 as u16) / 2) as u8) << 3,
                255,
            ],
            [0, 0, 0, 0],
        ]
    };
    let idx = u32::from_le_bytes([block[4], block[5], block[6], block[7]]);
    (0..16).map(|n| colors[((idx >> (2 * n)) & 3) as usize]).collect()
}

#[test]
fn dxt1_blocks_match_the_reference_decoder() {
    let blocks: [[u8; 8]; 4] = [
        [0x00, 0xF8, 0x1F, 0x00, 0xE4, 0xE4, 0xE4, 0xE4],
        [0x1F, 0x00, 0x00, 0xF8, 0x1B, 0x6C, 0xB1, 0xC6],
        [0x34, 0x12, 0x78, 0x56, 0xFF, 0x00, 0xAA, 0x55],
        [0xEF, 0x7B, 0xEF, 0x7B, 0x12, 0x34, 0x56, 0x78],
    ];
    for block in blocks.iter() {
        let rgba = convert_to_rgba(TextureFormat::DXT1, 4, 4, block).unwrap();
        let expected = dxt1_reference(block);
        for n in 0..16 {
            assert_eq!(&rgba[4 * n..4 * n + 4], &expected[n], "pixel {}", n);
        }
    }
}

#[test]
fn dxt_images_cover_partial_blocks() {
    let block = [0x00u8, 0xF8, 0x1F, 0x00, 0x00, 0x00, 0x00, 0x00];
    let mut data = Vec::new();
    for _ in 0..2 {
        data.extend_from_slice(&block);
    }
    let rgba = convert_to_rgba(TextureFormat::DXT1, 5, 3, &data).unwrap();
    assert_eq!(rgba.len(), 5 * 3 * 4);
    for p in rgba.chunks(4) {
        assert_eq!(p, &[255, 0, 0, 255]);
    }
    let rgba = convert_to_rgba(TextureFormat::DXT1, 8, 4, &block).unwrap();
    assert_eq!(&rgba[0..4], &[255, 0, 0, 255]);
    assert_eq!(&rgba[16..20], &[0, 0, 0, 0]);
}

#[test]
fn dxt5_alpha_palette() {
    let mut block = [0u8; 16];
    block[0] = 200;
    block[1] = 100;
    // alpha index 2 for pixel 0, 7 for pixel 1
    let bits: u64 = 2 | (7 << 3);
    block[2..8].copy_from_slice(&bits.to_le_bytes()[0..6]);
    block[8..10].copy_from_slice(&0xFFFFu16.to_le_bytes());
    let rgba = convert_to_rgba(TextureFormat::DXT5, 4, 4, &block).unwrap();
    assert_eq!(rgba[3], ((6 * 200 + 100) / 7) as u8);
    assert_eq!(rgba[7], ((200 + 6 * 100) / 7) as u8);
    assert_eq!(rgba[11], 200);
    assert_eq!(&rgba[0..3], &[255, 255, 255]);
}

#[test]
fn dxt3_explicit_alpha() {
    let mut block = [0u8; 16];
    block[0] = 0x3C;
    block[8..10].copy_from_slice(&0x07E0u16.to_le_bytes());
    let rgba = convert_to_rgba(TextureFormat::DXT3, 4, 4, &block).unwrap();
    assert_eq!(&rgba[0..4], &[0, 255, 0, 0xCC]);
    assert_eq!(&rgba[4..8], &[0, 255, 0, 0x33]);
}

#[test]
fn plain_formats() {
    assert_eq!(convert_to_rgba(TextureFormat::RGB888, 1, 1, &[1, 2, 3]).unwrap(), vec![1, 2, 3, 255]);
    assert_eq!(convert_to_rgba(TextureFormat::RG88, 1, 1, &[1, 2]).unwrap(), vec![1, 2, 0, 255]);
    let px = 0b10101_110011_01101u16.to_le_bytes();
    assert_eq!(
        convert_to_rgba(TextureFormat::RGB565, 1, 1, &px).unwrap(),
        vec![0b10101 << 3, 0b110011 << 2, 0b01101 << 3, 255]
    );
    assert_eq!(convert_to_rgba(TextureFormat::BC7, 1, 1, &[]).unwrap(), vec![255, 0, 255, 255]);
    assert_eq!(convert_to_rgba(TextureFormat::R16f, 1, 1, &[]).unwrap(), vec![128, 128, 128, 255]);
    assert_eq!(convert_to_rgba(TextureFormat::ARGB8888, 2, 1, &[1, 2, 3, 4]).unwrap(), vec![2, 3, 4, 1, 0, 0, 0, 0]);
}

#[test]
fn sizes_and_reading() {
    assert_eq!(calculate_data_size(TextureFormat::ARGB8888, 4, 2), 32);
    assert_eq!(calculate_data_size(TextureFormat::DXT1, 5, 5), 32);
    assert_eq!(calculate_data_size(TextureFormat::DXT5, 4, 4), 16);
    assert_eq!(calculate_data_size(TextureFormat::Unknown, 2, 2), 16);
    let mut pos = 1usize;
    assert_eq!(read_u32(&[9, 1, 0, 0, 0], &mut pos), Ok(1));
    assert_eq!(pos, 5);
    assert_eq!(read_u32(&[9, 1, 0, 0, 0], &mut pos), Err(TexError::UnexpectedEnd));
    assert_eq!(pos, 5);
    assert_eq!(find_magic(b"xxTEXBTEXB", b"TEXB"), Some(2));
    assert_eq!(find_magic(b"TEX", b"TEXB"), None);
    assert_eq!(TextureFormat::from_u32(7), TextureFormat::DXT1);
    assert_eq!(TextureFormat::from_u32(3), TextureFormat::Unknown);
    assert_eq!(TextureFormat::BC7.block_size(), Some((4, 4)));
    assert_eq!(TextureFormat::R8.block_size(), None);
    assert_eq!(TextureFormat::DXT3.bytes_per_block(), Some(16));
    let f = TextureFlags::from_u32(0b1010);
    assert!(!f.no_interpolation && f.clamp_uvs && !f.is_gif && f.clamp_uvs_border);
}

#[test]
fn lz4_inputs_with_overflowing_lengths_are_refused() {
    assert!(wayvid::texture::lz4_input_ok_exec(&[0xF0, 1, 2, 3], 64));
    assert!(wayvid::texture::lz4_input_ok_exec(&vec![0xFF; 1000], 64));
    // A literal length extension of 17 million 0xFF bytes passes u32::MAX.
    let mut long = vec![0xFF; 17_000_000];
    assert!(!wayvid::texture::lz4_input_ok_exec(&long, 64));
    // Broken in the middle, the length is only too long for the input.
    long[8_000_000] = 0;
    assert!(wayvid::texture::lz4_input_ok_exec(&long, 64));
    assert!(!wayvid::texture::lz4_input_ok_exec(&[1, 2, 3], usize::MAX));
}

#[test]
fn long_runs_of_0xff_in_literals_are_decoded() {
    let len = 16_000_000usize;
    let mut block = vec![0xF0u8];
    let mut n = len - 15;
    while n >= 255 {
        block.push(255);
        n -= 255;
    }
    block.push(n as u8);
    block.extend(std::iter::repeat(0xFFu8).take(len));
    assert!(wayvid::texture::lz4_input_ok_exec(&block, len));
    let out = wayvid::texture::decompress_lz4(&block, len).unwrap();
    assert_eq!(out.len(), len);
    assert!(out.iter().all(|&b| b == 0xFF));
}
