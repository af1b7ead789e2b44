//! Wallpaper Engine `.tex` textures.
//!
//! A `.tex` file is made of a `TEXV0005` container header, a `TEXI0001`
//! information block (format, flags, texture and image sizes) and a `TEXB`
//! body (`TEXB0001` to `TEXB0004`) that holds the mipmap levels, each
//! optionally LZ4-compressed. Every level is converted to RGBA8.

use vstd::prelude::*;

verus! {

// ---------------------------------------------------------------------
// Pixel formats
// ---------------------------------------------------------------------

/// Pixel format codes used by Wallpaper Engine.
#[derive(Debug, Clone, Copy, PartialEq, Eq, Structural)]
pub enum TextureFormat {
    ARGB8888,
    RGB888,
    RGB565,
    DXT5,
    DXT3,
    DXT1,
    RG88,
    R8,
    RG1616f,
    R16f,
    BC7,
    RGBa1010102,
    RGBA16161616f,
    RGB161616f,
    Unknown,
}

/// The format that a numeric code denotes.
pub open spec fn format_of_code(v: u32) -> TextureFormat {
    if v == 0 {
        TextureFormat::ARGB8888
    } else if v == 1 {
        TextureFormat::RGB888
    } else if v == 2 {
        TextureFormat::RGB565
    } else if v == 4 {
        TextureFormat::DXT5
    } else if v == 6 {
        TextureFormat::DXT3
    } else if v == 7 {
        TextureFormat::DXT1
    } else if v == 8 {
        TextureFormat::RG88
    } else if v == 9 {
        TextureFormat::R8
    } else if v == 10 {
        TextureFormat::RG1616f
    } else if v == 11 {
        TextureFormat::R16f
    } else if v == 12 {
        TextureFormat::BC7
    } else if v == 13 {
        TextureFormat::RGBa1010102
    } else if v == 14 {
        TextureFormat::RGBA16161616f
    } else if v == 15 {
        TextureFormat::RGB161616f
    } else {
        TextureFormat::Unknown
    }
}

/// Bytes per pixel of the uncompressed formats.
pub open spec fn spec_bytes_per_pixel(f: TextureFormat) -> Option<u32> {
    match f {
        TextureFormat::ARGB8888 => Some(4u32),
        TextureFormat::RGB888 => Some(3u32),
        TextureFormat::RGB565 => Some(2u32),
        TextureFormat::RG88 => Some(2u32),
        TextureFormat::R8 => Some(1u32),
        TextureFormat::RG1616f => Some(4u32),
        TextureFormat::R16f => Some(2u32),
        TextureFormat::RGBa1010102 => Some(4u32),
        TextureFormat::RGBA16161616f => Some(8u32),
        TextureFormat::RGB161616f => Some(6u32),
        _ => None,
    }
}

/// Whether a format is block compressed (DXT/BC, 4x4 blocks).
pub open spec fn spec_is_compressed(f: TextureFormat) -> bool {
    f == TextureFormat::DXT1 || f == TextureFormat::DXT3 || f == TextureFormat::DXT5
        || f == TextureFormat::BC7
}

/// Bytes per 4x4 block of the block-compressed formats.
pub open spec fn spec_bytes_per_block(f: TextureFormat) -> Option<u32> {
    match f {
        TextureFormat::DXT1 => Some(8u32),
        TextureFormat::DXT3 => Some(16u32),
        TextureFormat::DXT5 => Some(16u32),
        TextureFormat::BC7 => Some(16u32),
        _ => None,
    }
}

impl TextureFormat {
    /// The format with the given numeric code; codes without a format give
    /// `Unknown`.
    pub fn from_u32(v: u32) -> (f: TextureFormat)
        ensures
            f == format_of_code(v),
    {
        match v {
            0 => TextureFormat::ARGB8888,
            1 => TextureFormat::RGB888,
            2 => TextureFormat::RGB565,
            4 => TextureFormat::DXT5,
            6 => TextureFormat::DXT3,
            7 => TextureFormat::DXT1,
            8 => TextureFormat::RG88,
            9 => TextureFormat::R8,
            10 => TextureFormat::RG1616f,
            11 => TextureFormat::R16f,
            12 => TextureFormat::BC7,
            13 => TextureFormat::RGBa1010102,
            14 => TextureFormat::RGBA16161616f,
            15 => TextureFormat::RGB161616f,
            _ => TextureFormat::Unknown,
        }
    }

    /// Bytes per pixel for uncompressed formats, `None` for the others.
    pub fn bytes_per_pixel(&self) -> (r: Option<u32>)
        ensures
            r == spec_bytes_per_pixel(*self),
    {
        match self {
            TextureFormat::ARGB8888 => Some(4),
            TextureFormat::RGB888 => Some(3),
            TextureFormat::RGB565 => Some(2),
            TextureFormat::RG88 => Some(2),
            TextureFormat::R8 => Some(1),
            TextureFormat::RG1616f => Some(4),
            TextureFormat::R16f => Some(2),
            TextureFormat::RGBa1010102 => Some(4),
            TextureFormat::RGBA16161616f => Some(8),
            TextureFormat::RGB161616f => Some(6),
            _ => None,
        }
    }

    /// Whether the format is block compressed (DXT/BC).
    pub fn is_compressed(&self) -> (b: bool)
        ensures
            b == spec_is_compressed(*self),
    {
        match self {
            TextureFormat::DXT1 => true,
            TextureFormat::DXT3 => true,
            TextureFormat::DXT5 => true,
            TextureFormat::BC7 => true,
            _ => false,
        }
    }

    /// Block size of the compressed formats, always 4x4.
    pub fn block_size(&self) -> (r: Option<(u32, u32)>)
        ensures
            r == (if spec_is_compressed(*self) {
                Some((4u32, 4u32))
            } else {
                None
            }),
    {
        if self.is_compressed() {
            Some((4, 4))
        } else {
            None
        }
    }

    /// Bytes per block of the compressed formats, `None` for the others.
    pub fn bytes_per_block(&self) -> (r: Option<u32>)
        ensures
            r == spec_bytes_per_block(*self),
    {
        match self {
            TextureFormat::DXT1 => Some(8),
            TextureFormat::DXT3 => Some(16),
            TextureFormat::DXT5 => Some(16),
            TextureFormat::BC7 => Some(16),
            _ => None,
        }
    }
}

/// Texture flags decoded from the flag word.
#[derive(Debug, Clone, Copy, PartialEq, Eq, Structural)]
pub struct TextureFlags {
    pub no_interpolation: bool,
    pub clamp_uvs: bool,
    pub is_gif: bool,
    pub clamp_uvs_border: bool,
}

/// The flags that a flag word holds: bits 0 to 3 in field order.
pub open spec fn flags_of_word(v: u32) -> TextureFlags {
    TextureFlags {
        no_interpolation: v & 1 != 0,
        clamp_uvs: v & 2 != 0,
        is_gif: v & 4 != 0,
        clamp_uvs_border: v & 8 != 0,
    }
}

impl TextureFlags {
    /// Flags from the flag word: bits 0 to 3 in field order.
    pub fn from_u32(v: u32) -> (f: TextureFlags)
        ensures
            f == flags_of_word(v),
    {
        TextureFlags {
            no_interpolation: (v & 1) != 0,
            clamp_uvs: (v & 2) != 0,
            is_gif: (v & 4) != 0,
            clamp_uvs_border: (v & 8) != 0,
        }
    }
}

impl Default for TextureFlags {
    fn default() -> (f: Self)
        ensures
            !f.no_interpolation && !f.clamp_uvs && !f.is_gif && !f.clamp_uvs_border,
    {
        TextureFlags { no_interpolation: false, clamp_uvs: false, is_gif: false, clamp_uvs_border: false }
    }
}

/// Version of the `TEXB` body.
#[derive(Debug, Clone, Copy, PartialEq, Eq, Structural)]
pub enum ContainerVersion {
    TEXB0001,
    TEXB0002,
    TEXB0003,
    TEXB0004,
}

// ---------------------------------------------------------------------
// Byte-level reading
// ---------------------------------------------------------------------

/// Errors of `.tex` parsing.
#[derive(Debug, Clone, Copy, PartialEq, Eq, Structural)]
pub enum TexError {
    /// Fewer than 18 bytes.
    TooSmall,
    /// The container header is not `TEXV0005`.
    InvalidHeader,
    /// The information header is not `TEXI0001`.
    InvalidSubHeader,
    /// A 32-bit field runs past the end of the data.
    UnexpectedEnd,
    /// No `TEXB` marker after the information block.
    BodyNotFound,
    /// The body marker is not one of `TEXB0001` to `TEXB0004`.
    UnknownBodyVersion,
}

/// The little-endian 32-bit value at `p`.
pub open spec fn le_u32_at(d: Seq<u8>, p: int) -> u32 {
    (d[p] as int + 256 * (d[p + 1] as int) + 65536 * (d[p + 2] as int) + 16777216 * (
    d[p + 3] as int)) as u32
}

/// Read the little-endian `u32` at `*pos` and advance `*pos` by 4.
pub fn read_u32(data: &[u8], pos: &mut usize) -> (r: Result<u32, TexError>)
    ensures
        old(pos) + 4 > data@.len() ==> r == Err::<u32, TexError>(TexError::UnexpectedEnd)
            && *final(pos) == *old(pos),
        old(pos) + 4 <= data@.len() ==> r == Ok::<u32, TexError>(le_u32_at(data@, *old(pos) as int))
            && *final(pos) == *old(pos) + 4,
{
    if *pos > data.len() || data.len() - *pos < 4 {
        return Err(TexError::UnexpectedEnd);
    }
    let p = *pos;
    let v: u32 = data[p] as u32 + 256 * (data[p + 1] as u32) + 65536 * (data[p + 2] as u32)
        + 16777216 * (data[p + 3] as u32);
    *pos = p + 4;
    Ok(v)
}

/// `magic` occurs in `d` at position `i`.
pub open spec fn occurs_at(d: Seq<u8>, magic: Seq<u8>, i: int) -> bool {
    0 <= i && i + magic.len() <= d.len() && d.subrange(i, i + magic.len() as int) == magic
}

/// Position of the first occurrence of `magic` in `data`.
pub fn find_magic(data: &[u8], magic: &[u8]) -> (r: Option<usize>)
    requires
        magic@.len() > 0,
    ensures
        r matches Some(i) ==> occurs_at(data@, magic@, i as int) && forall|j: int|
            0 <= j < i ==> !#[trigger] occurs_at(data@, magic@, j),
        r is None ==> forall|j: int| !#[trigger] occurs_at(data@, magic@, j),
{
    let m = magic.len();
    if data.len() < m {
        return None;
    }
    let n = data.len();
    let last = n - m;
    let mut i: usize = 0;
    while i <= last
        invariant
            n == data@.len(),
            m == magic@.len(),
            last + m == data@.len(),
            0 < m,
            forall|j: int| 0 <= j < i ==> !#[trigger] occurs_at(data@, magic@, j),
        decreases last + 1 - i,
    {
        if bytes_at(data, i, magic) {
            return Some(i);
        }
        i = i + 1;
    }
    None
}

/// Whether `tag` occurs in `data` at position `pos`.
pub fn bytes_at(data: &[u8], pos: usize, tag: &[u8]) -> (b: bool)
    ensures
        b == occurs_at(data@, tag@, pos as int),
{
    if pos > data.len() || data.len() - pos < tag.len() {
        return false;
    }
    let n = data.len();
    let mut k: usize = 0;
    while k < tag.len()
        invariant
            n == data@.len(),
            pos + tag@.len() <= data@.len(),
            0 <= k <= tag@.len(),
            forall|j: int| 0 <= j < k ==> data@[pos + j] == tag@[j],
        decreases tag@.len() - k,
    {
        if data[pos + k] != tag[k] {
            assert(data@.subrange(pos as int, pos + tag@.len())[k as int] != tag@[k as int]);
            return false;
        }
        k = k + 1;
    }
    assert(data@.subrange(pos as int, pos + tag@.len()) =~= tag@);
    true
}


// ---------------------------------------------------------------------
// Sizes and decompression
// ---------------------------------------------------------------------

/// Size in bytes of a `width` x `height` level stored raw in `format`
/// (`TEXB0001` bodies): pixels times bytes per pixel, whole 4x4 blocks for
/// block-compressed formats, four bytes per pixel otherwise.
pub open spec fn spec_data_size(f: TextureFormat, w: u32, h: u32) -> int {
    match spec_bytes_per_pixel(f) {
        Some(bpp) => w as int * h as int * bpp as int,
        None => match spec_bytes_per_block(f) {
            Some(bpb) => ((w as int + 3) / 4) * ((h as int + 3) / 4) * bpb as int,
            None => w as int * h as int * 4,
        },
    }
}

/// The size computation of `spec_data_size` stays within `u32`.
pub open spec fn data_size_fits(f: TextureFormat, w: u32, h: u32) -> bool {
    &&& spec_data_size(f, w, h) <= u32::MAX
    &&& (spec_bytes_per_pixel(f) is None && spec_bytes_per_block(f) is Some) ==> (w as int + 3
        <= u32::MAX && h as int + 3 <= u32::MAX)
}

/// Expected size in bytes of a raw level.
pub fn calculate_data_size(format: TextureFormat, width: u32, height: u32) -> (r: u32)
    requires
        data_size_fits(format, width, height),
    ensures
        r == spec_data_size(format, width, height),
{
    if let Some(bpp) = format.bytes_per_pixel() {
        assert(width as int * height as int <= width as int * height as int * bpp as int)
            by (nonlinear_arith)
            requires
                bpp >= 1,
        ;
        width * height * bpp
    } else if let Some(bytes_per_block) = format.bytes_per_block() {
        let blocks_x = (width + 3) / 4;
        let blocks_y = (height + 3) / 4;
        assert(blocks_x as int * blocks_y as int <= blocks_x as int * blocks_y as int
            * bytes_per_block as int) by (nonlinear_arith)
            requires
                bytes_per_block >= 1,
        ;
        blocks_x * blocks_y * bytes_per_block
    } else {
        assert(width as int * height as int <= width as int * height as int * 4)
            by (nonlinear_arith);
        width * height * 4
    }
}

/// Name for what `lz4_flex::block::decompress(input, size)` returns: the
/// decompressed block, or `None` when the crate reports a decoding error.
pub uninterp spec fn lz4_block_decompress(input: Seq<u8>, min_uncompressed_size: usize) -> Option<
    Seq<u8>,
>;

/// Reading an LZ4 length extension from position `p` of `d` on, with
/// `acc` summed so far, as `read_integer` of `lz4_flex` (0.11,
/// `block/decompress_safe.rs`) does: each byte is added to a `u32`, and
/// the reading goes on after a `0xFF`. The result is (0, _, _) when the
/// input ends first (the decoder reports an error), (1, _, _) when the sum
/// passes `u32::MAX` (the `u32` addition overflows), else (2, sum, the
/// position after the last byte).
pub open spec fn lz4_ext(d: Seq<u8>, p: int, acc: int) -> (int, int, int)
    decreases d.len() - p,
{
    if p < 0 || p >= d.len() {
        (0, acc, p)
    } else if acc + d[p] > u32::MAX {
        (1, acc + d[p], p + 1)
    } else if d[p] == 0xFFu8 {
        lz4_ext(d, p + 1, acc + d[p])
    } else {
        (2, acc + d[p], p + 1)
    }
}

/// Whether `decompress_internal` of `lz4_flex` 0.11 (`block/decompress_safe.rs`,
/// with the default `safe-decode` and `checked-decode` features) returns
/// on the block `d` from input position `ip` and output position `op`,
/// into an output of `size` bytes, instead of overflowing an integer.
/// Each sequence is read as the decoder reads it: the token, the literal
/// length and its extension, the literals (an error when they run past the
/// input or the output), the end of the block, the match offset (an error
/// when missing or zero), the match length and its extension, and the
/// checks of the match against the output's size and the output written
/// so far. The decoder overflows only in a length extension (the `u32`
/// sum) or in the `usize` sums of a length with its base or with the
/// output position; every other step either goes on or ends with an
/// error. Where its fast path is taken (no extension, far from both
/// ends) the same checks give the same outcome.
pub open spec fn lz4_returns(d: Seq<u8>, size: int, ip: int, op: int) -> bool
    decreases d.len() - ip,
{
    if ip < 0 || ip >= d.len() {
        true
    } else {
        let token = d[ip] as int;
        let lit0 = token / 16;
        let e1 = if lit0 == 15 {
            lz4_ext(d, ip + 1, 0)
        } else {
            (2int, 0int, ip + 1)
        };
        if e1.0 == 0 {
            true
        } else if e1.0 == 1 {
            false
        } else {
            let lit = lit0 + e1.1;
            let ip2 = e1.2;
            if lit > usize::MAX {
                false
            } else if lit0 != 0 && lit > d.len() - ip2 {
                true
            } else if lit0 != 0 && lit > size - op {
                true
            } else {
                let ip3 = ip2 + lit;
                let op1 = op + lit;
                if ip3 >= d.len() || ip3 + 2 > d.len() {
                    true
                } else {
                    let offset = d[ip3] as int + 256 * d[ip3 + 1] as int;
                    if offset == 0 {
                        true
                    } else {
                        let m0 = 4 + token % 16;
                        let e2 = if m0 == 19 {
                            lz4_ext(d, ip3 + 2, 0)
                        } else {
                            (2int, 0int, ip3 + 2)
                        };
                        if e2.0 == 0 {
                            true
                        } else if e2.0 == 1 {
                            false
                        } else {
                            let m = m0 + e2.1;
                            if m > usize::MAX || op1 + m > usize::MAX {
                                false
                            } else if op1 + m > size || offset > op1 {
                                true
                            } else if e2.2 <= ip || e2.2 > d.len() {
                                true
                            } else {
                                lz4_returns(d, size, e2.2, op1 + m)
                            }
                        }
                    }
                }
            }
        }
    }
}

/// `lz4_flex::block::decompress` returns on `input` with an output of
/// `size` bytes: the output buffer can be allocated and the decoding
/// overflows no integer.
pub open spec fn lz4_input_ok(input: Seq<u8>, size: usize) -> bool {
    &&& size <= isize::MAX
    &&& lz4_returns(input, size as int, 0, 0)
}

proof fn lemma_lz4_ext_next(d: Seq<u8>, p: int, acc: int)
    ensures
        lz4_ext(d, p, acc).0 == 2 ==> lz4_ext(d, p, acc).2 > p && lz4_ext(d, p, acc).2 <= d.len()
            && lz4_ext(d, p, acc).1 <= u32::MAX,
        lz4_ext(d, p, acc).0 == 2 ==> lz4_ext(d, p, acc).1 >= acc,
        lz4_ext(d, p, acc).0 == 0 || lz4_ext(d, p, acc).0 == 1 || lz4_ext(d, p, acc).0 == 2,
    decreases d.len() - p,
{
    if 0 <= p < d.len() && acc + d[p] <= u32::MAX && d[p] == 0xFFu8 {
        lemma_lz4_ext_next(d, p + 1, acc + d[p]);
    }
}

/// Reading a length extension as `lz4_ext` says.
fn lz4_ext_exec(d: &[u8], p: usize) -> (r: (u8, u64, usize))
    ensures
        (r.0 as int, r.1 as int, r.2 as int) == lz4_ext(d@, p as int, 0),
{
    let mut q = p;
    let mut acc: u64 = 0;
    loop
        invariant
            acc <= u32::MAX,
            q >= p,
            lz4_ext(d@, p as int, 0) == lz4_ext(d@, q as int, acc as int),
        decreases d@.len() - q,
    {
        if q >= d.len() {
            return (0, acc, q);
        }
        let s = acc + d[q] as u64;
        if s > 0xFFFF_FFFF {
            return (1, s, q + 1);
        }
        if d[q] != 0xFF {
            return (2, s, q + 1);
        }
        acc = s;
        q = q + 1;
    }
}

/// Whether `lz4_input_ok` holds.
pub fn lz4_input_ok_exec(input: &[u8], size: usize) -> (b: bool)
    ensures
        b == lz4_input_ok(input@, size),
{
    if size > isize::MAX as usize {
        return false;
    }
    let ghost d = input@;
    let n = input.len();
    let mut ip: usize = 0;
    let mut op: usize = 0;
    loop
        invariant
            d == input@,
            n == d.len(),
            size <= isize::MAX,
            op <= size,
            lz4_returns(d, size as int, ip as int, op as int) == lz4_returns(d, size as int, 0, 0),
        decreases n - ip,
    {
        if ip >= n {
            return true;
        }
        let token = input[ip];
        let lit0: u64 = (token / 16) as u64;
        let e1 = if lit0 == 15 {
            let r = lz4_ext_exec(input, ip + 1);
            proof {
                lemma_lz4_ext_next(d, ip + 1, 0);
            }
            r
        } else {
            (2u8, 0u64, ip + 1)
        };
        if e1.0 == 0 {
            return true;
        }
        if e1.0 == 1 {
            return false;
        }
        let lit: u128 = lit0 as u128 + e1.1 as u128;
        let ip2 = e1.2;
        assert(ip2 <= n);
        if lit > usize::MAX as u128 {
            return false;
        }
        if lit0 != 0 && lit > (n - ip2) as u128 {
            return true;
        }
        if lit0 != 0 && lit > (size - op) as u128 {
            return true;
        }
        let ip3 = ip2 + lit as usize;
        let op1 = op + lit as usize;
        if ip3 >= n || n - ip3 < 2 {
            return true;
        }
        let offset: u128 = input[ip3] as u128 + 256 * (input[ip3 + 1] as u128);
        if offset == 0 {
            return true;
        }
        let m0: u64 = 4 + (token % 16) as u64;
        let e2 = if m0 == 19 {
            let r = lz4_ext_exec(input, ip3 + 2);
            proof {
                lemma_lz4_ext_next(d, ip3 + 2, 0);
            }
            r
        } else {
            (2u8, 0u64, ip3 + 2)
        };
        if e2.0 == 0 {
            return true;
        }
        if e2.0 == 1 {
            return false;
        }
        let m: u128 = m0 as u128 + e2.1 as u128;
        if m > usize::MAX as u128 || op1 as u128 + m > usize::MAX as u128 {
            return false;
        }
        if op1 as u128 + m > size as u128 || offset > op1 as u128 {
            return true;
        }
        if e2.2 <= ip || e2.2 > n {
            return true;
        }
        ip = e2.2;
        op = op1 + m as usize;
    }
}

/// Calls `lz4_flex::block::decompress`. The contract claims that the result
/// is a function of the input and the size bound (named
/// `lz4_block_decompress`), and that a successful result is at most
/// `min_uncompressed_size` long: the crate writes into a buffer of that size
/// and truncates it to what was written. With the crate's default
/// `checked-decode` feature a literal or match that does not fit the buffer
/// is reported as an error before it is copied (`decompress_safe.rs`), which
/// is why a size smaller than the data does not panic here. The `requires`
/// shuts out the inputs on which the decoder's length sums overflow.
/// Which bytes come out is not stated.
#[verifier::external_body]
fn lz4_decompress(input: &[u8], min_uncompressed_size: usize) -> (r: Option<Vec<u8>>)
    requires
        lz4_input_ok(input@, min_uncompressed_size),
    ensures
        r matches Some(v) ==> lz4_block_decompress(input@, min_uncompressed_size) == Some(v@),
        r matches Some(v) ==> v@.len() <= min_uncompressed_size,
        r is None ==> lz4_block_decompress(input@, min_uncompressed_size) is None,
{
    lz4_flex::block::decompress(input, min_uncompressed_size).ok()
}

/// `bytes` cut or zero-padded to exactly `n` bytes.
pub open spec fn fit_to(bytes: Seq<u8>, n: nat) -> Seq<u8> {
    Seq::new(n, |i: int| if i < bytes.len() { bytes[i] } else { 0u8 })
}

/// The bytes that an LZ4-compressed level decodes to: the decompressed block
/// if the decoder accepts it, the raw bytes otherwise, fitted to the
/// announced size.
pub open spec fn spec_decompressed(compressed: Seq<u8>, size: usize) -> Seq<u8> {
    match lz4_block_decompress(compressed, size) {
        Some(v) => fit_to(v, size as nat),
        None => fit_to(compressed, size as nat),
    }
}

/// A vector of `n` zero bytes.
fn zeroed(n: usize) -> (v: Vec<u8>)
    ensures
        v@ == Seq::new(n as nat, |i: int| 0u8),
{
    let mut v: Vec<u8> = Vec::new();
    while v.len() < n
        invariant
            v@.len() <= n,
            forall|i: int| 0 <= i < v@.len() ==> v@[i] == 0u8,
        decreases n - v@.len(),
    {
        v.push(0u8);
    }
    assert(v@ =~= Seq::new(n as nat, |i: int| 0u8));
    v
}

/// `src` copied into a zeroed buffer of `n` bytes.
fn fitted_copy(src: &[u8], n: usize) -> (v: Vec<u8>)
    ensures
        v@ == fit_to(src@, n as nat),
{
    let mut out = zeroed(n);
    let copy_len = if src.len() < n {
        src.len()
    } else {
        n
    };
    let mut i: usize = 0;
    while i < copy_len
        invariant
            i <= copy_len,
            copy_len <= n,
            copy_len <= src@.len(),
            copy_len == n || copy_len == src@.len(),
            out@.len() == n,
            forall|j: int| 0 <= j < i ==> out@[j] == src@[j],
            forall|j: int| i <= j < n ==> out@[j] == 0u8,
        decreases copy_len - i,
    {
        out.set(i, src[i]);
        i = i + 1;
    }
    assert(out@ =~= fit_to(src@, n as nat));
    out
}

/// Decompress an LZ4 block to exactly `uncompressed_size` bytes; data that
/// the decoder refuses is taken as raw.
/// Never fails: the fallback to raw bytes covers every decoder error.
pub fn decompress_lz4(compressed: &[u8], uncompressed_size: usize) -> (r: Result<Vec<u8>, TexError>)
    requires
        lz4_input_ok(compressed@, uncompressed_size),
    ensures
        r matches Ok(v) && v@ == spec_decompressed(compressed@, uncompressed_size),
{
    match lz4_decompress(compressed, uncompressed_size) {
        Some(decompressed) => Ok(fitted_copy(decompressed.as_slice(), uncompressed_size)),
        None => Ok(fitted_copy(compressed, uncompressed_size)),
    }
}


// ---------------------------------------------------------------------
// Conversion to RGBA8: uncompressed formats
// ---------------------------------------------------------------------

/// Red, green and blue fields of an RGB565 word.
pub open spec fn r5(c: int) -> int {
    c / 2048
}

pub open spec fn g6(c: int) -> int {
    (c / 32) % 64
}

pub open spec fn b5(c: int) -> int {
    c % 32
}

/// Channel `c` of pixel `i` of uncompressed data in format `f`; pixels whose
/// bytes are missing stay zero. Formats without a decoder give a magenta
/// (BC7) or grey placeholder.
pub open spec fn plain_channel(f: TextureFormat, d: Seq<u8>, i: int, c: int) -> u8 {
    match f {
        TextureFormat::ARGB8888 => if 4 * i + 4 <= d.len() {
            if c == 0 {
                d[4 * i + 1]
            } else if c == 1 {
                d[4 * i + 2]
            } else if c == 2 {
                d[4 * i + 3]
            } else {
                d[4 * i]
            }
        } else {
            0u8
        },
        TextureFormat::RGB888 => if 3 * i + 3 <= d.len() {
            if c < 3 {
                d[3 * i + c]
            } else {
                255u8
            }
        } else {
            0u8
        },
        TextureFormat::RGB565 => if 2 * i + 2 <= d.len() {
            let px = d[2 * i] as int + 256 * d[2 * i + 1] as int;
            if c == 0 {
                (r5(px) * 8) as u8
            } else if c == 1 {
                (g6(px) * 4) as u8
            } else if c == 2 {
                (b5(px) * 8) as u8
            } else {
                255u8
            }
        } else {
            0u8
        },
        TextureFormat::R8 => if i < d.len() {
            if c < 3 {
                d[i]
            } else {
                255u8
            }
        } else {
            0u8
        },
        TextureFormat::RG88 => if 2 * i + 2 <= d.len() {
            if c == 0 {
                d[2 * i]
            } else if c == 1 {
                d[2 * i + 1]
            } else if c == 2 {
                0u8
            } else {
                255u8
            }
        } else {
            0u8
        },
        TextureFormat::BC7 => if c == 1 {
            0u8
        } else {
            255u8
        },
        _ => if c < 3 {
            128u8
        } else {
            255u8
        },
    }
}

/// Pixel `i` of uncompressed data, as `(r, g, b, a)`.
fn plain_pixel(format: TextureFormat, data: &[u8], i: usize) -> (p: (u8, u8, u8, u8))
    requires
        !is_dxt(format),
    ensures
        p.0 == plain_channel(format, data@, i as int, 0),
        p.1 == plain_channel(format, data@, i as int, 1),
        p.2 == plain_channel(format, data@, i as int, 2),
        p.3 == plain_channel(format, data@, i as int, 3),
{
    let n = data.len();
    match format {
        TextureFormat::ARGB8888 => {
            if i < n / 4 {
                let s = 4 * i;
                (data[s + 1], data[s + 2], data[s + 3], data[s])
            } else {
                (0, 0, 0, 0)
            }
        },
        TextureFormat::RGB888 => {
            if i < n / 3 {
                let s = 3 * i;
                (data[s], data[s + 1], data[s + 2], 255)
            } else {
                (0, 0, 0, 0)
            }
        },
        TextureFormat::RGB565 => {
            if i < n / 2 {
                let s = 2 * i;
                let px: u32 = data[s] as u32 + 256 * (data[s + 1] as u32);
                (((px / 2048) * 8) as u8, (((px / 32) % 64) * 4) as u8, ((px % 32) * 8) as u8, 255)
            } else {
                (0, 0, 0, 0)
            }
        },
        TextureFormat::R8 => {
            if i < n {
                let v = data[i];
                (v, v, v, 255)
            } else {
                (0, 0, 0, 0)
            }
        },
        TextureFormat::RG88 => {
            if i < n / 2 {
                let s = 2 * i;
                (data[s], data[s + 1], 0, 255)
            } else {
                (0, 0, 0, 0)
            }
        },
        TextureFormat::BC7 => (255, 0, 255, 255),
        _ => (128, 128, 128, 255),
    }
}

/// The block-compressed formats that have a decoder.
pub open spec fn is_dxt(f: TextureFormat) -> bool {
    f == TextureFormat::DXT1 || f == TextureFormat::DXT3 || f == TextureFormat::DXT5
}


// ---------------------------------------------------------------------
// Conversion to RGBA8: DXT blocks
// ---------------------------------------------------------------------

/// Which DXT variant a block belongs to.
#[derive(Debug, Clone, Copy, PartialEq, Eq, Structural)]
pub enum DxtKind {
    Dxt1,
    Dxt3,
    Dxt5,
}

pub open spec fn pow4(n: nat) -> nat
    decreases n,
{
    if n == 0 {
        1
    } else {
        4 * pow4((n - 1) as nat)
    }
}

pub open spec fn pow8(n: nat) -> nat
    decreases n,
{
    if n == 0 {
        1
    } else {
        8 * pow8((n - 1) as nat)
    }
}

/// The RGB565 word at offset `o` of a block.
pub open spec fn color_word(b: Seq<u8>, o: int) -> int {
    b[o] as int + 256 * b[o + 1] as int
}

/// 5-bit and 6-bit colour fields widened to 8 bits by bit replication.
pub open spec fn expand5(v: int) -> int {
    v * 8 + v / 4
}

pub open spec fn expand6(v: int) -> int {
    v * 4 + v / 16
}

/// Channel `c` (red, green or blue) of palette entry `idx` of the colour
/// block at offset `o`: the two endpoints, then either two interpolated
/// colours at thirds (four-colour mode), or their midpoint and black
/// (three-colour mode, DXT1 blocks whose first endpoint is not above the
/// second).
pub open spec fn palette_rgb(b: Seq<u8>, o: int, idx: int, c: int, three_colour_allowed: bool) -> u8 {
    let c0 = color_word(b, o);
    let c1 = color_word(b, o + 2);
    let v0 = if c == 0 {
        r5(c0)
    } else if c == 1 {
        g6(c0)
    } else {
        b5(c0)
    };
    let v1 = if c == 0 {
        r5(c1)
    } else if c == 1 {
        g6(c1)
    } else {
        b5(c1)
    };
    let scale = if c == 1 {
        4int
    } else {
        8int
    };
    let four_colour = !three_colour_allowed || c0 > c1;
    (if idx == 0 {
        if c == 1 {
            expand6(v0)
        } else {
            expand5(v0)
        }
    } else if idx == 1 {
        if c == 1 {
            expand6(v1)
        } else {
            expand5(v1)
        }
    } else if four_colour {
        if idx == 2 {
            ((2 * v0 + v1) / 3) * scale
        } else {
            ((v0 + 2 * v1) / 3) * scale
        }
    } else if idx == 2 {
        ((v0 + v1) / 2) * scale
    } else {
        0
    }) as u8
}

/// Palette index (2 bits) of pixel `n` of the colour block at offset `o`:
/// bits `2n` and `2n + 1` of the little-endian index word.
pub open spec fn colour_index(b: Seq<u8>, o: int, n: int) -> int {
    (le_u32_at(b, o + 4) as int / pow4(n as nat) as int) % 4
}

/// The 48-bit little-endian alpha index field of a DXT5 block.
pub open spec fn dxt5_alpha_bits(b: Seq<u8>) -> int {
    b[2] as int + 256 * b[3] as int + 65536 * b[4] as int + 16777216 * b[5] as int + 4294967296
        * b[6] as int + 1099511627776 * b[7] as int
}

/// Entry `i` of the DXT5 alpha table built from the endpoints `a0`, `a1`.
pub open spec fn dxt5_alpha(a0: int, a1: int, i: int) -> u8 {
    (if i == 0 {
        a0
    } else if i == 1 {
        a1
    } else if a0 > a1 {
        ((8 - i) * a0 + (i - 1) * a1) / 7
    } else if i < 6 {
        ((6 - i) * a0 + (i - 1) * a1) / 5
    } else if i == 6 {
        0
    } else {
        255
    }) as u8
}

/// Channel `c` of pixel `n` (row-major within the 4x4 block) of a DXT block.
pub open spec fn block_channel(kind: DxtKind, b: Seq<u8>, n: int, c: int) -> u8 {
    match kind {
        DxtKind::Dxt1 => {
            let idx = colour_index(b, 0, n);
            if c < 3 {
                palette_rgb(b, 0, idx, c, true)
            } else if idx == 3 && !(color_word(b, 0) > color_word(b, 2)) {
                0u8
            } else {
                255u8
            }
        },
        DxtKind::Dxt3 => {
            if c < 3 {
                palette_rgb(b, 8, colour_index(b, 8, n), c, false)
            } else {
                let byte = b[n / 2] as int;
                let nibble = if n % 2 == 0 {
                    byte % 16
                } else {
                    byte / 16
                };
                (nibble * 17) as u8
            }
        },
        DxtKind::Dxt5 => {
            if c < 3 {
                palette_rgb(b, 8, colour_index(b, 8, n), c, false)
            } else {
                dxt5_alpha(b[0] as int, b[1] as int, (dxt5_alpha_bits(b) / pow8(n as nat) as int) % 8)
            }
        },
    }
}

/// Bytes per block of a DXT variant.
pub open spec fn dxt_block_bytes(kind: DxtKind) -> int {
    if kind == DxtKind::Dxt1 {
        8
    } else {
        16
    }
}

/// `4^n` for a pixel number `n < 16`.
fn pow4_u32(n: usize) -> (r: u32)
    requires
        n < 16,
    ensures
        r as nat == pow4(n as nat),
        r >= 1,
{
    proof {
        reveal_with_fuel(pow4, 17);
    }
    match n {
        0 => 1,
        1 => 4,
        2 => 16,
        3 => 64,
        4 => 256,
        5 => 1024,
        6 => 4096,
        7 => 16384,
        8 => 65536,
        9 => 262144,
        10 => 1048576,
        11 => 4194304,
        12 => 16777216,
        13 => 67108864,
        14 => 268435456,
        15 => 1073741824,
        _ => 0,
    }
}

/// `8^n` for a pixel number `n < 16`.
fn pow8_u64(n: usize) -> (r: u64)
    requires
        n < 16,
    ensures
        r as nat == pow8(n as nat),
        r >= 1,
{
    proof {
        reveal_with_fuel(pow8, 17);
    }
    match n {
        0 => 1,
        1 => 8,
        2 => 64,
        3 => 512,
        4 => 4096,
        5 => 32768,
        6 => 262144,
        7 => 2097152,
        8 => 16777216,
        9 => 134217728,
        10 => 1073741824,
        11 => 8589934592,
        12 => 68719476736,
        13 => 549755813888,
        14 => 4398046511104,
        15 => 35184372088832,
        _ => 0,
    }
}


/// One colour component of palette entry `idx` from the endpoint fields
/// `v0`, `v1` (6-bit when `six_bit`, 5-bit otherwise).
fn palette_component(v0: u32, v1: u32, idx: u32, four_colour: bool, six_bit: bool) -> (r: u8)
    requires
        v0 < 64,
        v1 < 64,
        !six_bit ==> v0 < 32 && v1 < 32,
        idx < 4,
    ensures
        r == ({
            let scale = if six_bit {
                4int
            } else {
                8int
            };
            (if idx == 0 {
                if six_bit {
                    expand6(v0 as int)
                } else {
                    expand5(v0 as int)
                }
            } else if idx == 1 {
                if six_bit {
                    expand6(v1 as int)
                } else {
                    expand5(v1 as int)
                }
            } else if four_colour {
                if idx == 2 {
                    ((2 * v0 + v1) / 3) * scale
                } else {
                    ((v0 + 2 * v1) / 3) * scale
                }
            } else if idx == 2 {
                ((v0 + v1) / 2) * scale
            } else {
                0
            }) as u8
        }),
{
    let scale: u32 = if six_bit {
        4
    } else {
        8
    };
    let v: u32 = if idx == 0 {
        if six_bit {
            v0 * 4 + v0 / 16
        } else {
            v0 * 8 + v0 / 4
        }
    } else if idx == 1 {
        if six_bit {
            v1 * 4 + v1 / 16
        } else {
            v1 * 8 + v1 / 4
        }
    } else if four_colour {
        if idx == 2 {
            ((2 * v0 + v1) / 3) * scale
        } else {
            ((v0 + 2 * v1) / 3) * scale
        }
    } else if idx == 2 {
        ((v0 + v1) / 2) * scale
    } else {
        0
    };
    v as u8
}

/// Red, green and blue of palette entry `idx` of the colour block at `o`.
fn palette_pixel(block: &[u8], o: usize, idx: u32, three_colour_allowed: bool) -> (r: (u8, u8, u8))
    requires
        o + 4 <= block@.len(),
        idx < 4,
    ensures
        r.0 == palette_rgb(block@, o as int, idx as int, 0, three_colour_allowed),
        r.1 == palette_rgb(block@, o as int, idx as int, 1, three_colour_allowed),
        r.2 == palette_rgb(block@, o as int, idx as int, 2, three_colour_allowed),
{
    let c0: u32 = block[o] as u32 + 256 * (block[o + 1] as u32);
    let c1: u32 = block[o + 2] as u32 + 256 * (block[o + 3] as u32);
    let four_colour = !three_colour_allowed || c0 > c1;
    let r = palette_component(c0 / 2048, c1 / 2048, idx, four_colour, false);
    let g = palette_component((c0 / 32) % 64, (c1 / 32) % 64, idx, four_colour, true);
    let b = palette_component(c0 % 32, c1 % 32, idx, four_colour, false);
    (r, g, b)
}

/// The little-endian `u32` at offset `o` of a block.
fn block_u32(block: &[u8], o: usize) -> (r: u32)
    requires
        o + 4 <= block@.len(),
    ensures
        r == le_u32_at(block@, o as int),
{
    block[o] as u32 + 256 * (block[o + 1] as u32) + 65536 * (block[o + 2] as u32) + 16777216 * (
    block[o + 3] as u32)
}

/// Pixel `n` of a DXT block, as `(r, g, b, a)`.
fn dxt_block_pixel(kind: DxtKind, block: &[u8], n: usize) -> (p: (u8, u8, u8, u8))
    requires
        block@.len() == dxt_block_bytes(kind),
        n < 16,
    ensures
        p.0 == block_channel(kind, block@, n as int, 0),
        p.1 == block_channel(kind, block@, n as int, 1),
        p.2 == block_channel(kind, block@, n as int, 2),
        p.3 == block_channel(kind, block@, n as int, 3),
{
    let o: usize = if kind == DxtKind::Dxt1 {
        0
    } else {
        8
    };
    let word = block_u32(block, o + 4);
    let idx = (word / pow4_u32(n)) % 4;
    let (r, g, b) = palette_pixel(block, o, idx, kind == DxtKind::Dxt1);
    let a: u8 = match kind {
        DxtKind::Dxt1 => {
            let c0: u32 = block[0] as u32 + 256 * (block[1] as u32);
            let c1: u32 = block[2] as u32 + 256 * (block[3] as u32);
            if idx == 3 && !(c0 > c1) {
                0
            } else {
                255
            }
        },
        DxtKind::Dxt3 => {
            let byte = block[n / 2];
            let nibble = if n % 2 == 0 {
                byte % 16
            } else {
                byte / 16
            };
            nibble * 17
        },
        DxtKind::Dxt5 => {
            let a0 = block[0] as u64;
            let a1 = block[1] as u64;
            let bits: u64 = block[2] as u64 + 256 * (block[3] as u64) + 65536 * (block[4] as u64)
                + 16777216 * (block[5] as u64) + 4294967296 * (block[6] as u64) + 1099511627776 * (
            block[7] as u64);
            let i = (bits / pow8_u64(n)) % 8;
            assert(i < 8 && a0 <= 255 && a1 <= 255);
            assert(8 * 255 <= u64::MAX);
            assert(forall|k: u64, a: u64| k <= 8 && a <= 255 ==> #[trigger] (k * a) <= 2040)
                by (nonlinear_arith);
            let v: u64 = if i == 0 {
                a0
            } else if i == 1 {
                a1
            } else if a0 > a1 {
                ((8 - i) * a0 + (i - 1) * a1) / 7
            } else if i < 6 {
                ((6 - i) * a0 + (i - 1) * a1) / 5
            } else if i == 6 {
                0
            } else {
                255
            };
            v as u8
        },
    };
    (r, g, b, a)
}


// ---------------------------------------------------------------------
// Conversion to RGBA8: DXT images
// ---------------------------------------------------------------------

/// Channel `c` of the RGBA8 pixel `(x, y)` of an image of width `w`.
pub open spec fn px_at(s: Seq<u8>, w: int, x: int, y: int, c: int) -> u8 {
    s[4 * (y * w + x) + c]
}

/// Row-major rank of the 4x4 block that covers pixel `(x, y)`.
pub open spec fn block_rank(w: u32, x: int, y: int) -> int {
    (y / 4) * ((w as int + 3) / 4) + x / 4
}

/// Channel `c` of pixel `(x, y)` of a DXT image of width `w`: decoded from
/// the block that covers the pixel, zero when the data ends before that
/// block.
pub open spec fn dxt_xy_channel(kind: DxtKind, w: u32, d: Seq<u8>, x: int, y: int, c: int) -> u8 {
    let bsz = dxt_block_bytes(kind);
    let off = block_rank(w, x, y) * bsz;
    if off + bsz <= d.len() {
        block_channel(kind, d.subrange(off, off + bsz), (y % 4) * 4 + x % 4, c)
    } else {
        0u8
    }
}

/// The DXT arithmetic on these dimensions stays within `u32`.
pub open spec fn dxt_dims_ok(w: u32, h: u32) -> bool {
    &&& w as int + 3 <= u32::MAX
    &&& h as int + 3 <= u32::MAX
    &&& w as int * h as int <= 1073741824
}

proof fn lemma_pix_unique(w: int, x1: int, y1: int, x2: int, y2: int)
    requires
        0 <= x1 < w,
        0 <= x2 < w,
        0 <= y1,
        0 <= y2,
        y1 * w + x1 == y2 * w + x2,
    ensures
        x1 == x2,
        y1 == y2,
{
    if y1 < y2 {
        assert(y1 * w + w <= y2 * w) by (nonlinear_arith)
            requires
                y1 < y2,
                0 <= w,
        ;
    } else if y2 < y1 {
        assert(y2 * w + w <= y1 * w) by (nonlinear_arith)
            requires
                y2 < y1,
                0 <= w,
        ;
    }
}

proof fn lemma_pix_bound(w: int, h: int, x: int, y: int)
    requires
        0 <= x < w,
        0 <= y < h,
    ensures
        0 <= y * w + x < w * h,
{
    assert(0 <= y * w + x < w * h) by (nonlinear_arith)
        requires
            0 <= x < w,
            0 <= y < h,
    ;
}

proof fn lemma_pix_of_index(w: int, h: int, k: int)
    requires
        0 <= k < w * h,
        0 < w,
    ensures
        0 <= k % w < w,
        0 <= k / w < h,
        (k / w) * w + k % w == k,
{
    vstd::arithmetic::div_mod::lemma_fundamental_div_mod(k, w);
    vstd::arithmetic::mul::lemma_mul_is_commutative(k / w, w);
    assert(0 <= k / w < h) by (nonlinear_arith)
        requires
            0 <= k < w * h,
            0 < w,
            k == w * (k / w) + k % w,
            0 <= k % w < w,
    ;
}

/// Decode one DXT block whose top-left pixel is `(bx, by)` into `output`.
fn decode_dxt_block(
    kind: DxtKind,
    block: &[u8],
    bx: u32,
    by: u32,
    width: u32,
    height: u32,
    output: &mut Vec<u8>,
)
    requires
        block@.len() == dxt_block_bytes(kind),
        bx % 4 == 0,
        by % 4 == 0,
        bx < width + 3,
        by < height + 3,
        dxt_dims_ok(width, height),
        old(output)@.len() == 4 * (width as int * height as int),
    ensures
        final(output)@.len() == old(output)@.len(),
        forall|x: int, y: int, c: int|
            0 <= x < width && 0 <= y < height && 0 <= c < 4 ==> #[trigger] px_at(
                final(output)@,
                width as int,
                x,
                y,
                c,
            ) == if x / 4 == bx / 4 && y / 4 == by / 4 {
                block_channel(kind, block@, (y % 4) * 4 + x % 4, c)
            } else {
                px_at(old(output)@, width as int, x, y, c)
            },
{
    let ghost w = width as int;
    let ghost h = height as int;
    let ghost orig = output@;
    let mut n: usize = 0;
    while n < 16
        invariant
            0 <= n <= 16,
            w == width,
            h == height,
            block@.len() == dxt_block_bytes(kind),
            bx % 4 == 0,
            by % 4 == 0,
            bx < width + 3,
            by < height + 3,
            dxt_dims_ok(width, height),
            output@.len() == 4 * (w * h),
            orig.len() == 4 * (w * h),
            forall|x: int, y: int, c: int|
                0 <= x < w && 0 <= y < h && 0 <= c < 4 ==> #[trigger] px_at(output@, w, x, y, c)
                    == if x / 4 == bx / 4 && y / 4 == by / 4 && (y % 4) * 4 + x % 4 < n {
                    block_channel(kind, block@, (y % 4) * 4 + x % 4, c)
                } else {
                    px_at(orig, w, x, y, c)
                },
        decreases 16 - n,
    {
        let px = (n % 4) as u32;
        let py = (n / 4) as u32;
        let x = bx + px;
        let y = by + py;
        if x < width && y < height {
            proof {
                lemma_pix_bound(w, h, x as int, y as int);
            }
            let pixel_offset = ((y * width + x) * 4) as usize;
            let (r, g, b, a) = dxt_block_pixel(kind, block, n);
            let ghost before = output@;
            output.set(pixel_offset, r);
            output.set(pixel_offset + 1, g);
            output.set(pixel_offset + 2, b);
            output.set(pixel_offset + 3, a);
            proof {
                assert forall|x2: int, y2: int, c: int|
                    0 <= x2 < w && 0 <= y2 < h && 0 <= c < 4 implies #[trigger] px_at(
                        output@,
                        w,
                        x2,
                        y2,
                        c,
                    ) == if x2 / 4 == bx / 4 && y2 / 4 == by / 4 && (y2 % 4) * 4 + x2 % 4 < n
                        + 1 {
                        block_channel(kind, block@, (y2 % 4) * 4 + x2 % 4, c)
                    } else {
                        px_at(orig, w, x2, y2, c)
                    } by {
                    lemma_pix_bound(w, h, x2, y2);
                    if x2 == x && y2 == y {
                    } else {
                        if y2 * w + x2 == (y as int) * w + (x as int) {
                            lemma_pix_unique(w, x2, y2, x as int, y as int);
                        }
                        assert(px_at(before, w, x2, y2, c) == px_at(output@, w, x2, y2, c));
                    }
                }
            }
        } else {
            proof {
                assert forall|x2: int, y2: int, c: int|
                    0 <= x2 < w && 0 <= y2 < h && 0 <= c < 4 implies #[trigger] px_at(
                        output@,
                        w,
                        x2,
                        y2,
                        c,
                    ) == if x2 / 4 == bx / 4 && y2 / 4 == by / 4 && (y2 % 4) * 4 + x2 % 4 < n
                        + 1 {
                        block_channel(kind, block@, (y2 % 4) * 4 + x2 % 4, c)
                    } else {
                        px_at(orig, w, x2, y2, c)
                    } by {
                    if x2 / 4 == bx / 4 && y2 / 4 == by / 4 && (y2 % 4) * 4 + x2 % 4 == n {
                        assert(x2 == x && y2 == y);
                    }
                }
            }
        }
        n = n + 1;
    }
}


/// The RGBA8 image that DXT data of the given dimensions decodes to.
pub open spec fn spec_dxt_rgba(kind: DxtKind, w: u32, h: u32, d: Seq<u8>) -> Seq<u8> {
    Seq::new(
        (4 * (w as int * h as int)) as nat,
        |j: int| dxt_xy_channel(kind, w, d, (j / 4) % (w as int), (j / 4) / (w as int), j % 4),
    )
}

/// Decode a whole DXT image into `output`, which holds zeros on entry.
fn decode_dxt(kind: DxtKind, data: &[u8], width: u32, height: u32, output: &mut Vec<u8>)
    requires
        dxt_dims_ok(width, height),
        old(output)@ == Seq::new((4 * (width as int * height as int)) as nat, |i: int| 0u8),
    ensures
        final(output)@ == spec_dxt_rgba(kind, width, height, data@),
{
    let ghost w = width as int;
    let ghost h = height as int;
    let blocks_x = (width + 3) / 4;
    let blocks_y = (height + 3) / 4;
    let bsz: usize = if kind == DxtKind::Dxt1 {
        8
    } else {
        16
    };
    proof {
        assert forall|x: int, y: int, c: int|
            0 <= x < w && 0 <= y < h && 0 <= c < 4 implies #[trigger] px_at(output@, w, x, y, c)
                == 0u8 by {
            lemma_pix_bound(w, h, x, y);
        }
    }
    let mut by: u32 = 0;
    while by < blocks_y
        invariant
            w == width,
            h == height,
            dxt_dims_ok(width, height),
            blocks_x == (width + 3) / 4,
            blocks_y == (height + 3) / 4,
            bsz == dxt_block_bytes(kind),
            by <= blocks_y,
            output@.len() == 4 * (w * h),
            forall|x: int, y: int, c: int|
                0 <= x < w && 0 <= y < h && 0 <= c < 4 ==> #[trigger] px_at(output@, w, x, y, c)
                    == if block_rank(width, x, y) < by * blocks_x {
                    dxt_xy_channel(kind, width, data@, x, y, c)
                } else {
                    0u8
                },
        decreases blocks_y - by,
    {
        let mut bx: u32 = 0;
        while bx < blocks_x
            invariant
                w == width,
                h == height,
                dxt_dims_ok(width, height),
                blocks_x == (width + 3) / 4,
                blocks_y == (height + 3) / 4,
                bsz == dxt_block_bytes(kind),
                by < blocks_y,
                bx <= blocks_x,
                output@.len() == 4 * (w * h),
                forall|x: int, y: int, c: int|
                    0 <= x < w && 0 <= y < h && 0 <= c < 4 ==> #[trigger] px_at(
                        output@,
                        w,
                        x,
                        y,
                        c,
                    ) == if block_rank(width, x, y) < by * blocks_x + bx {
                        dxt_xy_channel(kind, width, data@, x, y, c)
                    } else {
                        0u8
                    },
            decreases blocks_x - bx,
        {
            assert(width <= 1073741824 && height <= 1073741824) by (nonlinear_arith)
                requires
                    1 <= width,
                    1 <= height,
                    width as int * height as int <= 1073741824,
            ;
            assert(blocks_x <= 268435457 && blocks_y <= 268435457);
            assert(by as int * blocks_x as int <= 268435457 * 268435457) by (nonlinear_arith)
                requires
                    by < blocks_y,
                    blocks_x <= 268435457,
                    blocks_y <= 268435457,
            ;
            let block_idx: u64 = (by as u64) * (blocks_x as u64) + bx as u64;
            assert(block_idx as int * bsz as int <= 16 * (268435457 * 268435457 + 268435457))
                by (nonlinear_arith)
                requires
                    block_idx <= 268435457 * 268435457 + 268435457,
                    bsz <= 16,
            ;
            let block_offset: u64 = block_idx * (bsz as u64);
            let ghost r = by * blocks_x + bx;
            if block_offset + (bsz as u64) <= data.len() as u64 {
                let start = block_offset as usize;
                let block = &data[start..start + bsz];
                let ghost before = output@;
                decode_dxt_block(kind, block, bx * 4, by * 4, width, height, output);
                proof {
                    assert forall|x: int, y: int, c: int|
                        0 <= x < w && 0 <= y < h && 0 <= c < 4 implies #[trigger] px_at(
                            output@,
                            w,
                            x,
                            y,
                            c,
                        ) == if block_rank(width, x, y) < r + 1 {
                            dxt_xy_channel(kind, width, data@, x, y, c)
                        } else {
                            0u8
                        } by {
                        assert(x / 4 < blocks_x);
                        if x / 4 == bx && y / 4 == by {
                            assert(block_rank(width, x, y) == r);
                        } else if block_rank(width, x, y) == r {
                            lemma_pix_unique(blocks_x as int, x / 4, y / 4, bx as int, by as int);
                        }
                    }
                }
            } else {
                proof {
                    assert forall|x: int, y: int, c: int|
                        0 <= x < w && 0 <= y < h && 0 <= c < 4 implies #[trigger] px_at(
                            output@,
                            w,
                            x,
                            y,
                            c,
                        ) == if block_rank(width, x, y) < r + 1 {
                            dxt_xy_channel(kind, width, data@, x, y, c)
                        } else {
                            0u8
                        } by {
                        if block_rank(width, x, y) == r {
                            assert(block_rank(width, x, y) * bsz == block_offset);
                        }
                    }
                }
            }
            bx = bx + 1;
        }
        assert(by * blocks_x + blocks_x == (by + 1) * blocks_x) by (nonlinear_arith);
        by = by + 1;
    }
    proof {
        assert forall|j: int| 0 <= j < 4 * (w * h) implies output@[j] == spec_dxt_rgba(
            kind,
            width,
            height,
            data@,
        )[j] by {
            let k = j / 4;
            let x = k % w;
            let y = k / w;
            lemma_pix_of_index(w, h, k);
            assert(px_at(output@, w, x, y, j % 4) == output@[j]);
            assert(x / 4 < blocks_x);
            assert(y / 4 < blocks_y);
            assert(block_rank(width, x, y) < blocks_y * blocks_x) by (nonlinear_arith)
                requires
                    x / 4 < blocks_x,
                    y / 4 < blocks_y,
                    block_rank(width, x, y) == (y / 4) * blocks_x + x / 4,
                    0 <= x / 4,
                    0 <= y / 4,
            ;
        }
        assert(output@ =~= spec_dxt_rgba(kind, width, height, data@));
    }
}


/// Decode DXT1 (BC1) data into `output`, which holds zeros on entry.
pub fn decode_dxt1(data: &[u8], width: u32, height: u32, output: &mut Vec<u8>) -> (r: Result<
    (),
    TexError,
>)
    requires
        dxt_dims_ok(width, height),
        old(output)@ == Seq::new((4 * (width as int * height as int)) as nat, |i: int| 0u8),
    ensures
        r is Ok,
        final(output)@ == spec_dxt_rgba(DxtKind::Dxt1, width, height, data@),
{
    decode_dxt(DxtKind::Dxt1, data, width, height, output);
    Ok(())
}

/// Decode DXT3 (BC2) data into `output`, which holds zeros on entry.
pub fn decode_dxt3(data: &[u8], width: u32, height: u32, output: &mut Vec<u8>) -> (r: Result<
    (),
    TexError,
>)
    requires
        dxt_dims_ok(width, height),
        old(output)@ == Seq::new((4 * (width as int * height as int)) as nat, |i: int| 0u8),
    ensures
        r is Ok,
        final(output)@ == spec_dxt_rgba(DxtKind::Dxt3, width, height, data@),
{
    decode_dxt(DxtKind::Dxt3, data, width, height, output);
    Ok(())
}

/// Decode DXT5 (BC3) data into `output`, which holds zeros on entry.
pub fn decode_dxt5(data: &[u8], width: u32, height: u32, output: &mut Vec<u8>) -> (r: Result<
    (),
    TexError,
>)
    requires
        dxt_dims_ok(width, height),
        old(output)@ == Seq::new((4 * (width as int * height as int)) as nat, |i: int| 0u8),
    ensures
        r is Ok,
        final(output)@ == spec_dxt_rgba(DxtKind::Dxt5, width, height, data@),
{
    decode_dxt(DxtKind::Dxt5, data, width, height, output);
    Ok(())
}

/// The block decoders under their format names; each writes the pixels of
/// one 4x4 block at `(bx, by)` that lie inside the image.
pub fn decode_dxt1_block(block: &[u8], bx: u32, by: u32, width: u32, height: u32, output: &mut Vec<u8>)
    requires
        block@.len() == 8,
        bx % 4 == 0,
        by % 4 == 0,
        bx < width + 3,
        by < height + 3,
        dxt_dims_ok(width, height),
        old(output)@.len() == 4 * (width as int * height as int),
    ensures
        final(output)@.len() == old(output)@.len(),
        forall|x: int, y: int, c: int|
            0 <= x < width && 0 <= y < height && 0 <= c < 4 ==> #[trigger] px_at(
                final(output)@,
                width as int,
                x,
                y,
                c,
            ) == if x / 4 == bx / 4 && y / 4 == by / 4 {
                block_channel(DxtKind::Dxt1, block@, (y % 4) * 4 + x % 4, c)
            } else {
                px_at(old(output)@, width as int, x, y, c)
            },
{
    decode_dxt_block(DxtKind::Dxt1, block, bx, by, width, height, output);
}

pub fn decode_dxt3_block(block: &[u8], bx: u32, by: u32, width: u32, height: u32, output: &mut Vec<u8>)
    requires
        block@.len() == 16,
        bx % 4 == 0,
        by % 4 == 0,
        bx < width + 3,
        by < height + 3,
        dxt_dims_ok(width, height),
        old(output)@.len() == 4 * (width as int * height as int),
    ensures
        final(output)@.len() == old(output)@.len(),
        forall|x: int, y: int, c: int|
            0 <= x < width && 0 <= y < height && 0 <= c < 4 ==> #[trigger] px_at(
                final(output)@,
                width as int,
                x,
                y,
                c,
            ) == if x / 4 == bx / 4 && y / 4 == by / 4 {
                block_channel(DxtKind::Dxt3, block@, (y % 4) * 4 + x % 4, c)
            } else {
                px_at(old(output)@, width as int, x, y, c)
            },
{
    decode_dxt_block(DxtKind::Dxt3, block, bx, by, width, height, output);
}

pub fn decode_dxt5_block(block: &[u8], bx: u32, by: u32, width: u32, height: u32, output: &mut Vec<u8>)
    requires
        block@.len() == 16,
        bx % 4 == 0,
        by % 4 == 0,
        bx < width + 3,
        by < height + 3,
        dxt_dims_ok(width, height),
        old(output)@.len() == 4 * (width as int * height as int),
    ensures
        final(output)@.len() == old(output)@.len(),
        forall|x: int, y: int, c: int|
            0 <= x < width && 0 <= y < height && 0 <= c < 4 ==> #[trigger] px_at(
                final(output)@,
                width as int,
                x,
                y,
                c,
            ) == if x / 4 == bx / 4 && y / 4 == by / 4 {
                block_channel(DxtKind::Dxt5, block@, (y % 4) * 4 + x % 4, c)
            } else {
                px_at(old(output)@, width as int, x, y, c)
            },
{
    decode_dxt_block(DxtKind::Dxt5, block, bx, by, width, height, output);
}

// ---------------------------------------------------------------------
// Conversion to RGBA8: any format
// ---------------------------------------------------------------------

/// The RGBA8 image of `w` x `h` pixels that `d` in format `f` converts to.
pub open spec fn spec_rgba(f: TextureFormat, w: u32, h: u32, d: Seq<u8>) -> Seq<u8> {
    match f {
        TextureFormat::DXT1 => spec_dxt_rgba(DxtKind::Dxt1, w, h, d),
        TextureFormat::DXT3 => spec_dxt_rgba(DxtKind::Dxt3, w, h, d),
        TextureFormat::DXT5 => spec_dxt_rgba(DxtKind::Dxt5, w, h, d),
        _ => Seq::new(
            (4 * (w as int * h as int)) as nat,
            |j: int| plain_channel(f, d, j / 4, j % 4),
        ),
    }
}

/// The dimensions a conversion accepts: the output must be allocatable,
/// and block formats need their block arithmetic to stay within `u32`.
pub open spec fn rgba_dims_ok(f: TextureFormat, w: u32, h: u32) -> bool {
    &&& 4 * (w as int * h as int) <= isize::MAX
    &&& spec_is_compressed(f) ==> (w as int + 3 <= u32::MAX && h as int + 3 <= u32::MAX)
    &&& is_dxt(f) ==> dxt_dims_ok(w, h)
}

/// Convert texture data of the given format and size to RGBA8.
pub fn convert_to_rgba(format: TextureFormat, width: u32, height: u32, data: &[u8]) -> (r: Result<
    Vec<u8>,
    TexError,
>)
    requires
        rgba_dims_ok(format, width, height),
    ensures
        r matches Ok(v) && v@ == spec_rgba(format, width, height, data@),
{
    assert(width as int * height as int <= 4 * (width as int * height as int));
    let pixel_count: usize = (width as usize) * (height as usize);
    let n = pixel_count * 4;
    match format {
        TextureFormat::DXT1 => {
            let mut rgba = zeroed(n);
            let _ = decode_dxt1(data, width, height, &mut rgba);
            return Ok(rgba);
        },
        TextureFormat::DXT3 => {
            let mut rgba = zeroed(n);
            let _ = decode_dxt3(data, width, height, &mut rgba);
            return Ok(rgba);
        },
        TextureFormat::DXT5 => {
            let mut rgba = zeroed(n);
            let _ = decode_dxt5(data, width, height, &mut rgba);
            return Ok(rgba);
        },
        _ => {},
    }
    let mut rgba: Vec<u8> = Vec::new();
    let mut i: usize = 0;
    while i < pixel_count
        invariant
            !is_dxt(format),
            i <= pixel_count,
            pixel_count == width as int * height as int,
            rgba@ =~= Seq::new((4 * i) as nat, |j: int| plain_channel(format, data@, j / 4, j % 4)),
        decreases pixel_count - i,
    {
        let (r, g, b, a) = plain_pixel(format, data, i);
        rgba.push(r);
        rgba.push(g);
        rgba.push(b);
        rgba.push(a);
        i = i + 1;
        assert(rgba@ =~= Seq::new((4 * i) as nat, |j: int| plain_channel(format, data@, j / 4, j % 4)));
    }
    Ok(rgba)
}


// ---------------------------------------------------------------------
// The texture file
// ---------------------------------------------------------------------

/// One mipmap level, converted to RGBA8.
pub struct TextureMipmap {
    pub width: u32,
    pub height: u32,
    /// RGBA8 pixels, row by row.
    pub data: Vec<u8>,
}

/// A parsed texture.
pub struct Texture {
    pub format: TextureFormat,
    pub flags: TextureFlags,
    /// Size of the stored texture (often a power of two).
    pub texture_width: u32,
    pub texture_height: u32,
    /// Size of the actual image.
    pub width: u32,
    pub height: u32,
    /// Mipmap levels; level 0 has the full resolution.
    pub mipmaps: Vec<TextureMipmap>,
}

/// A mipmap level as plain values: width, height, RGBA8 bytes.
pub type MipView = (u32, u32, Seq<u8>);

/// A texture as plain values.
pub struct TextureView {
    pub format: TextureFormat,
    pub flags: TextureFlags,
    pub texture_width: u32,
    pub texture_height: u32,
    pub width: u32,
    pub height: u32,
    pub mipmaps: Seq<MipView>,
}

pub open spec fn mips_view(ms: Seq<TextureMipmap>) -> Seq<MipView> {
    ms.map_values(|m: TextureMipmap| (m.width, m.height, m.data@))
}

impl View for Texture {
    type V = TextureView;

    open spec fn view(&self) -> TextureView {
        TextureView {
            format: self.format,
            flags: self.flags,
            texture_width: self.texture_width,
            texture_height: self.texture_height,
            width: self.width,
            height: self.height,
            mipmaps: mips_view(self.mipmaps@),
        }
    }
}

pub open spec fn texv_tag() -> Seq<u8> {
    seq![84u8, 69u8, 88u8, 86u8, 48u8, 48u8, 48u8, 53u8]
}

pub open spec fn texi_tag() -> Seq<u8> {
    seq![84u8, 69u8, 88u8, 73u8, 48u8, 48u8, 48u8, 49u8]
}

pub open spec fn texb_magic() -> Seq<u8> {
    seq![84u8, 69u8, 88u8, 66u8]
}

/// `TEXB000n`.
pub open spec fn texb_tag(n: u8) -> Seq<u8> {
    seq![84u8, 69u8, 88u8, 66u8, 48u8, 48u8, 48u8, (48 + n) as u8]
}

/// Largest level accepted: 16384 x 16384 RGBA8 pixels.
pub open spec fn max_level_bytes() -> int {
    1073741824
}

/// The first position at which `m` occurs in `s`.
pub open spec fn first_occurrence(s: Seq<u8>, m: Seq<u8>) -> Option<int> {
    if exists|j: int| #[trigger] occurs_at(s, m, j) {
        Some(
            choose|j: int|
                occurs_at(s, m, j) && forall|k: int| 0 <= k < j ==> !#[trigger] occurs_at(s, m, k),
        )
    } else {
        None
    }
}

/// The body version whose tag stands at `p`.
pub open spec fn body_version(d: Seq<u8>, p: int) -> Option<ContainerVersion> {
    if occurs_at(d, texb_tag(4), p) {
        Some(ContainerVersion::TEXB0004)
    } else if occurs_at(d, texb_tag(3), p) {
        Some(ContainerVersion::TEXB0003)
    } else if occurs_at(d, texb_tag(2), p) {
        Some(ContainerVersion::TEXB0002)
    } else if occurs_at(d, texb_tag(1), p) {
        Some(ContainerVersion::TEXB0001)
    } else {
        None
    }
}

/// `r` with `prefix` put before the levels it holds.
pub open spec fn prepend(prefix: Seq<MipView>, r: Option<Result<Seq<MipView>, TexError>>) -> Option<
    Result<Seq<MipView>, TexError>,
> {
    match r {
        Some(Ok(rest)) => Some(Ok(prefix + rest)),
        other => other,
    }
}

/// The mipmap levels read from position `pos` on, at most `left` of them.
/// A level whose size is over the limit, or whose bytes run past the end,
/// ends the list; a header field that runs past the end fails the parse.
/// `None` marks inputs on which the reading cannot proceed without
/// overflowing: a `TEXB0001` level whose raw size exceeds `u32`, a level
/// whose RGBA8 image cannot be allocated, or an LZ4 level on which the
/// decoder overflows (`lz4_input_ok`).
pub open spec fn spec_mips(
    d: Seq<u8>,
    ver: ContainerVersion,
    fmt: TextureFormat,
    pos: int,
    left: nat,
) -> Option<Result<Seq<MipView>, TexError>>
    decreases left,
{
    if left == 0 {
        Some(Ok(Seq::empty()))
    } else if pos + 8 > d.len() {
        Some(Err(TexError::UnexpectedEnd))
    } else {
        let w = le_u32_at(d, pos);
        let h = le_u32_at(d, pos + 4);
        let v1 = ver == ContainerVersion::TEXB0001;
        if v1 && !data_size_fits(fmt, w, h) {
            None
        } else if !v1 && pos + 20 > d.len() {
            Some(Err(TexError::UnexpectedEnd))
        } else {
            let p = if v1 {
                pos + 8
            } else {
                pos + 20
            };
            let unc: u32 = if v1 {
                spec_data_size(fmt, w, h) as u32
            } else {
                le_u32_at(d, pos + 12)
            };
            let comp: u32 = if v1 {
                unc
            } else {
                le_u32_at(d, pos + 16)
            };
            let compressed = !v1 && le_u32_at(d, pos + 8) == 1 && comp != 0xFFFF_FFFFu32;
            let size: u32 = if compressed {
                comp
            } else {
                unc
            };
            if size > max_level_bytes() || unc > max_level_bytes() || p + size > d.len() {
                Some(Ok(Seq::empty()))
            } else if !rgba_dims_ok(fmt, w, h) {
                None
            } else if compressed && !lz4_input_ok(d.subrange(p, p + size), unc as usize) {
                None
            } else {
                let raw = d.subrange(p, p + size);
                let bytes = if compressed {
                    spec_decompressed(raw, unc as usize)
                } else {
                    raw
                };
                prepend(
                    seq![(w, h, spec_rgba(fmt, w, h, bytes))],
                    spec_mips(d, ver, fmt, p + size, (left - 1) as nat),
                )
            }
        }
    }
}

/// What parsing `d` gives, as plain values; `None` where it cannot proceed
/// without overflowing (see `spec_mips`) or where the body tag found has
/// fewer than eight bytes.
pub open spec fn spec_parse(d: Seq<u8>) -> Option<Result<TextureView, TexError>> {
    if d.len() < 18 {
        Some(Err(TexError::TooSmall))
    } else if !occurs_at(d, texv_tag(), 0) {
        Some(Err(TexError::InvalidHeader))
    } else if !occurs_at(d, texi_tag(), 9) {
        Some(Err(TexError::InvalidSubHeader))
    } else if d.len() < 42 {
        Some(Err(TexError::UnexpectedEnd))
    } else {
        match first_occurrence(d.subrange(42, d.len() as int), texb_magic()) {
            None => Some(Err(TexError::BodyNotFound)),
            Some(j) => {
                let p = 42 + j;
                if p + 8 > d.len() {
                    None
                } else {
                    match body_version(d, p) {
                        None => Some(Err(TexError::UnknownBodyVersion)),
                        Some(ver) => {
                            let q = p + 9;
                            let v4 = ver == ContainerVersion::TEXB0004;
                            if q + (if v4 {
                                16int
                            } else {
                                4int
                            }) > d.len() {
                                Some(Err(TexError::UnexpectedEnd))
                            } else {
                                let count = if v4 {
                                    le_u32_at(d, q + 12)
                                } else {
                                    le_u32_at(d, q)
                                };
                                let start = if v4 {
                                    q + 16
                                } else if ver == ContainerVersion::TEXB0003 {
                                    q + 5
                                } else {
                                    q + 4
                                };
                                let fmt = format_of_code(le_u32_at(d, 18));
                                match spec_mips(d, ver, fmt, start, count as nat) {
                                    None => None,
                                    Some(Err(e)) => Some(Err(e)),
                                    Some(Ok(ms)) => Some(
                                        Ok(
                                            TextureView {
                                                format: fmt,
                                                flags: flags_of_word(le_u32_at(d, 22)),
                                                texture_width: le_u32_at(d, 26),
                                                texture_height: le_u32_at(d, 30),
                                                width: le_u32_at(d, 34),
                                                height: le_u32_at(d, 38),
                                                mipmaps: ms,
                                            },
                                        ),
                                    ),
                                }
                            }
                        }
                    }
                }
            }
        }
    }
}

pub open spec fn parse_result_view(r: Result<Texture, TexError>) -> Result<TextureView, TexError> {
    match r {
        Ok(t) => Ok(t@),
        Err(e) => Err(e),
    }
}

proof fn lemma_prepend_assoc(a: Seq<MipView>, b: Seq<MipView>, r: Option<Result<Seq<MipView>, TexError>>)
    ensures
        prepend(a, prepend(b, r)) == prepend(a + b, r),
{
    match r {
        Some(Ok(rest)) => {
            assert(a + (b + rest) =~= (a + b) + rest);
        },
        _ => {},
    }
}

proof fn lemma_first_occurrence(s: Seq<u8>, m: Seq<u8>, i: int)
    requires
        occurs_at(s, m, i),
        forall|k: int| 0 <= k < i ==> !#[trigger] occurs_at(s, m, k),
    ensures
        first_occurrence(s, m) == Some(i),
{
    let j = choose|j: int|
        occurs_at(s, m, j) && forall|k: int| 0 <= k < j ==> !#[trigger] occurs_at(s, m, k);
    assert(occurs_at(s, m, j));
    if j < i {
        assert(!occurs_at(s, m, j));
    } else if i < j {
        assert(!occurs_at(s, m, i));
    }
}

fn texv_bytes() -> (v: Vec<u8>)
    ensures
        v@ == texv_tag(),
{
    vec![84u8, 69u8, 88u8, 86u8, 48u8, 48u8, 48u8, 53u8]
}

fn texi_bytes() -> (v: Vec<u8>)
    ensures
        v@ == texi_tag(),
{
    vec![84u8, 69u8, 88u8, 73u8, 48u8, 48u8, 48u8, 49u8]
}

fn texb_magic_bytes() -> (v: Vec<u8>)
    ensures
        v@ == texb_magic(),
{
    vec![84u8, 69u8, 88u8, 66u8]
}

fn texb_bytes(n: u8) -> (v: Vec<u8>)
    requires
        n <= 9,
    ensures
        v@ == texb_tag(n),
{
    vec![84u8, 69u8, 88u8, 66u8, 48u8, 48u8, 48u8, 48u8 + n]
}


/// Read up to `count` mipmap levels starting at `start`.
fn parse_mips(data: &[u8], ver: ContainerVersion, format: TextureFormat, start: usize, count: u32) -> (r:
    Result<Vec<TextureMipmap>, TexError>)
    requires
        spec_mips(data@, ver, format, start as int, count as nat) is Some,
    ensures
        spec_mips(data@, ver, format, start as int, count as nat) == Some(
            match r {
                Ok(ms) => Ok(mips_view(ms@)),
                Err(e) => Err(e),
            },
        ),
{
    let ghost d = data@;
    let mut mipmaps: Vec<TextureMipmap> = Vec::new();
    let mut pos = start;
    let mut i: u32 = 0;
    let v1 = ver == ContainerVersion::TEXB0001;
    while i < count
        invariant_except_break
            spec_mips(d, ver, format, pos as int, (count - i) as nat) is Some,
            spec_mips(d, ver, format, start as int, count as nat) == prepend(
                mips_view(mipmaps@),
                spec_mips(d, ver, format, pos as int, (count - i) as nat),
            ),
        invariant
            d == data@,
            i <= count,
            v1 == (ver == ContainerVersion::TEXB0001),
        ensures
            spec_mips(d, ver, format, start as int, count as nat) == Some(
                Ok::<Seq<MipView>, TexError>(mips_view(mipmaps@)),
            ),
        decreases count - i,
    {
        let ghost left = (count - i) as nat;
        let ghost before = mips_view(mipmaps@);
        let ghost pos0 = pos as int;
        let mip_width = match read_u32(data, &mut pos) {
            Ok(v) => v,
            Err(e) => return Err(e),
        };
        let mip_height = match read_u32(data, &mut pos) {
            Ok(v) => v,
            Err(e) => {
                return Err(e);
            },
        };
        let (is_compressed, uncompressed_size, compressed_size) = if v1 {
            let size = calculate_data_size(format, mip_width, mip_height);
            (false, size, size)
        } else {
            let compression_flag = match read_u32(data, &mut pos) {
                Ok(v) => v,
                Err(e) => return Err(e),
            };
            let uncompressed = match read_u32(data, &mut pos) {
                Ok(v) => v,
                Err(e) => return Err(e),
            };
            let compressed = match read_u32(data, &mut pos) {
                Ok(v) => v,
                Err(e) => return Err(e),
            };
            (compression_flag == 1, uncompressed, compressed)
        };
        let actual_compressed = if compressed_size == 0xFFFF_FFFFu32 {
            false
        } else {
            is_compressed
        };
        let data_size: u32 = if actual_compressed {
            compressed_size
        } else {
            uncompressed_size
        };
        if data_size > 1073741824 || uncompressed_size > 1073741824 {
            proof {
                assert(spec_mips(d, ver, format, pos0, left) == Some(
                    Ok::<Seq<MipView>, TexError>(Seq::empty()),
                ));
                assert(before + Seq::<MipView>::empty() =~= before);
            }
            break;
        }
        if data_size as usize > data.len() - pos {
            proof {
                assert(before + Seq::<MipView>::empty() =~= before);
            }
            break;
        }
        let raw = &data[pos..pos + data_size as usize];
        assert(raw@ == d.subrange(pos as int, pos + data_size));
        pos = pos + data_size as usize;
        let rgba = if actual_compressed {
            let texture_data = match decompress_lz4(raw, uncompressed_size as usize) {
                Ok(v) => v,
                Err(e) => return Err(e),
            };
            match convert_to_rgba(format, mip_width, mip_height, texture_data.as_slice()) {
                Ok(v) => v,
                Err(e) => return Err(e),
            }
        } else {
            match convert_to_rgba(format, mip_width, mip_height, raw) {
                Ok(v) => v,
                Err(e) => return Err(e),
            }
        };
        let ghost m: MipView = (mip_width, mip_height, rgba@);
        proof {
            if i + 1 == count {
                assert(mips_view(mipmaps@) + seq![m] + Seq::<MipView>::empty() =~= mips_view(mipmaps@) + seq![m]);
            }
        }
        mipmaps.push(TextureMipmap { width: mip_width, height: mip_height, data: rgba });
        proof {
            assert(mips_view(mipmaps@) =~= before + seq![m]);
            lemma_prepend_assoc(before, seq![m], spec_mips(d, ver, format, pos as int, (left - 1) as nat));
        }
        i = i + 1;
    }
    Ok(mipmaps)
}


impl Texture {
    /// Parse a `.tex` file from its bytes.
    #[verifier::rlimit(100)]
    #[verifier::spinoff_prover]
    pub fn parse(data: &[u8]) -> (r: Result<Texture, TexError>)
        requires
            spec_parse(data@) is Some,
        ensures
            spec_parse(data@) == Some(parse_result_view(r)),
    {
        let ghost d = data@;
        if data.len() < 18 {
            return Err(TexError::TooSmall);
        }
        let texv = texv_bytes();
        if !bytes_at(data, 0, texv.as_slice()) {
            return Err(TexError::InvalidHeader);
        }
        let texi = texi_bytes();
        if !bytes_at(data, 9, texi.as_slice()) {
            return Err(TexError::InvalidSubHeader);
        }
        let mut pos: usize = 18;
        let format_val = match read_u32(data, &mut pos) {
            Ok(v) => v,
            Err(e) => return Err(e),
        };
        let flags_val = match read_u32(data, &mut pos) {
            Ok(v) => v,
            Err(e) => return Err(e),
        };
        let texture_width = match read_u32(data, &mut pos) {
            Ok(v) => v,
            Err(e) => return Err(e),
        };
        let texture_height = match read_u32(data, &mut pos) {
            Ok(v) => v,
            Err(e) => return Err(e),
        };
        let width = match read_u32(data, &mut pos) {
            Ok(v) => v,
            Err(e) => return Err(e),
        };
        let height = match read_u32(data, &mut pos) {
            Ok(v) => v,
            Err(e) => return Err(e),
        };
        let format = TextureFormat::from_u32(format_val);
        let flags = TextureFlags::from_u32(flags_val);
        let rest = &data[pos..data.len()];
        let magic = texb_magic_bytes();
        let texb_pos = match find_magic(rest, magic.as_slice()) {
            Some(j) => j,
            None => return Err(TexError::BodyNotFound),
        };
        proof {
            lemma_first_occurrence(rest@, magic@, texb_pos as int);
        }
        pos = pos + texb_pos;
        let tag4 = texb_bytes(4);
        let tag3 = texb_bytes(3);
        let tag2 = texb_bytes(2);
        let tag1 = texb_bytes(1);
        let container_version = if bytes_at(data, pos, tag4.as_slice()) {
            ContainerVersion::TEXB0004
        } else if bytes_at(data, pos, tag3.as_slice()) {
            ContainerVersion::TEXB0003
        } else if bytes_at(data, pos, tag2.as_slice()) {
            ContainerVersion::TEXB0002
        } else if bytes_at(data, pos, tag1.as_slice()) {
            ContainerVersion::TEXB0001
        } else {
            return Err(TexError::UnknownBodyVersion);
        };
        if data.len() - pos < 13 {
            return Err(TexError::UnexpectedEnd);
        }
        pos = pos + 9;
        let image_count = match read_u32(data, &mut pos) {
            Ok(v) => v,
            Err(e) => return Err(e),
        };
        let mip_count = if container_version == ContainerVersion::TEXB0004 {
            let _unknown1 = match read_u32(data, &mut pos) {
                Ok(v) => v,
                Err(e) => return Err(e),
            };
            let _unknown2 = match read_u32(data, &mut pos) {
                Ok(v) => v,
                Err(e) => return Err(e),
            };
            match read_u32(data, &mut pos) {
                Ok(v) => v,
                Err(e) => return Err(e),
            }
        } else {
            image_count
        };
        if container_version == ContainerVersion::TEXB0003 {
            if pos < data.len() {
                pos = pos + 1;
            } else if mip_count > 0 {
                return Err(TexError::UnexpectedEnd);
            } else {
                assert(spec_mips(d, container_version, format, pos + 1, 0) == spec_mips(
                    d,
                    container_version,
                    format,
                    pos as int,
                    0,
                ));
            }
        }
        let mipmaps = match parse_mips(data, container_version, format, pos, mip_count) {
            Ok(ms) => ms,
            Err(e) => return Err(e),
        };
        Ok(Texture { format, flags, texture_width, texture_height, width, height, mipmaps })
    }

    /// The RGBA8 pixels of level 0, if there is a level.
    pub fn rgba_data(&self) -> (r: Option<&[u8]>)
        ensures
            self.mipmaps@.len() == 0 ==> r is None,
            self.mipmaps@.len() > 0 ==> (r matches Some(s) && s@ == self.mipmaps@[0].data@),
    {
        if self.mipmaps.len() == 0 {
            None
        } else {
            Some(self.mipmaps[0].data.as_slice())
        }
    }
}


// ---------------------------------------------------------------------
// Inputs the parser is defined on
// ---------------------------------------------------------------------

/// Whether `data_size_fits` holds.
fn data_size_fits_exec(format: TextureFormat, width: u32, height: u32) -> (b: bool)
    ensures
        b == data_size_fits(format, width, height),
{
    let w = width as u128;
    let h = height as u128;
    assert(w * h <= 0x1_0000_0000_0000_0000u128) by (nonlinear_arith)
        requires
            w <= 0xFFFF_FFFF,
            h <= 0xFFFF_FFFF,
    ;
    let wh = w * h;
    let bx = (w + 3) / 4;
    let by = (h + 3) / 4;
    assert(bx * by <= 0x1_0000_0000_0000_0000u128) by (nonlinear_arith)
        requires
            bx <= 0x4000_0001,
            by <= 0x4000_0001,
    ;
    let bb = bx * by;
    let size: u128 = match format.bytes_per_pixel() {
        Some(bpp) => {
            assert(wh * (bpp as u128) <= wh * 8) by (nonlinear_arith)
                requires
                    bpp <= 8,
            ;
            wh * (bpp as u128)
        },
        None => match format.bytes_per_block() {
            Some(bpb) => {
                assert(bb * (bpb as u128) <= bb * 16) by (nonlinear_arith)
                    requires
                        bpb <= 16,
                ;
                bb * (bpb as u128)
            },
            None => wh * 4,
        },
    };
    let blocks_ok = match (format.bytes_per_pixel(), format.bytes_per_block()) {
        (None, Some(_)) => width <= 0xFFFF_FFFCu32 && height <= 0xFFFF_FFFCu32,
        _ => true,
    };
    size <= 0xFFFF_FFFFu128 && blocks_ok
}

/// Whether `rgba_dims_ok` holds.
fn rgba_dims_ok_exec(format: TextureFormat, width: u32, height: u32) -> (b: bool)
    ensures
        b == rgba_dims_ok(format, width, height),
{
    let w = width as u128;
    let h = height as u128;
    assert(w * h <= 0x1_0000_0000_0000_0000u128) by (nonlinear_arith)
        requires
            w <= 0xFFFF_FFFF,
            h <= 0xFFFF_FFFF,
    ;
    let area = w * h;
    let fits = 4 * area <= isize::MAX as u128;
    let blocks = if format.is_compressed() {
        width <= 0xFFFF_FFFCu32 && height <= 0xFFFF_FFFCu32
    } else {
        true
    };
    let dxt = match format {
        TextureFormat::DXT1 | TextureFormat::DXT3 | TextureFormat::DXT5 => width <= 0xFFFF_FFFCu32
            && height <= 0xFFFF_FFFCu32 && area <= 1073741824,
        _ => true,
    };
    fits && blocks && dxt
}

/// Whether the mipmap reading from `start` is defined.
fn mips_defined(data: &[u8], ver: ContainerVersion, format: TextureFormat, start: usize, count: u32) -> (b: bool)
    ensures
        b == spec_mips(data@, ver, format, start as int, count as nat) is Some,
{
    let ghost d = data@;
    let mut pos = start;
    let mut i: u32 = 0;
    let v1 = ver == ContainerVersion::TEXB0001;
    while i < count
        invariant
            d == data@,
            i <= count,
            v1 == (ver == ContainerVersion::TEXB0001),
            (spec_mips(d, ver, format, start as int, count as nat) is Some) == (spec_mips(
                d,
                ver,
                format,
                pos as int,
                (count - i) as nat,
            ) is Some),
        decreases count - i,
    {
        let mip_width = match read_u32(data, &mut pos) {
            Ok(v) => v,
            Err(_) => return true,
        };
        let mip_height = match read_u32(data, &mut pos) {
            Ok(v) => v,
            Err(_) => return true,
        };
        let (is_compressed, uncompressed_size, compressed_size) = if v1 {
            if !data_size_fits_exec(format, mip_width, mip_height) {
                return false;
            }
            let size = calculate_data_size(format, mip_width, mip_height);
            (false, size, size)
        } else {
            let flag = match read_u32(data, &mut pos) {
                Ok(v) => v,
                Err(_) => return true,
            };
            let unc = match read_u32(data, &mut pos) {
                Ok(v) => v,
                Err(_) => return true,
            };
            let comp = match read_u32(data, &mut pos) {
                Ok(v) => v,
                Err(_) => return true,
            };
            (flag == 1, unc, comp)
        };
        let actual_compressed = if compressed_size == 0xFFFF_FFFFu32 {
            false
        } else {
            is_compressed
        };
        let data_size: u32 = if actual_compressed {
            compressed_size
        } else {
            uncompressed_size
        };
        if data_size > 1073741824 || uncompressed_size > 1073741824 {
            return true;
        }
        if data_size as usize > data.len() - pos {
            return true;
        }
        if !rgba_dims_ok_exec(format, mip_width, mip_height) {
            return false;
        }
        if actual_compressed {
            let raw = &data[pos..pos + data_size as usize];
            assert(raw@ == d.subrange(pos as int, pos + data_size));
            if !lz4_input_ok_exec(raw, uncompressed_size as usize) {
                return false;
            }
        }
        pos = pos + data_size as usize;
        i = i + 1;
    }
    true
}

impl Texture {
    /// Whether `parse` is defined on `data`: the `TEXB` tag found has its
    /// eight bytes, and every level read has a size that fits and an RGBA8
    /// image that can be allocated. Callers check this before `parse`.
    #[verifier::rlimit(60)]
    pub fn parse_is_defined(data: &[u8]) -> (b: bool)
        ensures
            b == spec_parse(data@) is Some,
    {
        if data.len() < 18 {
            return true;
        }
        let texv = texv_bytes();
        if !bytes_at(data, 0, texv.as_slice()) {
            return true;
        }
        let texi = texi_bytes();
        if !bytes_at(data, 9, texi.as_slice()) {
            return true;
        }
        if data.len() < 42 {
            return true;
        }
        let format = TextureFormat::from_u32(
            match read_u32(data, &mut 18usize) {
                Ok(v) => v,
                Err(_) => return true,
            },
        );
        let rest = &data[42..data.len()];
        let magic = texb_magic_bytes();
        let texb_pos = match find_magic(rest, magic.as_slice()) {
            Some(j) => j,
            None => return true,
        };
        proof {
            lemma_first_occurrence(rest@, magic@, texb_pos as int);
        }
        let mut pos: usize = 42 + texb_pos;
        if data.len() - pos < 8 {
            return false;
        }
        let tag4 = texb_bytes(4);
        let tag3 = texb_bytes(3);
        let tag2 = texb_bytes(2);
        let tag1 = texb_bytes(1);
        let container_version = if bytes_at(data, pos, tag4.as_slice()) {
            ContainerVersion::TEXB0004
        } else if bytes_at(data, pos, tag3.as_slice()) {
            ContainerVersion::TEXB0003
        } else if bytes_at(data, pos, tag2.as_slice()) {
            ContainerVersion::TEXB0002
        } else if bytes_at(data, pos, tag1.as_slice()) {
            ContainerVersion::TEXB0001
        } else {
            return true;
        };
        if data.len() - pos < 13 {
            return true;
        }
        pos = pos + 9;
        let image_count = match read_u32(data, &mut pos) {
            Ok(v) => v,
            Err(_) => return true,
        };
        let mip_count = if container_version == ContainerVersion::TEXB0004 {
            match read_u32(data, &mut pos) {
                Ok(_) => {},
                Err(_) => return true,
            }
            match read_u32(data, &mut pos) {
                Ok(_) => {},
                Err(_) => return true,
            }
            match read_u32(data, &mut pos) {
                Ok(v) => v,
                Err(_) => return true,
            }
        } else {
            image_count
        };
        if container_version == ContainerVersion::TEXB0003 {
            if pos < data.len() {
                pos = pos + 1;
            } else if mip_count > 0 {
                return true;
            } else {
                assert(spec_mips(data@, container_version, format, pos + 1, 0) == spec_mips(
                    data@,
                    container_version,
                    format,
                    pos as int,
                    0,
                ));
            }
        }
        mips_defined(data, container_version, format, pos, mip_count)
    }
}


proof fn lemma_levels_are_rgba8(d: Seq<u8>, ver: ContainerVersion, fmt: TextureFormat, pos: int, left: nat)
    ensures
        spec_mips(d, ver, fmt, pos, left) matches Some(Ok(ms)) ==> forall|i: int|
            0 <= i < ms.len() ==> (#[trigger] ms[i]).2.len() == 4 * (ms[i].0 as int * ms[i].1 as int),
    decreases left,
{
    if left > 0 && pos + 8 <= d.len() {
        let v1 = ver == ContainerVersion::TEXB0001;
        let p = if v1 {
            pos + 8
        } else {
            pos + 20
        };
        let w = le_u32_at(d, pos);
        let h = le_u32_at(d, pos + 4);
        let unc: u32 = if v1 {
            spec_data_size(fmt, w, h) as u32
        } else {
            le_u32_at(d, pos + 12)
        };
        let comp: u32 = if v1 {
            unc
        } else {
            le_u32_at(d, pos + 16)
        };
        let compressed = !v1 && le_u32_at(d, pos + 8) == 1 && comp != 0xFFFF_FFFFu32;
        let size: u32 = if compressed {
            comp
        } else {
            unc
        };
        lemma_levels_are_rgba8(d, ver, fmt, p + size, (left - 1) as nat);
        let raw = d.subrange(p, p + size);
        let bytes = if compressed {
            spec_decompressed(raw, unc as usize)
        } else {
            raw
        };
        let img = spec_rgba(fmt, w, h, bytes);
        assert(img.len() == 4 * (w as int * h as int));
        match spec_mips(d, ver, fmt, p + size, (left - 1) as nat) {
            Some(Ok(rest)) => {
                let ms = seq![(w, h, img)] + rest;
                assert forall|i: int| 0 <= i < ms.len() implies (#[trigger] ms[i]).2.len() == 4 * (
                ms[i].0 as int * ms[i].1 as int) by {
                    if i > 0 {
                        assert(ms[i] == rest[i - 1]);
                    }
                }
            },
            _ => {},
        }
    }
}

/// Every mipmap level of a parsed texture holds RGBA8 pixels: four bytes
/// per pixel of its size.
pub proof fn law_levels_are_rgba8(d: Seq<u8>)
    ensures
        spec_parse(d) matches Some(Ok(t)) ==> forall|i: int|
            0 <= i < t.mipmaps.len() ==> (#[trigger] t.mipmaps[i]).2.len() == 4 * (t.mipmaps[i].0 as int
                * t.mipmaps[i].1 as int),
{
    if d.len() >= 42 && occurs_at(d, texv_tag(), 0) && occurs_at(d, texi_tag(), 9) {
        match first_occurrence(d.subrange(42, d.len() as int), texb_magic()) {
            Some(j) => {
                let p = 42 + j;
                match body_version(d, p) {
                    Some(ver) => {
                        let q = p + 9;
                        let v4 = ver == ContainerVersion::TEXB0004;
                        let count = if v4 {
                            le_u32_at(d, q + 12)
                        } else {
                            le_u32_at(d, q)
                        };
                        let start = if v4 {
                            q + 16
                        } else if ver == ContainerVersion::TEXB0003 {
                            q + 5
                        } else {
                            q + 4
                        };
                        lemma_levels_are_rgba8(d, ver, format_of_code(le_u32_at(d, 18)), start, count as nat);
                    },
                    None => {},
                }
            },
            None => {},
        }
    }
}


/// Whether `data` starts with the "TEXV0005" container magic, which tells
/// a TEX texture from an ordinary image file.
pub fn is_tex_data(data: &[u8]) -> (b: bool)
    ensures
        b == occurs_at(data@, texv_tag(), 0),
{
    let magic = texv_bytes();
    bytes_at(data, 0, magic.as_slice())
}


/// A texture never holds more mipmap levels than its body declares: the
/// levels read for a declared count of `left` are at most `left`.
pub proof fn law_levels_within_declared_count(d: Seq<u8>, ver: ContainerVersion, fmt: TextureFormat, pos: int, left: nat)
    ensures
        spec_mips(d, ver, fmt, pos, left) matches Some(Ok(ms)) ==> ms.len() <= left,
    decreases left,
{
    if left > 0 && pos + 8 <= d.len() {
        let v1 = ver == ContainerVersion::TEXB0001;
        let p = if v1 {
            pos + 8
        } else {
            pos + 20
        };
        let w = le_u32_at(d, pos);
        let h = le_u32_at(d, pos + 4);
        let unc: u32 = if v1 {
            spec_data_size(fmt, w, h) as u32
        } else {
            le_u32_at(d, pos + 12)
        };
        let comp: u32 = if v1 {
            unc
        } else {
            le_u32_at(d, pos + 16)
        };
        let compressed = !v1 && le_u32_at(d, pos + 8) == 1 && comp != 0xFFFF_FFFFu32;
        let size: u32 = if compressed {
            comp
        } else {
            unc
        };
        law_levels_within_declared_count(d, ver, fmt, p + size, (left - 1) as nat);
    }
}


/// Channel `c` of pixel `i` of the RGBA8 conversion.
pub open spec fn out_channel(f: TextureFormat, w: u32, h: u32, d: Seq<u8>, i: int, c: int) -> u8 {
    spec_rgba(f, w, h, d)[4 * i + c]
}

proof fn lemma_quad_index(i: int, c: int)
    requires
        0 <= c < 4,
    ensures
        (4 * i + c) / 4 == i,
        (4 * i + c) % 4 == c,
{
}

/// The uncompressed formats are read tightly packed and turned into RGBA8
/// pixel by pixel: pixel `i` of a `w` x `h` image takes bytes `4i..4i+4`
/// of ARGB8888 (moving alpha last), `3i..3i+3` of RGB888, byte `i` of R8
/// (as grey), bytes `2i..2i+2` of RG88 (blue 0) and the little-endian word
/// at `2i` of RGB565 (5-6-5 bits shifted up by 3, 2 and 3); missing alpha is
/// opaque. A pixel whose bytes run past the data is all zero.
pub proof fn law_plain_pixels_are_packed(w: u32, h: u32, d: Seq<u8>, i: int)
    requires
        0 <= i < w as int * h as int,
    ensures
        spec_rgba(TextureFormat::ARGB8888, w, h, d).len() == 4 * (w as int * h as int),
        4 * i + 4 <= d.len() ==> {
            &&& out_channel(TextureFormat::ARGB8888, w, h, d, i, 0) == d[4 * i + 1]
            &&& out_channel(TextureFormat::ARGB8888, w, h, d, i, 1) == d[4 * i + 2]
            &&& out_channel(TextureFormat::ARGB8888, w, h, d, i, 2) == d[4 * i + 3]
            &&& out_channel(TextureFormat::ARGB8888, w, h, d, i, 3) == d[4 * i]
        },
        3 * i + 3 <= d.len() ==> {
            &&& out_channel(TextureFormat::RGB888, w, h, d, i, 0) == d[3 * i]
            &&& out_channel(TextureFormat::RGB888, w, h, d, i, 1) == d[3 * i + 1]
            &&& out_channel(TextureFormat::RGB888, w, h, d, i, 2) == d[3 * i + 2]
            &&& out_channel(TextureFormat::RGB888, w, h, d, i, 3) == 255
        },
        i < d.len() ==> {
            &&& out_channel(TextureFormat::R8, w, h, d, i, 0) == d[i]
            &&& out_channel(TextureFormat::R8, w, h, d, i, 1) == d[i]
            &&& out_channel(TextureFormat::R8, w, h, d, i, 2) == d[i]
            &&& out_channel(TextureFormat::R8, w, h, d, i, 3) == 255
        },
        2 * i + 2 <= d.len() ==> {
            &&& out_channel(TextureFormat::RG88, w, h, d, i, 0) == d[2 * i]
            &&& out_channel(TextureFormat::RG88, w, h, d, i, 1) == d[2 * i + 1]
            &&& out_channel(TextureFormat::RG88, w, h, d, i, 2) == 0
            &&& out_channel(TextureFormat::RG88, w, h, d, i, 3) == 255
        },
        2 * i + 2 <= d.len() ==> {
            let px = d[2 * i] as int + 256 * d[2 * i + 1] as int;
            &&& out_channel(TextureFormat::RGB565, w, h, d, i, 0) == (px / 2048) * 8
            &&& out_channel(TextureFormat::RGB565, w, h, d, i, 1) == ((px / 32) % 64) * 4
            &&& out_channel(TextureFormat::RGB565, w, h, d, i, 2) == (px % 32) * 8
            &&& out_channel(TextureFormat::RGB565, w, h, d, i, 3) == 255
        },
        3 * i + 3 > d.len() ==> forall|c: int|
            0 <= c < 4 ==> #[trigger] out_channel(TextureFormat::RGB888, w, h, d, i, c) == 0,
        4 * i + 4 > d.len() ==> forall|c: int|
            0 <= c < 4 ==> #[trigger] out_channel(TextureFormat::ARGB8888, w, h, d, i, c) == 0,
{
    lemma_quad_index(i, 0);
    lemma_quad_index(i, 1);
    lemma_quad_index(i, 2);
    lemma_quad_index(i, 3);
    if 3 * i + 3 > d.len() {
        assert forall|c: int| 0 <= c < 4 implies #[trigger] out_channel(TextureFormat::RGB888, w, h, d, i, c)
            == 0 by {
            lemma_quad_index(i, c);
        }
    }
    if 4 * i + 4 > d.len() {
        assert forall|c: int| 0 <= c < 4 implies #[trigger] out_channel(TextureFormat::ARGB8888, w, h, d, i, c)
            == 0 by {
            lemma_quad_index(i, c);
        }
    }
}

/// Pixel `(x, y)` of a DXT5 image takes its alpha from the 16-byte block
/// that covers it: with endpoints `a0` and `a1` (the block's first two
/// bytes) and the pixel's 3-bit index (from the 48-bit little-endian field
/// that follows), index 0 gives `a0` and 1 gives `a1`; when `a0 > a1` the
/// others interpolate between them in sevenths, otherwise indices 2 to 5
/// interpolate in fifths, 6 gives 0 and 7 gives 255.
pub proof fn law_dxt5_alpha_palette(w: u32, h: u32, d: Seq<u8>, x: int, y: int)
    requires
        0 <= x < w,
        0 <= y < h,
        block_rank(w, x, y) * 16 + 16 <= d.len(),
    ensures
        ({
            let off = block_rank(w, x, y) * 16;
            let a0 = d[off] as int;
            let a1 = d[off + 1] as int;
            let bits = d[off + 2] as int + 256 * d[off + 3] as int + 65536 * d[off + 4] as int
                + 16777216 * d[off + 5] as int + 4294967296 * d[off + 6] as int + 1099511627776
                * d[off + 7] as int;
            let idx = (bits / pow8(((y % 4) * 4 + x % 4) as nat) as int) % 8;
            let alpha = spec_rgba(TextureFormat::DXT5, w, h, d)[4 * (y * w + x) + 3] as int;
            &&& idx == 0 ==> alpha == a0
            &&& idx == 1 ==> alpha == a1
            &&& a0 > a1 && 2 <= idx ==> alpha == ((8 - idx) * a0 + (idx - 1) * a1) / 7
            &&& a0 <= a1 && 2 <= idx <= 5 ==> alpha == ((6 - idx) * a0 + (idx - 1) * a1) / 5
            &&& a0 <= a1 && idx == 6 ==> alpha == 0
            &&& a0 <= a1 && idx == 7 ==> alpha == 255
        }),
{
    let wi = w as int;
    let p = y * wi + x;
    lemma_pix_bound(wi, h as int, x, y);
    assert(p % wi == x && p / wi == y) by (nonlinear_arith)
        requires
            p == y * wi + x,
            0 <= x < wi,
            0 <= y,
    ;
    lemma_quad_index(p, 3);
    let off = block_rank(w, x, y) * 16;
    let b = d.subrange(off, off + 16);
    assert(b[0] == d[off] && b[1] == d[off + 1] && b[2] == d[off + 2] && b[3] == d[off + 3] && b[4]
        == d[off + 4] && b[5] == d[off + 5] && b[6] == d[off + 6] && b[7] == d[off + 7]);
    let n = (y % 4) * 4 + x % 4;
    let idx = (dxt5_alpha_bits(b) / pow8(n as nat) as int) % 8;
    assert(0 <= idx < 8);
    let j = 4 * p + 3;
    assert(j < 4 * (wi * h as int));
    assert(spec_rgba(TextureFormat::DXT5, w, h, d)[j] == dxt_xy_channel(DxtKind::Dxt5, w, d, x, y, 3));
    assert(dxt_xy_channel(DxtKind::Dxt5, w, d, x, y, 3) == block_channel(DxtKind::Dxt5, b, n, 3));
    let a0 = b[0] as int;
    let a1 = b[1] as int;
    assert(block_channel(DxtKind::Dxt5, b, n, 3) == dxt5_alpha(a0, a1, idx));
    if a0 > a1 && 2 <= idx {
        assert(0 <= ((8 - idx) * a0 + (idx - 1) * a1) / 7 <= 255) by (nonlinear_arith)
            requires
                0 <= a0 <= 255,
                0 <= a1 <= 255,
                2 <= idx < 8,
        ;
    }
    if a0 <= a1 && 2 <= idx <= 5 {
        assert(0 <= ((6 - idx) * a0 + (idx - 1) * a1) / 5 <= 255) by (nonlinear_arith)
            requires
                0 <= a0 <= 255,
                0 <= a1 <= 255,
                2 <= idx <= 5,
        ;
    }
}

/// The 5- or 6-bit field of channel `c` (red, green, blue) of an RGB565
/// word, and the factor that widens it to 8 bits.
pub open spec fn rgb565_field(word: int, c: int) -> int {
    if c == 0 {
        word / 2048
    } else if c == 1 {
        (word / 32) % 64
    } else {
        word % 32
    }
}

pub open spec fn rgb565_scale(c: int) -> int {
    if c == 1 {
        4
    } else {
        8
    }
}

/// DXT1 blocks decode by their palette: for a pixel `(x, y)` of a `w` x
/// `h` image whose 8-byte block is present, with endpoint words `c0`, `c1`
/// (bytes 0-1 and 2-3, little-endian) and the pixel's 2-bit index from the
/// little-endian word at bytes 4-7, index 0 and 1 give the endpoints
/// widened to 8 bits by bit replication; when `c0 > c1` indices 2 and 3 are
/// the colours at one and two thirds, otherwise index 2 is the midpoint and
/// index 3 is transparent black. Every other pixel is opaque.
pub proof fn law_dxt1_palette(w: u32, h: u32, d: Seq<u8>, x: int, y: int, c: int)
    requires
        0 <= x < w,
        0 <= y < h,
        0 <= c < 3,
        block_rank(w, x, y) * 8 + 8 <= d.len(),
    ensures
        ({
            let off = block_rank(w, x, y) * 8;
            let c0 = d[off] as int + 256 * d[off + 1] as int;
            let c1 = d[off + 2] as int + 256 * d[off + 3] as int;
            let word = d[off + 4] as int + 256 * d[off + 5] as int + 65536 * d[off + 6] as int
                + 16777216 * d[off + 7] as int;
            let idx = (word / pow4(((y % 4) * 4 + x % 4) as nat) as int) % 4;
            let v0 = rgb565_field(c0, c);
            let v1 = rgb565_field(c1, c);
            let sc = rgb565_scale(c);
            let rep = if c == 1 { 16int } else { 4int };
            let out = spec_rgba(TextureFormat::DXT1, w, h, d)[4 * (y * w + x) + c] as int;
            let alpha = spec_rgba(TextureFormat::DXT1, w, h, d)[4 * (y * w + x) + 3] as int;
            &&& idx == 0 ==> out == v0 * sc + v0 / rep
            &&& idx == 1 ==> out == v1 * sc + v1 / rep
            &&& c0 > c1 && idx == 2 ==> out == ((2 * v0 + v1) / 3) * sc
            &&& c0 > c1 && idx == 3 ==> out == ((v0 + 2 * v1) / 3) * sc
            &&& c0 <= c1 && idx == 2 ==> out == ((v0 + v1) / 2) * sc
            &&& c0 <= c1 && idx == 3 ==> out == 0 && alpha == 0
            &&& !(c0 <= c1 && idx == 3) ==> alpha == 255
        }),
{
    let wi = w as int;
    let p = y * wi + x;
    lemma_pix_bound(wi, h as int, x, y);
    assert(p % wi == x && p / wi == y) by (nonlinear_arith)
        requires
            p == y * wi + x,
            0 <= x < wi,
            0 <= y,
    ;
    lemma_quad_index(p, c);
    lemma_quad_index(p, 3);
    let off = block_rank(w, x, y) * 8;
    let b = d.subrange(off, off + 8);
    assert(b[0] == d[off] && b[1] == d[off + 1] && b[2] == d[off + 2] && b[3] == d[off + 3] && b[4]
        == d[off + 4] && b[5] == d[off + 5] && b[6] == d[off + 6] && b[7] == d[off + 7]);
    let n = (y % 4) * 4 + x % 4;
    let idx = colour_index(b, 0, n);
    assert(4 * p + c < 4 * (wi * h as int) && 4 * p + 3 < 4 * (wi * h as int));
    assert(spec_rgba(TextureFormat::DXT1, w, h, d)[4 * p + c] == block_channel(DxtKind::Dxt1, b, n, c));
    assert(spec_rgba(TextureFormat::DXT1, w, h, d)[4 * p + 3] == block_channel(DxtKind::Dxt1, b, n, 3));
    assert(block_channel(DxtKind::Dxt1, b, n, c) == palette_rgb(b, 0, idx, c, true));
}

/// DXT3 and DXT5 blocks carry their colours in bytes 8-15 and always use
/// the four-colour palette: index 0 and 1 are the endpoints widened to 8
/// bits, 2 and 3 the colours at one and two thirds between them, whatever
/// the order of the endpoint words.
pub proof fn law_dxt_four_colour_palette(
    f: TextureFormat,
    w: u32,
    h: u32,
    d: Seq<u8>,
    x: int,
    y: int,
    c: int,
)
    requires
        f == TextureFormat::DXT3 || f == TextureFormat::DXT5,
        0 <= x < w,
        0 <= y < h,
        0 <= c < 3,
        block_rank(w, x, y) * 16 + 16 <= d.len(),
    ensures
        ({
            let off = block_rank(w, x, y) * 16 + 8;
            let c0 = d[off] as int + 256 * d[off + 1] as int;
            let c1 = d[off + 2] as int + 256 * d[off + 3] as int;
            let word = d[off + 4] as int + 256 * d[off + 5] as int + 65536 * d[off + 6] as int
                + 16777216 * d[off + 7] as int;
            let idx = (word / pow4(((y % 4) * 4 + x % 4) as nat) as int) % 4;
            let v0 = rgb565_field(c0, c);
            let v1 = rgb565_field(c1, c);
            let sc = rgb565_scale(c);
            let rep = if c == 1 { 16int } else { 4int };
            let out = spec_rgba(f, w, h, d)[4 * (y * w + x) + c] as int;
            &&& idx == 0 ==> out == v0 * sc + v0 / rep
            &&& idx == 1 ==> out == v1 * sc + v1 / rep
            &&& idx == 2 ==> out == ((2 * v0 + v1) / 3) * sc
            &&& idx == 3 ==> out == ((v0 + 2 * v1) / 3) * sc
        }),
{
    let kind = if f == TextureFormat::DXT3 { DxtKind::Dxt3 } else { DxtKind::Dxt5 };
    let wi = w as int;
    let p = y * wi + x;
    lemma_pix_bound(wi, h as int, x, y);
    assert(p % wi == x && p / wi == y) by (nonlinear_arith)
        requires
            p == y * wi + x,
            0 <= x < wi,
            0 <= y,
    ;
    lemma_quad_index(p, c);
    let off = block_rank(w, x, y) * 16;
    let b = d.subrange(off, off + 16);
    assert(b[8] == d[off + 8] && b[9] == d[off + 9] && b[10] == d[off + 10] && b[11] == d[off + 11]
        && b[12] == d[off + 12] && b[13] == d[off + 13] && b[14] == d[off + 14] && b[15] == d[off
        + 15]);
    let n = (y % 4) * 4 + x % 4;
    let idx = colour_index(b, 8, n);
    assert(4 * p + c < 4 * (wi * h as int));
    assert(spec_rgba(f, w, h, d)[4 * p + c] == block_channel(kind, b, n, c));
    assert(block_channel(kind, b, n, c) == palette_rgb(b, 8, idx, c, false));
}

/// DXT3 alpha is explicit: the first 8 bytes of a block hold one 4-bit
/// value per pixel, two to a byte (the even column in the low nibble), and
/// the nibble `a` becomes the 8-bit alpha `17 * a`.
pub proof fn law_dxt3_explicit_alpha(w: u32, h: u32, d: Seq<u8>, x: int, y: int)
    requires
        0 <= x < w,
        0 <= y < h,
        block_rank(w, x, y) * 16 + 16 <= d.len(),
    ensures
        ({
            let byte = d[block_rank(w, x, y) * 16 + (y % 4) * 2 + (x % 4) / 2] as int;
            let nibble = if x % 2 == 0 { byte % 16 } else { byte / 16 };
            spec_rgba(TextureFormat::DXT3, w, h, d)[4 * (y * w + x) + 3] as int == 17 * nibble
        }),
{
    let wi = w as int;
    let p = y * wi + x;
    lemma_pix_bound(wi, h as int, x, y);
    assert(p % wi == x && p / wi == y) by (nonlinear_arith)
        requires
            p == y * wi + x,
            0 <= x < wi,
            0 <= y,
    ;
    lemma_quad_index(p, 3);
    let off = block_rank(w, x, y) * 16;
    let b = d.subrange(off, off + 16);
    let n = (y % 4) * 4 + x % 4;
    assert(n / 2 == (y % 4) * 2 + (x % 4) / 2);
    assert(n % 2 == x % 2);
    assert(b[n / 2] == d[off + (y % 4) * 2 + (x % 4) / 2]);
    assert(4 * p + 3 < 4 * (wi * h as int));
    assert(spec_rgba(TextureFormat::DXT3, w, h, d)[4 * p + 3] == block_channel(DxtKind::Dxt3, b, n, 3));
}

} // verus!
