//! HDR classification of video streams and tone-mapping settings.

use vstd::prelude::*;
use crate::text::{all_ascii, ascii_lower, str_equals, to_lowercase, unicode_lowercase};

verus! {

/// Colour space of video content.
#[derive(Debug, Clone, Copy, PartialEq, Eq, Structural)]
pub enum ColorSpace {
    /// Standard dynamic range (BT.709).
    Sdr,
    /// High dynamic range (BT.2020).
    Hdr10,
    /// Hybrid log-gamma.
    Hlg,
    /// Dolby Vision.
    DolbyVision,
    /// Unknown or unsupported.
    Unknown,
}

impl ColorSpace {
    /// Whether this is an HDR colour space.
    pub fn is_hdr(&self) -> (b: bool)
        ensures
            b <==> (*self == ColorSpace::Hdr10 || *self == ColorSpace::Hlg || *self
                == ColorSpace::DolbyVision),
    {
        match self {
            ColorSpace::Hdr10 => true,
            ColorSpace::Hlg => true,
            ColorSpace::DolbyVision => true,
            _ => false,
        }
    }
}

/// Transfer function (EOTF).
#[derive(Debug, Clone, Copy, PartialEq, Eq, Structural)]
pub enum TransferFunction {
    /// sRGB / BT.709.
    Srgb,
    /// Perceptual quantizer (HDR10).
    Pq,
    /// Hybrid log-gamma.
    Hlg,
    /// Unknown or unsupported.
    Unknown,
}

impl TransferFunction {
    /// Whether this is an HDR transfer function.
    pub fn is_hdr(&self) -> (b: bool)
        ensures
            b <==> (*self == TransferFunction::Pq || *self == TransferFunction::Hlg),
    {
        match self {
            TransferFunction::Pq => true,
            TransferFunction::Hlg => true,
            _ => false,
        }
    }
}

/// HDR metadata of a video stream. Luminances are in nits and held as the
/// bit patterns of `f64` values: the library only carries them.
#[derive(Debug)]
pub struct HdrMetadata {
    pub color_space: ColorSpace,
    pub transfer_function: TransferFunction,
    /// Colour primaries ("bt.709", "bt.2020", ...).
    pub primaries: String,
    pub peak_luminance_bits: Option<u64>,
    pub avg_luminance_bits: Option<u64>,
    pub min_luminance_bits: Option<u64>,
}

pub open spec fn spec_colorspace_is_hdr(c: ColorSpace) -> bool {
    c == ColorSpace::Hdr10 || c == ColorSpace::Hlg || c == ColorSpace::DolbyVision
}

pub open spec fn spec_transfer_is_hdr(t: TransferFunction) -> bool {
    t == TransferFunction::Pq || t == TransferFunction::Hlg
}

/// Description of the HDR format of a stream.
pub open spec fn spec_format_description(c: ColorSpace, t: TransferFunction) -> Seq<char> {
    if !spec_colorspace_is_hdr(c) && !spec_transfer_is_hdr(t) {
        "SDR"@
    } else if c == ColorSpace::Hdr10 && t == TransferFunction::Pq {
        "HDR10"@
    } else if c == ColorSpace::Hlg && t == TransferFunction::Hlg {
        "HLG"@
    } else if c == ColorSpace::DolbyVision {
        "Dolby Vision"@
    } else {
        "HDR (Unknown)"@
    }
}

impl HdrMetadata {
    /// Whether the stream holds HDR content: its colour space or its
    /// transfer function is HDR.
    pub fn is_hdr(&self) -> (b: bool)
        ensures
            b == (spec_colorspace_is_hdr(self.color_space) || spec_transfer_is_hdr(
                self.transfer_function,
            )),
    {
        self.color_space.is_hdr() || self.transfer_function.is_hdr()
    }

    /// Human-readable name of the HDR format.
    pub fn format_description(&self) -> (s: String)
        ensures
            s@ == spec_format_description(self.color_space, self.transfer_function),
    {
        if !self.is_hdr() {
            return String::from_str("SDR");
        }
        match (self.color_space, self.transfer_function) {
            (ColorSpace::Hdr10, TransferFunction::Pq) => String::from_str("HDR10"),
            (ColorSpace::Hlg, TransferFunction::Hlg) => String::from_str("HLG"),
            (ColorSpace::DolbyVision, _) => String::from_str("Dolby Vision"),
            _ => String::from_str("HDR (Unknown)"),
        }
    }
}

/// The colour space that an already lowercased MPV `colorspace` value
/// names.
pub open spec fn spec_colorspace_of(v: Seq<char>) -> ColorSpace {
    if v == "bt.709"@ || v == "srgb"@ {
        ColorSpace::Sdr
    } else if v == "bt.2020-ncl"@ || v == "bt.2020-cl"@ || v == "bt2020"@ {
        ColorSpace::Hdr10
    } else {
        ColorSpace::Unknown
    }
}

/// The transfer function that an already lowercased MPV `gamma` value
/// names.
pub open spec fn spec_transfer_of(v: Seq<char>) -> TransferFunction {
    if v == "srgb"@ || v == "bt.1886"@ || v == "bt.709"@ {
        TransferFunction::Srgb
    } else if v == "pq"@ || v == "smpte2084"@ || v == "st2084"@ {
        TransferFunction::Pq
    } else if v == "hlg"@ || v == "arib-std-b67"@ {
        TransferFunction::Hlg
    } else {
        TransferFunction::Unknown
    }
}

/// The colour space named by a lowercased MPV value.
pub fn colorspace_of_lowercase(v: &str) -> (c: ColorSpace)
    ensures
        c == spec_colorspace_of(v@),
{
    if str_equals(v, "bt.709") || str_equals(v, "srgb") {
        ColorSpace::Sdr
    } else if str_equals(v, "bt.2020-ncl") || str_equals(v, "bt.2020-cl") || str_equals(v, "bt2020") {
        ColorSpace::Hdr10
    } else {
        ColorSpace::Unknown
    }
}

/// The transfer function named by a lowercased MPV value.
pub fn transfer_function_of_lowercase(v: &str) -> (t: TransferFunction)
    ensures
        t == spec_transfer_of(v@),
{
    if str_equals(v, "srgb") || str_equals(v, "bt.1886") || str_equals(v, "bt.709") {
        TransferFunction::Srgb
    } else if str_equals(v, "pq") || str_equals(v, "smpte2084") || str_equals(v, "st2084") {
        TransferFunction::Pq
    } else if str_equals(v, "hlg") || str_equals(v, "arib-std-b67") {
        TransferFunction::Hlg
    } else {
        TransferFunction::Unknown
    }
}

/// Parse an MPV `colorspace` property, ignoring case.
pub fn parse_colorspace(value: &str) -> (c: ColorSpace)
    ensures
        c == spec_colorspace_of(unicode_lowercase(value@)),
        all_ascii(value@) ==> c == spec_colorspace_of(ascii_lower(value@)),
{
    let lowered = to_lowercase(value);
    colorspace_of_lowercase(lowered.as_str())
}

/// Parse an MPV `gamma` (transfer) property, ignoring case.
pub fn parse_transfer_function(value: &str) -> (t: TransferFunction)
    ensures
        t == spec_transfer_of(unicode_lowercase(value@)),
        all_ascii(value@) ==> t == spec_transfer_of(ascii_lower(value@)),
{
    let lowered = to_lowercase(value);
    transfer_function_of_lowercase(lowered.as_str())
}

/// HDR handling mode.
#[derive(Debug, Clone, Copy, PartialEq, Eq, Structural)]
pub enum HdrMode {
    /// Detect and handle HDR automatically.
    Auto,
    /// Always process as HDR.
    Force,
    /// Never process as HDR.
    Disable,
}

impl Default for HdrMode {
    fn default() -> (m: Self)
        ensures
            m == HdrMode::Auto,
    {
        HdrMode::Auto
    }
}

/// Tone-mapping algorithm.
#[derive(Debug, Clone, Copy, PartialEq, Eq, Structural)]
pub enum ToneMappingAlgorithm {
    /// Hable (Uncharted 2).
    Hable,
    /// Mobius.
    Mobius,
    /// Reinhard.
    Reinhard,
    /// BT.2390 EETF.
    Bt2390,
    /// No tone mapping.
    Clip,
}

impl Default for ToneMappingAlgorithm {
    fn default() -> (a: Self)
        ensures
            a == ToneMappingAlgorithm::Hable,
    {
        ToneMappingAlgorithm::Hable
    }
}

/// The MPV option value of an algorithm.
pub open spec fn spec_mpv_name(a: ToneMappingAlgorithm) -> Seq<char> {
    match a {
        ToneMappingAlgorithm::Hable => "hable"@,
        ToneMappingAlgorithm::Mobius => "mobius"@,
        ToneMappingAlgorithm::Reinhard => "reinhard"@,
        ToneMappingAlgorithm::Bt2390 => "bt.2390"@,
        ToneMappingAlgorithm::Clip => "clip"@,
    }
}

impl ToneMappingAlgorithm {
    /// The value MPV's `tone-mapping` option takes for this algorithm.
    pub fn as_mpv_str(&self) -> (s: &'static str)
        ensures
            s@ == spec_mpv_name(*self),
    {
        match self {
            ToneMappingAlgorithm::Hable => "hable",
            ToneMappingAlgorithm::Mobius => "mobius",
            ToneMappingAlgorithm::Reinhard => "reinhard",
            ToneMappingAlgorithm::Bt2390 => "bt.2390",
            ToneMappingAlgorithm::Clip => "clip",
        }
    }
}

/// Dynamic peak detection is on unless configured otherwise.
pub fn default_compute_peak() -> (b: bool)
    ensures
        b,
{
    true
}

/// The tone-mapping mode used unless configured otherwise: "hybrid".
pub fn default_tone_mapping_mode() -> (s: String)
    ensures
        s@ == "hybrid"@,
{
    String::from_str("hybrid")
}


/// Parsing ignores the case of ASCII text: two ASCII values that differ
/// only in the case of their letters name the same colour space and the
/// same transfer function.
pub proof fn law_parsing_ignores_ascii_case(v: Seq<char>, w: Seq<char>)
    requires
        ascii_lower(v) == ascii_lower(w),
    ensures
        spec_colorspace_of(ascii_lower(v)) == spec_colorspace_of(ascii_lower(w)),
        spec_transfer_of(ascii_lower(v)) == spec_transfer_of(ascii_lower(w)),
{
}

/// The MPV transfer names, read without regard to ASCII case: "hlg" and
/// "arib-std-b67" are hybrid log-gamma; "pq", "smpte2084" and "st2084" are
/// PQ; "srgb", "bt.1886" and "bt.709" are sRGB; every other value is
/// unknown. So a transfer is HDR exactly when it is one of the PQ or HLG
/// names.
pub proof fn law_transfer_names(v: Seq<char>)
    ensures
        ({
            let w = ascii_lower(v);
            &&& (spec_transfer_of(w) == TransferFunction::Hlg <==> (w == "hlg"@ || w
                == "arib-std-b67"@))
            &&& (spec_transfer_of(w) == TransferFunction::Pq <==> (w == "pq"@ || w == "smpte2084"@
                || w == "st2084"@))
            &&& (spec_transfer_of(w) == TransferFunction::Srgb <==> (w == "srgb"@ || w
                == "bt.1886"@ || w == "bt.709"@))
            &&& (spec_transfer_is_hdr(spec_transfer_of(w)) <==> (w == "pq"@ || w == "smpte2084"@
                || w == "st2084"@ || w == "hlg"@ || w == "arib-std-b67"@))
        }),
{
    reveal_strlit("hlg");
    reveal_strlit("arib-std-b67");
    reveal_strlit("pq");
    reveal_strlit("smpte2084");
    reveal_strlit("st2084");
    reveal_strlit("srgb");
    reveal_strlit("bt.1886");
    reveal_strlit("bt.709");
    assert("hlg"@.len() == 3 && "arib-std-b67"@.len() == 12 && "pq"@.len() == 2);
    assert("smpte2084"@.len() == 9 && "st2084"@.len() == 6 && "srgb"@.len() == 4);
    assert("bt.1886"@.len() == 7 && "bt.709"@.len() == 6);
    assert("bt.709"@[0] != "st2084"@[0]);
}

/// The MPV colour-space names, read without regard to ASCII case:
/// "bt.709" and "srgb" are SDR; "bt.2020-ncl", "bt.2020-cl" and "bt2020"
/// are HDR10; every other value is unknown, and no value names HLG or
/// Dolby Vision.
pub proof fn law_colorspace_names(v: Seq<char>)
    ensures
        ({
            let w = ascii_lower(v);
            &&& (spec_colorspace_of(w) == ColorSpace::Sdr <==> (w == "bt.709"@ || w == "srgb"@))
            &&& (spec_colorspace_of(w) == ColorSpace::Hdr10 <==> (w == "bt.2020-ncl"@ || w
                == "bt.2020-cl"@ || w == "bt2020"@))
            &&& spec_colorspace_of(w) != ColorSpace::Hlg
            &&& spec_colorspace_of(w) != ColorSpace::DolbyVision
        }),
{
    reveal_strlit("bt.709");
    reveal_strlit("srgb");
    reveal_strlit("bt.2020-ncl");
    reveal_strlit("bt.2020-cl");
    reveal_strlit("bt2020");
    assert("bt.709"@.len() == 6 && "srgb"@.len() == 4 && "bt.2020-ncl"@.len() == 11);
    assert("bt.2020-cl"@.len() == 10 && "bt2020"@.len() == 6);
    assert("bt.709"@[2] != "bt2020"@[2]);
}

} // verus!
