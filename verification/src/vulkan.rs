//! Vulkan decisions that need no driver: the embedded shaders, the
//! instance's extensions and layers, queue family and device choice, and
//! the swapchain settings chosen from what the surface supports. Vulkan
//! enumerations are given by their raw values.

use vstd::prelude::*;
use crate::text::{decimal, push_char, push_decimal, str_equals};

verus! {

// ---------------------------------------------------------------------
// Shaders
// ---------------------------------------------------------------------

/// Words of the vertex shader (a full-screen quad with texture
/// coordinates).
pub open spec fn spec_vertex_words() -> Seq<u32> {
    seq![
        0x07230203u32, 0x00010000u32, 0x000d000bu32, 0x00000024u32, 0x00000000u32, 0x00020011u32,
        0x00000001u32, 0x0003000eu32, 0x00000000u32, 0x00000001u32, 0x000f0003u32, 0x00000000u32,
        0x00000004u32, 0x6e69616du32, 0x00000000u32, 0x00000009u32, 0x0000000du32, 0x0000001au32,
        0x00030003u32, 0x00000002u32, 0x000001c2u32, 0x00040005u32, 0x00000004u32, 0x6e69616du32,
        0x00000000u32, 0x00020013u32, 0x00000002u32, 0x00030021u32, 0x00000003u32, 0x00000002u32,
        0x00040015u32, 0x00000006u32, 0x00000020u32, 0x00000001u32, 0x0004002bu32, 0x00000006u32,
        0x00000007u32, 0x00000000u32, 0x00040020u32, 0x00000008u32, 0x00000001u32, 0x00000006u32,
        0x0004003bu32, 0x00000008u32, 0x00000009u32, 0x00000001u32, 0x00040047u32, 0x00000009u32,
        0x0000000bu32, 0x0000002au32, 0x00040047u32, 0x0000000du32, 0x0000000bu32, 0x00000000u32,
        0x00040047u32, 0x0000001au32, 0x0000001eu32, 0x00000000u32, 0x00030016u32, 0x0000000au32,
        0x00000020u32, 0x00040017u32, 0x0000000bu32, 0x0000000au32, 0x00000004u32, 0x00040020u32,
        0x0000000cu32, 0x00000003u32, 0x0000000bu32, 0x0004003bu32, 0x0000000cu32, 0x0000000du32,
        0x00000003u32, 0x00040017u32, 0x00000018u32, 0x0000000au32, 0x00000002u32, 0x00040020u32,
        0x00000019u32, 0x00000003u32, 0x00000018u32, 0x0004003bu32, 0x00000019u32, 0x0000001au32,
        0x00000003u32, 0x0004002bu32, 0x0000000au32, 0x0000000eu32, 0xbf800000u32, 0x0004002bu32,
        0x0000000au32, 0x0000000fu32, 0x3f800000u32, 0x0004002bu32, 0x0000000au32, 0x00000010u32,
        0x00000000u32, 0x00050036u32, 0x00000002u32, 0x00000004u32, 0x00000000u32, 0x00000003u32,
        0x000200f8u32, 0x00000005u32, 0x0004003du32, 0x00000006u32, 0x00000011u32, 0x00000009u32,
        0x00050051u32, 0x0000000au32, 0x00000012u32, 0x0000000eu32, 0x00000000u32, 0x00050051u32,
        0x0000000au32, 0x00000013u32, 0x0000000eu32, 0x00000001u32, 0x00070050u32, 0x0000000bu32,
        0x00000014u32, 0x00000012u32, 0x00000013u32, 0x00000010u32, 0x0000000fu32, 0x0003003eu32,
        0x0000000du32, 0x00000014u32, 0x00050050u32, 0x00000018u32, 0x00000015u32, 0x00000010u32,
        0x00000010u32, 0x0003003eu32, 0x0000001au32, 0x00000015u32, 0x000100fdu32, 0x00010038u32,
    ]
}

/// Words of the fragment shader: it samples the texture bound at set 0,
/// binding 0 at the interpolated coordinate (input location 0) and writes
/// the colour with its alpha multiplied by the `alpha` push constant
/// (offset 64 of a block that starts with a 4x4 transform) to output
/// location 0.
pub open spec fn spec_fragment_words() -> Seq<u32> {
    seq![
        0x07230203u32, 0x00010000u32, 0x00000000u32, 0x00000020u32, 0x00000000u32, 0x00020011u32,
        0x00000001u32, 0x0003000eu32, 0x00000000u32, 0x00000001u32, 0x0007000fu32, 0x00000004u32,
        0x00000001u32, 0x6e69616du32, 0x00000000u32, 0x00000002u32, 0x00000003u32, 0x00030010u32,
        0x00000001u32, 0x00000007u32, 0x00040047u32, 0x00000002u32, 0x0000001eu32, 0x00000000u32,
        0x00040047u32, 0x00000003u32, 0x0000001eu32, 0x00000000u32, 0x00040047u32, 0x00000004u32,
        0x00000022u32, 0x00000000u32, 0x00040047u32, 0x00000004u32, 0x00000021u32, 0x00000000u32,
        0x00030047u32, 0x00000005u32, 0x00000002u32, 0x00040048u32, 0x00000005u32, 0x00000000u32,
        0x00000005u32, 0x00050048u32, 0x00000005u32, 0x00000000u32, 0x00000023u32, 0x00000000u32,
        0x00050048u32, 0x00000005u32, 0x00000000u32, 0x00000007u32, 0x00000010u32, 0x00050048u32,
        0x00000005u32, 0x00000001u32, 0x00000023u32, 0x00000040u32, 0x00050048u32, 0x00000005u32,
        0x00000002u32, 0x00000023u32, 0x00000050u32, 0x00020013u32, 0x00000007u32, 0x00030021u32,
        0x00000008u32, 0x00000007u32, 0x00030016u32, 0x00000009u32, 0x00000020u32, 0x00040017u32,
        0x0000000au32, 0x00000009u32, 0x00000002u32, 0x00040017u32, 0x0000000bu32, 0x00000009u32,
        0x00000003u32, 0x00040017u32, 0x0000000cu32, 0x00000009u32, 0x00000004u32, 0x00040018u32,
        0x0000000du32, 0x0000000cu32, 0x00000004u32, 0x0005001eu32, 0x00000005u32, 0x0000000du32,
        0x00000009u32, 0x0000000bu32, 0x00040020u32, 0x0000000eu32, 0x00000009u32, 0x00000005u32,
        0x0004003bu32, 0x0000000eu32, 0x00000006u32, 0x00000009u32, 0x00090019u32, 0x0000000fu32,
        0x00000009u32, 0x00000001u32, 0x00000000u32, 0x00000000u32, 0x00000000u32, 0x00000001u32,
        0x00000000u32, 0x0003001bu32, 0x00000010u32, 0x0000000fu32, 0x00040020u32, 0x00000011u32,
        0x00000000u32, 0x00000010u32, 0x0004003bu32, 0x00000011u32, 0x00000004u32, 0x00000000u32,
        0x00040020u32, 0x00000012u32, 0x00000001u32, 0x0000000au32, 0x0004003bu32, 0x00000012u32,
        0x00000002u32, 0x00000001u32, 0x00040020u32, 0x00000013u32, 0x00000003u32, 0x0000000cu32,
        0x0004003bu32, 0x00000013u32, 0x00000003u32, 0x00000003u32, 0x00040015u32, 0x00000014u32,
        0x00000020u32, 0x00000001u32, 0x0004002bu32, 0x00000014u32, 0x00000015u32, 0x00000001u32,
        0x00040020u32, 0x00000016u32, 0x00000009u32, 0x00000009u32, 0x00050036u32, 0x00000007u32,
        0x00000001u32, 0x00000000u32, 0x00000008u32, 0x000200f8u32, 0x00000017u32, 0x0004003du32,
        0x00000010u32, 0x00000018u32, 0x00000004u32, 0x0004003du32, 0x0000000au32, 0x00000019u32,
        0x00000002u32, 0x00050057u32, 0x0000000cu32, 0x0000001au32, 0x00000018u32, 0x00000019u32,
        0x00050041u32, 0x00000016u32, 0x0000001bu32, 0x00000006u32, 0x00000015u32, 0x0004003du32,
        0x00000009u32, 0x0000001cu32, 0x0000001bu32, 0x00050051u32, 0x00000009u32, 0x0000001du32,
        0x0000001au32, 0x00000003u32, 0x00050085u32, 0x00000009u32, 0x0000001eu32, 0x0000001du32,
        0x0000001cu32, 0x00060052u32, 0x0000000cu32, 0x0000001fu32, 0x0000001eu32, 0x0000001au32,
        0x00000003u32, 0x0003003eu32, 0x00000003u32, 0x0000001fu32, 0x000100fdu32, 0x00010038u32,
    ]
}

/// SPIR-V of the vertex shader.
pub fn vertex_shader_spirv() -> (v: Vec<u32>)
    ensures
        v@ == spec_vertex_words(),
{
    let v: Vec<u32> = vec![
        0x07230203, 0x00010000, 0x000d000b, 0x00000024, 0x00000000, 0x00020011,
        0x00000001, 0x0003000e, 0x00000000, 0x00000001, 0x000f0003, 0x00000000,
        0x00000004, 0x6e69616d, 0x00000000, 0x00000009, 0x0000000d, 0x0000001a,
        0x00030003, 0x00000002, 0x000001c2, 0x00040005, 0x00000004, 0x6e69616d,
        0x00000000, 0x00020013, 0x00000002, 0x00030021, 0x00000003, 0x00000002,
        0x00040015, 0x00000006, 0x00000020, 0x00000001, 0x0004002b, 0x00000006,
        0x00000007, 0x00000000, 0x00040020, 0x00000008, 0x00000001, 0x00000006,
        0x0004003b, 0x00000008, 0x00000009, 0x00000001, 0x00040047, 0x00000009,
        0x0000000b, 0x0000002a, 0x00040047, 0x0000000d, 0x0000000b, 0x00000000,
        0x00040047, 0x0000001a, 0x0000001e, 0x00000000, 0x00030016, 0x0000000a,
        0x00000020, 0x00040017, 0x0000000b, 0x0000000a, 0x00000004, 0x00040020,
        0x0000000c, 0x00000003, 0x0000000b, 0x0004003b, 0x0000000c, 0x0000000d,
        0x00000003, 0x00040017, 0x00000018, 0x0000000a, 0x00000002, 0x00040020,
        0x00000019, 0x00000003, 0x00000018, 0x0004003b, 0x00000019, 0x0000001a,
        0x00000003, 0x0004002b, 0x0000000a, 0x0000000e, 0xbf800000, 0x0004002b,
        0x0000000a, 0x0000000f, 0x3f800000, 0x0004002b, 0x0000000a, 0x00000010,
        0x00000000, 0x00050036, 0x00000002, 0x00000004, 0x00000000, 0x00000003,
        0x000200f8, 0x00000005, 0x0004003d, 0x00000006, 0x00000011, 0x00000009,
        0x00050051, 0x0000000a, 0x00000012, 0x0000000e, 0x00000000, 0x00050051,
        0x0000000a, 0x00000013, 0x0000000e, 0x00000001, 0x00070050, 0x0000000b,
        0x00000014, 0x00000012, 0x00000013, 0x00000010, 0x0000000f, 0x0003003e,
        0x0000000d, 0x00000014, 0x00050050, 0x00000018, 0x00000015, 0x00000010,
        0x00000010, 0x0003003e, 0x0000001a, 0x00000015, 0x000100fd, 0x00010038,
    ];
    assert(v@ =~= spec_vertex_words());
    v
}

/// SPIR-V of the fragment shader.
pub fn fragment_shader_spirv() -> (v: Vec<u32>)
    ensures
        v@ == spec_fragment_words(),
{
    let v: Vec<u32> = vec![
        0x07230203, 0x00010000, 0x00000000, 0x00000020, 0x00000000, 0x00020011,
        0x00000001, 0x0003000e, 0x00000000, 0x00000001, 0x0007000f, 0x00000004,
        0x00000001, 0x6e69616d, 0x00000000, 0x00000002, 0x00000003, 0x00030010,
        0x00000001, 0x00000007, 0x00040047, 0x00000002, 0x0000001e, 0x00000000,
        0x00040047, 0x00000003, 0x0000001e, 0x00000000, 0x00040047, 0x00000004,
        0x00000022, 0x00000000, 0x00040047, 0x00000004, 0x00000021, 0x00000000,
        0x00030047, 0x00000005, 0x00000002, 0x00040048, 0x00000005, 0x00000000,
        0x00000005, 0x00050048, 0x00000005, 0x00000000, 0x00000023, 0x00000000,
        0x00050048, 0x00000005, 0x00000000, 0x00000007, 0x00000010, 0x00050048,
        0x00000005, 0x00000001, 0x00000023, 0x00000040, 0x00050048, 0x00000005,
        0x00000002, 0x00000023, 0x00000050, 0x00020013, 0x00000007, 0x00030021,
        0x00000008, 0x00000007, 0x00030016, 0x00000009, 0x00000020, 0x00040017,
        0x0000000a, 0x00000009, 0x00000002, 0x00040017, 0x0000000b, 0x00000009,
        0x00000003, 0x00040017, 0x0000000c, 0x00000009, 0x00000004, 0x00040018,
        0x0000000d, 0x0000000c, 0x00000004, 0x0005001e, 0x00000005, 0x0000000d,
        0x00000009, 0x0000000b, 0x00040020, 0x0000000e, 0x00000009, 0x00000005,
        0x0004003b, 0x0000000e, 0x00000006, 0x00000009, 0x00090019, 0x0000000f,
        0x00000009, 0x00000001, 0x00000000, 0x00000000, 0x00000000, 0x00000001,
        0x00000000, 0x0003001b, 0x00000010, 0x0000000f, 0x00040020, 0x00000011,
        0x00000000, 0x00000010, 0x0004003b, 0x00000011, 0x00000004, 0x00000000,
        0x00040020, 0x00000012, 0x00000001, 0x0000000a, 0x0004003b, 0x00000012,
        0x00000002, 0x00000001, 0x00040020, 0x00000013, 0x00000003, 0x0000000c,
        0x0004003b, 0x00000013, 0x00000003, 0x00000003, 0x00040015, 0x00000014,
        0x00000020, 0x00000001, 0x0004002b, 0x00000014, 0x00000015, 0x00000001,
        0x00040020, 0x00000016, 0x00000009, 0x00000009, 0x00050036, 0x00000007,
        0x00000001, 0x00000000, 0x00000008, 0x000200f8, 0x00000017, 0x0004003d,
        0x00000010, 0x00000018, 0x00000004, 0x0004003d, 0x0000000a, 0x00000019,
        0x00000002, 0x00050057, 0x0000000c, 0x0000001a, 0x00000018, 0x00000019,
        0x00050041, 0x00000016, 0x0000001b, 0x00000006, 0x00000015, 0x0004003d,
        0x00000009, 0x0000001c, 0x0000001b, 0x00050051, 0x00000009, 0x0000001d,
        0x0000001a, 0x00000003, 0x00050085, 0x00000009, 0x0000001e, 0x0000001d,
        0x0000001c, 0x00060052, 0x0000000c, 0x0000001f, 0x0000001e, 0x0000001a,
        0x00000003, 0x0003003e, 0x00000003, 0x0000001f, 0x000100fd, 0x00010038,
    ];
    assert(v@ =~= spec_fragment_words());
    v
}

/// Byte `k` (0 lowest) of a word.
pub open spec fn word_byte(w: u32, k: int) -> u8 {
    if k == 0 {
        (w % 256) as u8
    } else if k == 1 {
        ((w / 256) % 256) as u8
    } else if k == 2 {
        ((w / 65536) % 256) as u8
    } else {
        (w / 16777216) as u8
    }
}

/// SPIR-V words as bytes, each word little-endian.
pub fn spirv_to_bytes(spirv: &[u32]) -> (b: Vec<u8>)
    requires
        4 * spirv@.len() <= usize::MAX,
    ensures
        b@.len() == 4 * spirv@.len(),
        forall|i: int, k: int| 0 <= i < spirv@.len() && 0 <= k < 4 ==> #[trigger] b@[4 * i + k] == word_byte(spirv@[i], k),
{
    let mut b: Vec<u8> = Vec::new();
    let mut i: usize = 0;
    while i < spirv.len()
        invariant
            i <= spirv@.len(),
            b@.len() == 4 * i,
            forall|j: int, k: int| 0 <= j < i && 0 <= k < 4 ==> #[trigger] b@[4 * j + k] == word_byte(spirv@[j], k),
        decreases spirv@.len() - i,
    {
        let w = spirv[i];
        b.push((w % 256) as u8);
        b.push(((w / 256) % 256) as u8);
        b.push(((w / 65536) % 256) as u8);
        b.push((w / 16777216) as u8);
        i = i + 1;
    }
    b
}


// ---------------------------------------------------------------------
// Devices
// ---------------------------------------------------------------------

/// Queue family indices.
#[derive(Debug, Clone, Copy, PartialEq, Eq, Structural)]
pub struct QueueFamilyIndices {
    /// Family with graphics support.
    pub graphics: Option<u32>,
    /// Family used for presenting (the graphics family here).
    pub present: Option<u32>,
}

impl Default for QueueFamilyIndices {
    fn default() -> (q: Self)
        ensures
            q.graphics is None && q.present is None,
    {
        QueueFamilyIndices { graphics: None, present: None }
    }
}

impl QueueFamilyIndices {
    /// Whether every required family was found.
    pub fn is_complete(&self) -> (b: bool)
        ensures
            b == (self.graphics is Some && self.present is Some),
    {
        self.graphics.is_some() && self.present.is_some()
    }
}

/// `VK_QUEUE_GRAPHICS_BIT`.
pub open spec fn graphics_bit() -> u32 {
    1
}

/// Index of the first family whose flags hold the graphics bit.
pub open spec fn first_graphics(flags: Seq<u32>) -> Option<int> {
    if exists|i: int| 0 <= i < flags.len() && #[trigger] flags[i] & graphics_bit() != 0 {
        Some(choose|i: int| 0 <= i < flags.len() && flags[i] & graphics_bit() != 0 && forall|k: int| 0 <= k < i ==> #[trigger] flags[k] & graphics_bit() == 0)
    } else {
        None
    }
}

/// The queue families to use, given each family's flags: the first family
/// with graphics support, for graphics and for presenting.
pub fn find_queue_families(family_flags: &Vec<u32>) -> (q: QueueFamilyIndices)
    requires
        family_flags@.len() <= u32::MAX,
    ensures
        match first_graphics(family_flags@) {
            Some(i) => q.graphics == Some(i as u32) && q.present == Some(i as u32),
            None => q.graphics is None && q.present is None,
        },
{
    let mut indices = QueueFamilyIndices { graphics: None, present: None };
    let mut i: usize = 0;
    while i < family_flags.len()
        invariant
            i <= family_flags@.len(),
            family_flags@.len() <= u32::MAX,
            forall|k: int| 0 <= k < i ==> #[trigger] family_flags@[k] & 1 == 0,
            indices.graphics is None && indices.present is None,
        decreases family_flags@.len() - i,
    {
        if family_flags[i] & 1 != 0 {
            indices.graphics = Some(i as u32);
            indices.present = Some(i as u32);
            proof {
                let f = family_flags@;
                let j = choose|j: int| 0 <= j < f.len() && f[j] & 1 != 0 && forall|k: int| 0 <= k < j ==> #[trigger] f[k] & 1 == 0;
                assert(0 <= j < f.len() && f[j] & 1 != 0);
                if j < i {
                    assert(f[j] & 1 == 0);
                } else if i < j {
                    assert(f[i as int] & 1 == 0);
                }
            }
            return indices;
        }
        i = i + 1;
    }
    indices
}

/// `VK_PHYSICAL_DEVICE_TYPE_INTEGRATED_GPU` and `..._DISCRETE_GPU`.
pub open spec fn integrated_gpu() -> i32 {
    1
}

pub open spec fn discrete_gpu() -> i32 {
    2
}

/// Score of a device (higher wins): 1000 for a discrete GPU, 100 for an
/// integrated one, 10 for geometry shaders, and the largest 2D image size
/// in thousands.
pub open spec fn spec_device_score(device_type: i32, geometry_shader: bool, max_image_dimension_2d: u32) -> int {
    (if device_type == discrete_gpu() {
        1000int
    } else if device_type == integrated_gpu() {
        100int
    } else {
        0int
    }) + (if geometry_shader {
        10int
    } else {
        0int
    }) + max_image_dimension_2d / 1000
}

/// Score of a device.
pub fn rate_device(device_type: i32, geometry_shader: bool, max_image_dimension_2d: u32) -> (s: u32)
    ensures
        s == spec_device_score(device_type, geometry_shader, max_image_dimension_2d),
{
    let mut score: u32 = 0;
    if device_type == 2 {
        score = score + 1000;
    } else if device_type == 1 {
        score = score + 100;
    }
    if geometry_shader {
        score = score + 10;
    }
    score + max_image_dimension_2d / 1000
}

/// What the device choice needs to know of a device.
#[derive(Debug, Clone, Copy, PartialEq, Eq, Structural)]
pub struct DeviceCandidate {
    /// The device has every required extension.
    pub has_required_extensions: bool,
    /// Flags-derived queue families of the device.
    pub queue_families: QueueFamilyIndices,
    pub device_type: i32,
    pub geometry_shader: bool,
    pub max_image_dimension_2d: u32,
}

/// A candidate can be used: it has the extensions and the queue families.
pub open spec fn usable(c: DeviceCandidate) -> bool {
    c.has_required_extensions && c.queue_families.graphics is Some && c.queue_families.present is Some
}

pub open spec fn candidate_score(c: DeviceCandidate) -> int {
    spec_device_score(c.device_type, c.geometry_shader, c.max_image_dimension_2d)
}

/// Candidate `b` is the device chosen: usable, with a positive score no
/// usable candidate beats, and the first with that score.
pub open spec fn is_chosen(cs: Seq<DeviceCandidate>, b: int) -> bool {
    &&& 0 <= b < cs.len()
    &&& usable(cs[b])
    &&& candidate_score(cs[b]) > 0
    &&& forall|j: int| 0 <= j < cs.len() && usable(#[trigger] cs[j]) ==> candidate_score(cs[j]) <= candidate_score(cs[b])
    &&& forall|j: int| 0 <= j < b && usable(#[trigger] cs[j]) ==> candidate_score(cs[j]) < candidate_score(cs[b])
}

/// The device to use: the index of the usable candidate with the highest
/// score (the first of equal ones); none when no usable candidate scores
/// above zero.
pub fn select_physical_device(candidates: &Vec<DeviceCandidate>) -> (r: Option<usize>)
    ensures
        r matches Some(b) ==> is_chosen(candidates@, b as int),
        r is None ==> forall|j: int| 0 <= j < candidates@.len() && usable(#[trigger] candidates@[j]) ==> candidate_score(candidates@[j]) <= 0,
{
    let mut best: Option<usize> = None;
    let mut best_score: u32 = 0;
    let mut i: usize = 0;
    while i < candidates.len()
        invariant
            i <= candidates@.len(),
            best is None ==> best_score == 0,
            forall|j: int| 0 <= j < i && usable(#[trigger] candidates@[j]) ==> candidate_score(candidates@[j]) <= best_score,
            best matches Some(b) ==> (b < i && usable(candidates@[b as int]) && candidate_score(candidates@[b as int]) == best_score
                && best_score > 0 && forall|j: int| 0 <= j < b && usable(#[trigger] candidates@[j]) ==> candidate_score(candidates@[j]) < best_score),
        decreases candidates@.len() - i,
    {
        let c = candidates[i];
        if c.has_required_extensions && c.queue_families.is_complete() {
            let score = rate_device(c.device_type, c.geometry_shader, c.max_image_dimension_2d);
            if score > best_score {
                best_score = score;
                best = Some(i);
            }
        }
        i = i + 1;
    }
    best
}

// ---------------------------------------------------------------------
// Swapchain settings
// ---------------------------------------------------------------------

/// `VK_FORMAT_B8G8R8A8_SRGB` and `VK_COLOR_SPACE_SRGB_NONLINEAR_KHR`.
pub open spec fn bgra8_srgb() -> i32 {
    50
}

pub open spec fn srgb_nonlinear() -> i32 {
    0
}

/// A surface format: (format, colour space).
pub type SurfaceFormat = (i32, i32);

/// The surface format to use: B8G8R8A8 sRGB with the non-linear sRGB
/// colour space when offered (the first such), otherwise the first format
/// offered; none when nothing is offered.
pub fn choose_surface_format(formats: &Vec<SurfaceFormat>) -> (r: Option<SurfaceFormat>)
    ensures
        formats@.len() == 0 ==> r is None,
        (exists|i: int| 0 <= i < formats@.len() && #[trigger] formats@[i] == (bgra8_srgb(), srgb_nonlinear()))
            ==> r == Some((bgra8_srgb(), srgb_nonlinear())),
        formats@.len() > 0 && !(exists|i: int|
            0 <= i < formats@.len() && #[trigger] formats@[i] == (bgra8_srgb(), srgb_nonlinear()))
            ==> r == Some(formats@[0]),
{
    let mut i: usize = 0;
    while i < formats.len()
        invariant
            i <= formats@.len(),
            forall|k: int| 0 <= k < i ==> #[trigger] formats@[k] != (50i32, 0i32),
        decreases formats@.len() - i,
    {
        let f = formats[i];
        if f.0 == 50 && f.1 == 0 {
            return Some(f);
        }
        i = i + 1;
    }
    if formats.len() > 0 {
        Some(formats[0])
    } else {
        None
    }
}

/// `VK_PRESENT_MODE_MAILBOX_KHR` and `VK_PRESENT_MODE_FIFO_KHR`.
pub open spec fn mailbox() -> i32 {
    1
}

pub open spec fn fifo() -> i32 {
    2
}

/// The present mode to use: mailbox when offered, FIFO otherwise (FIFO is
/// always available).
pub fn choose_present_mode(modes: &Vec<i32>) -> (m: i32)
    ensures
        (exists|i: int| 0 <= i < modes@.len() && #[trigger] modes@[i] == mailbox()) ==> m == mailbox(),
        !(exists|i: int| 0 <= i < modes@.len() && #[trigger] modes@[i] == mailbox()) ==> m == fifo(),
{
    let mut i: usize = 0;
    while i < modes.len()
        invariant
            i <= modes@.len(),
            forall|k: int| 0 <= k < i ==> #[trigger] modes@[k] != 1i32,
        decreases modes@.len() - i,
    {
        if modes[i] == 1 {
            return 1;
        }
        i = i + 1;
    }
    2
}

/// `v` clamped to `[lo, hi]`.
pub open spec fn clamp(v: u32, lo: u32, hi: u32) -> u32 {
    if v < lo {
        lo
    } else if v > hi {
        hi
    } else {
        v
    }
}

/// The swapchain extent: the surface's current extent, unless the surface
/// leaves it to the application (width `u32::MAX`); then the window size
/// clamped to the supported range.
pub fn choose_extent(
    current: (u32, u32),
    min_extent: (u32, u32),
    max_extent: (u32, u32),
    width: u32,
    height: u32,
) -> (e: (u32, u32))
    requires
        current.0 == u32::MAX ==> (min_extent.0 <= max_extent.0 && min_extent.1 <= max_extent.1),
    ensures
        current.0 != u32::MAX ==> e == current,
        current.0 == u32::MAX ==> e == (clamp(width, min_extent.0, max_extent.0), clamp(
            height,
            min_extent.1,
            max_extent.1,
        )),
{
    if current.0 != u32::MAX {
        current
    } else {
        let w = if width < min_extent.0 {
            min_extent.0
        } else if width > max_extent.0 {
            max_extent.0
        } else {
            width
        };
        let h = if height < min_extent.1 {
            min_extent.1
        } else if height > max_extent.1 {
            max_extent.1
        } else {
            height
        };
        (w, h)
    }
}

/// Number of swapchain images: one more than the minimum, within the
/// maximum (0 meaning no maximum).
pub fn choose_image_count(min_image_count: u32, max_image_count: u32) -> (n: u32)
    requires
        min_image_count < u32::MAX,
    ensures
        max_image_count > 0 && max_image_count < min_image_count + 1 ==> n == max_image_count,
        !(max_image_count > 0 && max_image_count < min_image_count + 1) ==> n == min_image_count + 1,
{
    let limit = if max_image_count > 0 {
        max_image_count
    } else {
        u32::MAX
    };
    let wanted = min_image_count + 1;
    if wanted < limit {
        wanted
    } else {
        limit
    }
}

/// `VK_SHARING_MODE_EXCLUSIVE` unless the graphics and present families
/// differ (`VK_SHARING_MODE_CONCURRENT`).
pub fn choose_sharing_mode(q: &QueueFamilyIndices) -> (m: i32)
    ensures
        q.graphics == q.present ==> m == 0,
        q.graphics != q.present ==> m == 1,
{
    if q.graphics == q.present {
        0
    } else {
        1
    }
}

// ---------------------------------------------------------------------
// Availability report
// ---------------------------------------------------------------------

/// What the availability check found.
#[derive(Debug)]
pub struct VulkanInfo {
    /// Vulkan can be used.
    pub available: bool,
    /// API version ("major.minor.patch").
    pub api_version: Option<String>,
    pub gpu_name: Option<String>,
    pub driver_version: Option<String>,
    /// The Wayland surface extensions are present.
    pub wayland_supported: bool,
    /// Why Vulkan cannot be used.
    pub error: Option<String>,
}

impl Default for VulkanInfo {
    fn default() -> (i: Self)
        ensures
            !i.available && i.api_version is None && i.gpu_name is None && i.driver_version is None
                && !i.wayland_supported && i.error is None,
    {
        VulkanInfo {
            available: false,
            api_version: None,
            gpu_name: None,
            driver_version: None,
            wayland_supported: false,
            error: None,
        }
    }
}

/// A packed Vulkan version written as "major.minor.patch" (7, 10 and 12
/// bits above the variant's 3).
pub open spec fn spec_version_string(v: u32) -> Seq<char> {
    decimal(((v / 4194304) % 128) as nat) + seq!['.'] + decimal(((v / 4096) % 1024) as nat)
        + seq!['.'] + decimal((v % 4096) as nat)
}

/// A packed Vulkan version as text.
pub fn version_string(v: u32) -> (s: String)
    ensures
        s@ == spec_version_string(v),
{
    let mut s = String::new();
    push_decimal(&mut s, ((v / 4194304) % 128) as u128);
    push_char(&mut s, '.');
    push_decimal(&mut s, ((v / 4096) % 1024) as u128);
    push_char(&mut s, '.');
    push_decimal(&mut s, (v % 4096) as u128);
    assert(s@ =~= spec_version_string(v));
    s
}


// ---------------------------------------------------------------------
// Instance setup
// ---------------------------------------------------------------------

/// `VK_API_VERSION_1_0`, the version a loader that cannot tell its own
/// stands for.
pub open spec fn api_version_1_0() -> u32 {
    4194304
}

/// The loader's instance version, or 1.0 when it does not report one.
pub fn instance_api_version(reported: Option<u32>) -> (v: u32)
    ensures
        v == match reported {
            Some(r) => r,
            None => api_version_1_0(),
        },
{
    match reported {
        Some(r) => r,
        None => 4194304,
    }
}

/// Whether `name` is among the extension names `available`.
pub open spec fn names_contain(available: Seq<String>, name: Seq<char>) -> bool {
    exists|i: int| 0 <= i < available.len() && (#[trigger] available[i])@ == name
}

fn has_name(available: &Vec<String>, name: &str) -> (b: bool)
    ensures
        b == names_contain(available@, name@),
{
    let mut i: usize = 0;
    while i < available.len()
        invariant
            i <= available@.len(),
            forall|k: int| 0 <= k < i ==> (#[trigger] available@[k])@ != name@,
        decreases available@.len() - i,
    {
        if str_equals(available[i].as_str(), name) {
            return true;
        }
        i = i + 1;
    }
    false
}

/// Whether the instance extensions `available` hold `VK_KHR_surface` and
/// `VK_KHR_wayland_surface`, which a Wayland surface needs.
pub fn wayland_extensions(available: &Vec<String>) -> (r: (bool, bool))
    ensures
        r.0 == names_contain(available@, "VK_KHR_surface"@),
        r.1 == names_contain(available@, "VK_KHR_wayland_surface"@),
{
    (has_name(available, "VK_KHR_surface"), has_name(available, "VK_KHR_wayland_surface"))
}

/// The first required instance extension missing from `available`, in
/// the order surface, Wayland surface.
pub fn missing_required_extension(available: &Vec<String>) -> (r: Option<String>)
    ensures
        !names_contain(available@, "VK_KHR_surface"@) ==> (r matches Some(n) && n@
            == "VK_KHR_surface"@),
        names_contain(available@, "VK_KHR_surface"@) && !names_contain(
            available@,
            "VK_KHR_wayland_surface"@,
        ) ==> (r matches Some(n) && n@ == "VK_KHR_wayland_surface"@),
        names_contain(available@, "VK_KHR_surface"@) && names_contain(
            available@,
            "VK_KHR_wayland_surface"@,
        ) ==> r is None,
{
    let (surface, wayland) = wayland_extensions(available);
    if !surface {
        Some(String::from_str("VK_KHR_surface"))
    } else if !wayland {
        Some(String::from_str("VK_KHR_wayland_surface"))
    } else {
        None
    }
}

/// The instance extensions and layers to enable: the required
/// extensions, and with validation also `VK_EXT_debug_utils` and the
/// Khronos validation layer.
pub fn instance_extensions_and_layers(validation: bool) -> (r: (Vec<String>, Vec<String>))
    ensures
        r.0@.len() == if validation {
            3nat
        } else {
            2nat
        },
        r.0@[0]@ == "VK_KHR_surface"@,
        r.0@[1]@ == "VK_KHR_wayland_surface"@,
        validation ==> r.0@[2]@ == "VK_EXT_debug_utils"@,
        r.1@.len() == if validation {
            1nat
        } else {
            0nat
        },
        validation ==> r.1@[0]@ == "VK_LAYER_KHRONOS_validation"@,
{
    let mut extensions: Vec<String> = Vec::new();
    extensions.push(String::from_str("VK_KHR_surface"));
    extensions.push(String::from_str("VK_KHR_wayland_surface"));
    let mut layers: Vec<String> = Vec::new();
    if validation {
        extensions.push(String::from_str("VK_EXT_debug_utils"));
        layers.push(String::from_str("VK_LAYER_KHRONOS_validation"));
    }
    (extensions, layers)
}


// ---------------------------------------------------------------------
// Frames in flight
// ---------------------------------------------------------------------

/// Frames the CPU may record while the GPU still draws earlier ones.
pub const MAX_FRAMES_IN_FLIGHT: usize = 2;

/// Which set of per-frame semaphores and fences is in use.
#[derive(Debug, Clone, Copy, PartialEq, Eq, Structural)]
pub struct FrameCursor {
    current_frame: usize,
}

impl FrameCursor {
    pub closed spec fn index(&self) -> nat {
        self.current_frame as nat
    }

    /// The index stays below `MAX_FRAMES_IN_FLIGHT`.
    pub closed spec fn wf(&self) -> bool {
        self.current_frame < MAX_FRAMES_IN_FLIGHT
    }

    /// The cursor at the first frame.
    pub fn new() -> (c: FrameCursor)
        ensures
            c.wf(),
            c.index() == 0,
    {
        FrameCursor { current_frame: 0 }
    }

    /// The index of the per-frame objects in use.
    pub fn current_frame(&self) -> (i: usize)
        requires
            self.wf(),
        ensures
            i == self.index(),
            i < MAX_FRAMES_IN_FLIGHT,
    {
        self.current_frame
    }

    /// Move to the next set, after the last back to the first.
    pub fn advance_frame(&mut self)
        requires
            old(self).wf(),
        ensures
            final(self).wf(),
            final(self).index() == (old(self).index() + 1) % (MAX_FRAMES_IN_FLIGHT as nat),
    {
        self.current_frame = (self.current_frame + 1) % MAX_FRAMES_IN_FLIGHT;
    }
}

} // verus!
