//! Wallpaper Engine scene data: the parts of a scene description that hold
//! no floating-point values (alignment, blend modes, effects, sounds,
//! animation kinds), the handles of the GL objects that draw it, the files
//! that may hold an image's texture and the order the layers are drawn in.

use vstd::prelude::*;
use crate::text::{ends_with_chars, push_char, push_str, str_chars, str_equals, to_lowercase, unicode_lowercase};

verus! {

/// Orthographic projection settings.
#[derive(Debug, Clone, Copy, PartialEq, Eq, Structural)]
pub struct OrthogonalProjection {
    /// Automatic detection.
    pub auto: bool,
    pub width: u32,
    pub height: u32,
}

impl Default for OrthogonalProjection {
    fn default() -> (p: Self)
        ensures
            p.auto && p.width == 1920 && p.height == 1080,
    {
        OrthogonalProjection { auto: true, width: 1920, height: 1080 }
    }
}

/// A sound object (parsed, not rendered).
#[derive(Debug)]
pub struct SoundObject {
    /// Sound file paths.
    pub sounds: Vec<String>,
    /// Whether the sounds repeat.
    pub repeat: bool,
}

impl Default for SoundObject {
    fn default() -> (s: Self)
        ensures
            s.sounds@.len() == 0 && !s.repeat,
    {
        SoundObject { sounds: Vec::new(), repeat: false }
    }
}

/// Alignment of an image layer.
#[derive(Debug, Clone, Copy, PartialEq, Eq, Structural)]
pub enum ImageAlignment {
    Center,
    TopLeft,
    TopCenter,
    TopRight,
    CenterLeft,
    CenterRight,
    BottomLeft,
    BottomCenter,
    BottomRight,
}

impl Default for ImageAlignment {
    fn default() -> (a: Self)
        ensures
            a == ImageAlignment::Center,
    {
        ImageAlignment::Center
    }
}

/// The alignment that a lowercased scene value names; unknown names give
/// `Center`.
pub open spec fn spec_alignment_of(v: Seq<char>) -> ImageAlignment {
    if v == "center"@ {
        ImageAlignment::Center
    } else if v == "topleft"@ {
        ImageAlignment::TopLeft
    } else if v == "topcenter"@ || v == "top"@ {
        ImageAlignment::TopCenter
    } else if v == "topright"@ {
        ImageAlignment::TopRight
    } else if v == "centerleft"@ || v == "left"@ {
        ImageAlignment::CenterLeft
    } else if v == "centerright"@ || v == "right"@ {
        ImageAlignment::CenterRight
    } else if v == "bottomleft"@ {
        ImageAlignment::BottomLeft
    } else if v == "bottomcenter"@ || v == "bottom"@ {
        ImageAlignment::BottomCenter
    } else if v == "bottomright"@ {
        ImageAlignment::BottomRight
    } else {
        ImageAlignment::Center
    }
}

/// The alignment named by a lowercased value.
pub fn alignment_of_lowercase(v: &str) -> (a: ImageAlignment)
    ensures
        a == spec_alignment_of(v@),
{
    if str_equals(v, "center") {
        ImageAlignment::Center
    } else if str_equals(v, "topleft") {
        ImageAlignment::TopLeft
    } else if str_equals(v, "topcenter") || str_equals(v, "top") {
        ImageAlignment::TopCenter
    } else if str_equals(v, "topright") {
        ImageAlignment::TopRight
    } else if str_equals(v, "centerleft") || str_equals(v, "left") {
        ImageAlignment::CenterLeft
    } else if str_equals(v, "centerright") || str_equals(v, "right") {
        ImageAlignment::CenterRight
    } else if str_equals(v, "bottomleft") {
        ImageAlignment::BottomLeft
    } else if str_equals(v, "bottomcenter") || str_equals(v, "bottom") {
        ImageAlignment::BottomCenter
    } else if str_equals(v, "bottomright") {
        ImageAlignment::BottomRight
    } else {
        ImageAlignment::Center
    }
}

impl ImageAlignment {
    /// The alignment a scene value names, ignoring case.
    pub fn from_str(s: &str) -> (a: ImageAlignment)
        ensures
            a == spec_alignment_of(unicode_lowercase(s@)),
            crate::text::all_ascii(s@) ==> a == spec_alignment_of(crate::text::ascii_lower(s@)),
    {
        let lowered = to_lowercase(s);
        alignment_of_lowercase(lowered.as_str())
    }
}

/// Blend mode of a layer.
#[derive(Debug, Clone, Copy, PartialEq, Eq, Structural)]
pub enum BlendMode {
    Normal,
    Additive,
    Multiply,
    Screen,
    Overlay,
}

impl Default for BlendMode {
    fn default() -> (b: Self)
        ensures
            b == BlendMode::Normal,
    {
        BlendMode::Normal
    }
}

/// The blend mode of a numeric code: 0 to 4 in declaration order, `Normal`
/// for any other code.
pub open spec fn spec_blend_of(n: i32) -> BlendMode {
    if n == 1 {
        BlendMode::Additive
    } else if n == 2 {
        BlendMode::Multiply
    } else if n == 3 {
        BlendMode::Screen
    } else if n == 4 {
        BlendMode::Overlay
    } else {
        BlendMode::Normal
    }
}

impl BlendMode {
    /// The blend mode of a numeric code.
    pub fn from_int(n: i32) -> (b: BlendMode)
        ensures
            b == spec_blend_of(n),
    {
        match n {
            0 => BlendMode::Normal,
            1 => BlendMode::Additive,
            2 => BlendMode::Multiply,
            3 => BlendMode::Screen,
            4 => BlendMode::Overlay,
            _ => BlendMode::Normal,
        }
    }
}

/// An effect applied to a scene object.
#[derive(Debug)]
pub struct SceneEffect {
    pub name: String,
    /// Effect file path.
    pub file: String,
    /// Whether the effect is enabled.
    pub visible: bool,
    pub id: u64,
}

impl Default for SceneEffect {
    fn default() -> (e: Self)
        ensures
            e.name@.len() == 0 && e.file@.len() == 0 && !e.visible && e.id == 0,
    {
        SceneEffect { name: String::new(), file: String::new(), visible: false, id: 0 }
    }
}

/// Direction of a scroll animation.
#[derive(Debug, Clone, Copy, PartialEq, Eq, Structural)]
pub enum ScrollDirection {
    Horizontal,
    Vertical,
    Both,
}

impl Default for ScrollDirection {
    fn default() -> (d: Self)
        ensures
            d == ScrollDirection::Horizontal,
    {
        ScrollDirection::Horizontal
    }
}

/// Kind of an animation.
#[derive(Debug, Clone, Copy, PartialEq, Eq, Structural)]
pub enum AnimationType {
    /// Scroll or pan.
    Scroll { direction: ScrollDirection, speed: i32 },
    Scale { from: i32, to: i32 },
    /// Rotation.
    Spin { speed: i32 },
    Opacity { from: i32, to: i32 },
}

/// Easing of an animation.
#[derive(Debug, Clone, Copy, PartialEq, Eq, Structural)]
pub enum EasingFunction {
    Linear,
    EaseIn,
    EaseOut,
    EaseInOut,
}

impl Default for EasingFunction {
    fn default() -> (e: Self)
        ensures
            e == EasingFunction::Linear,
    {
        EasingFunction::Linear
    }
}

/// A texture loaded for a scene object.
#[derive(Debug)]
pub struct TextureInfo {
    /// GL texture name (0 when not uploaded).
    pub gl_handle: u32,
    pub width: u32,
    pub height: u32,
    /// RGBA8 pixels.
    pub data: Vec<u8>,
}

/// A linked GL shader program.
#[derive(Debug, Clone, Copy, PartialEq, Eq, Structural)]
pub struct ShaderProgram {
    /// GL program name.
    pub id: u32,
}

/// The GL objects of a unit quad.
#[derive(Debug, Clone, Copy, PartialEq, Eq, Structural)]
pub struct QuadMesh {
    pub vao: u32,
    pub vbo: u32,
    pub ebo: u32,
}

/// Entry point of scene parsing.
#[derive(Debug, Clone, Copy)]
pub struct SceneParser;


// ---------------------------------------------------------------------
// Texture files of image objects
// ---------------------------------------------------------------------

/// `s` with every trailing ".json" removed, as `str::trim_end_matches`
/// removes a suffix repeatedly.
pub open spec fn strip_json(s: Seq<char>) -> Seq<char>
    decreases s.len(),
{
    if s.len() >= 5 && s.subrange(s.len() - 5, s.len() as int) == ".json"@ {
        strip_json(s.subrange(0, s.len() - 5))
    } else {
        s
    }
}

/// The image file extensions a texture may have, in the order they are
/// tried.
pub open spec fn texture_extensions() -> Seq<Seq<char>> {
    seq!["png"@, "jpg"@, "jpeg"@, "gif"@, "webp"@, "tex"@]
}

/// The length of the prefix of `s` left once every trailing ".json" is
/// removed.
fn json_stem_len(s: &Vec<char>) -> (n: usize)
    ensures
        n <= s@.len(),
        s@.take(n as int) == strip_json(s@),
{
    let json = str_chars(".json");
    proof {
        reveal_strlit(".json");
        assert(".json"@ =~= seq!['.', 'j', 's', 'o', 'n']);
    }
    let mut n: usize = s.len();
    assert(s@.take(n as int) =~= s@);
    loop
        invariant
            json@ == ".json"@,
            ".json"@ == seq!['.', 'j', 's', 'o', 'n'],
            n <= s@.len(),
            strip_json(s@.take(n as int)) == strip_json(s@),
        decreases n,
    {
        if n < 5 {
            return n;
        }
        let mut k: usize = 0;
        let mut same = true;
        while k < 5
            invariant
                json@ == ".json"@,
                ".json"@ == seq!['.', 'j', 's', 'o', 'n'],
                5 <= n <= s@.len(),
                k <= 5,
                same == (forall|m: int| 0 <= m < k ==> s@[n - 5 + m] == json@[m]),
            decreases 5 - k,
        {
            if s[n - 5 + k] != json[k] {
                same = false;
            }
            k = k + 1;
        }
        let ghost t = s@.take(n as int);
        if same {
            assert(t.subrange(t.len() - 5, t.len() as int) =~= ".json"@);
            assert(t.subrange(0, t.len() - 5) =~= s@.take(n - 5));
            n = n - 5;
        } else {
            proof {
                let m = choose|m: int| 0 <= m < 5 && s@[n - 5 + m] != json@[m];
                assert(t.subrange(t.len() - 5, t.len() as int)[m] != ".json"@[m]);
            }
            return n;
        }
    }
}

/// The files, relative to the scene directory, that may hold the texture
/// of the image `image_path`: its path without trailing ".json" and with
/// each texture extension in turn.
pub fn texture_candidates(image_path: &str) -> (v: Vec<String>)
    ensures
        v@.len() == texture_extensions().len(),
        forall|i: int|
            0 <= i < v@.len() ==> (#[trigger] v@[i])@ == strip_json(image_path@) + "."@
                + texture_extensions()[i],
{
    let cs = str_chars(image_path);
    let n = json_stem_len(&cs);
    let mut stem = String::new();
    let mut i: usize = 0;
    while i < n
        invariant
            n <= cs@.len(),
            i <= n,
            stem@ == cs@.take(i as int),
        decreases n - i,
    {
        assert(cs@.take(i + 1) =~= cs@.take(i as int).push(cs@[i as int]));
        push_char(&mut stem, cs[i]);
        i = i + 1;
    }
    let exts: [&str; 6] = ["png", "jpg", "jpeg", "gif", "webp", "tex"];
    proof {
        reveal_strlit("png");
        reveal_strlit("jpg");
        reveal_strlit("jpeg");
        reveal_strlit("gif");
        reveal_strlit("webp");
        reveal_strlit("tex");
        assert(exts@.map_values(|e: &str| e@) =~= texture_extensions());
    }
    let mut v: Vec<String> = Vec::new();
    let mut j: usize = 0;
    while j < 6
        invariant
            j <= 6,
            stem@ == strip_json(image_path@),
            exts@.map_values(|e: &str| e@) == texture_extensions(),
            v@.len() == j,
            forall|i: int|
                0 <= i < j ==> (#[trigger] v@[i])@ == strip_json(image_path@) + "."@
                    + texture_extensions()[i],
        decreases 6 - j,
    {
        let mut c = stem.clone();
        push_str(&mut c, ".");
        push_str(&mut c, exts[j]);
        assert(exts@.map_values(|e: &str| e@)[j as int] == exts@[j as int]@);
        v.push(c);
        j = j + 1;
    }
    v
}

/// Whether `ext` is one of the texture extensions.
pub fn is_texture_extension(ext: &str) -> (b: bool)
    ensures
        b == texture_extensions().contains(ext@),
{
    let exts: [&str; 6] = ["png", "jpg", "jpeg", "gif", "webp", "tex"];
    proof {
        reveal_strlit("png");
        reveal_strlit("jpg");
        reveal_strlit("jpeg");
        reveal_strlit("gif");
        reveal_strlit("webp");
        reveal_strlit("tex");
        assert(exts@.map_values(|e: &str| e@) =~= texture_extensions());
    }
    let mut j: usize = 0;
    while j < 6
        invariant
            j <= 6,
            exts@.map_values(|e: &str| e@) == texture_extensions(),
            forall|i: int| 0 <= i < j ==> texture_extensions()[i] != ext@,
        decreases 6 - j,
    {
        assert(exts@.map_values(|e: &str| e@)[j as int] == exts@[j as int]@);
        if str_equals(exts[j], ext) {
            assert(texture_extensions()[j as int] == ext@);
            return true;
        }
        j = j + 1;
    }
    proof {
        if texture_extensions().contains(ext@) {
            let i = choose|i: int| 0 <= i < texture_extensions().len() && texture_extensions()[i] == ext@;
            assert(texture_extensions()[i] != ext@);
        }
    }
    false
}


// ---------------------------------------------------------------------
// Draw order
// ---------------------------------------------------------------------

/// Object `i` of `objects` (id, visible, is an image) is drawn.
pub open spec fn drawn(objects: Seq<(u64, bool, bool)>, i: int) -> bool {
    0 <= i < objects.len() && objects[i].1 && objects[i].2
}

/// Object `a` comes before object `b`: a lower id, or the same id and an
/// earlier place in the scene.
pub open spec fn drawn_before(objects: Seq<(u64, bool, bool)>, a: int, b: int) -> bool {
    objects[a].0 < objects[b].0 || (objects[a].0 == objects[b].0 && a < b)
}

/// `order` lists exactly the drawn objects among the first `n`, lower ids
/// first and, for equal ids, in scene order.
pub open spec fn is_draw_order(objects: Seq<(u64, bool, bool)>, n: int, order: Seq<usize>) -> bool {
    &&& forall|k: int| 0 <= k < order.len() ==> #[trigger] order[k] < n && drawn(objects, order[k] as int)
    &&& forall|i: int| 0 <= i < n && drawn(objects, i) ==> #[trigger] order.contains(i as usize)
    &&& forall|a: int, b: int|
        0 <= a < b < order.len() ==> drawn_before(objects, #[trigger] order[a] as int, #[trigger] order[b] as int)
}

/// The positions of the objects to draw, given each object's (id,
/// visible, is an image): the visible images, lower ids first (behind),
/// equal ids in scene order.
pub fn draw_order(objects: &Vec<(u64, bool, bool)>) -> (order: Vec<usize>)
    ensures
        is_draw_order(objects@, objects@.len() as int, order@),
{
    let mut order: Vec<usize> = Vec::new();
    let mut i: usize = 0;
    while i < objects.len()
        invariant
            i <= objects@.len(),
            is_draw_order(objects@, i as int, order@),
        decreases objects@.len() - i,
    {
        let (id, visible, image) = objects[i];
        if visible && image {
            let mut p: usize = 0;
            while p < order.len() && objects[order[p]].0 <= id
                invariant
                    i < objects@.len(),
                    p <= order@.len(),
                    is_draw_order(objects@, i as int, order@),
                    id == objects@[i as int].0,
                    forall|k: int| 0 <= k < p ==> objects@[#[trigger] order@[k] as int].0 <= id,
                decreases order@.len() - p,
            {
                p = p + 1;
            }
            let ghost before = order@;
            order.insert(p, i);
            proof {
                assert forall|k: int| 0 <= k < order@.len() implies #[trigger] order@[k] < i + 1 && drawn(
                    objects@,
                    order@[k] as int,
                ) by {
                    if k < p {
                        assert(order@[k] == before[k]);
                    } else if k > p {
                        assert(order@[k] == before[k - 1]);
                    }
                }
                assert forall|j: int| 0 <= j < i + 1 && drawn(objects@, j) implies #[trigger] order@.contains(
                    j as usize,
                ) by {
                    if j == i {
                        assert(order@[p as int] == i);
                    } else {
                        assert(before.contains(j as usize));
                        let k = choose|k: int| 0 <= k < before.len() && before[k] == j as usize;
                        if k < p {
                            assert(order@[k] == before[k]);
                        } else {
                            assert(order@[k + 1] == before[k]);
                        }
                    }
                }
                assert forall|a: int, b: int| 0 <= a < b < order@.len() implies drawn_before(
                    objects@,
                    #[trigger] order@[a] as int,
                    #[trigger] order@[b] as int,
                ) by {
                    if b < p {
                        assert(order@[a] == before[a] && order@[b] == before[b]);
                    } else if b == p {
                        assert(order@[a] == before[a]);
                        assert(before[a] < i);
                    } else if a == p {
                        assert(order@[b] == before[b - 1]);
                        assert(p < before.len());
                        assert(objects@[before[p as int] as int].0 > id);
                        if b - 1 > p {
                            assert(drawn_before(objects@, before[p as int] as int, before[b - 1] as int));
                        }
                    } else if a < p {
                        assert(order@[a] == before[a] && order@[b] == before[b - 1]);
                        if a < b - 1 {
                            assert(drawn_before(objects@, before[a] as int, before[b - 1] as int));
                        }
                    } else {
                        assert(order@[a] == before[a - 1] && order@[b] == before[b - 1]);
                    }
                }
            }
        } else {
            proof {
                assert forall|k: int| 0 <= k < order@.len() implies #[trigger] order@[k] < i + 1 && drawn(
                    objects@,
                    order@[k] as int,
                ) by {}
            }
        }
        i = i + 1;
    }
    order
}


// ---------------------------------------------------------------------
// Blending
// ---------------------------------------------------------------------

/// OpenGL blend factors: `GL_ZERO`, `GL_ONE`, `GL_ONE_MINUS_SRC_COLOR`,
/// `GL_SRC_ALPHA`, `GL_ONE_MINUS_SRC_ALPHA`, `GL_DST_COLOR`.
pub const GL_ZERO: u32 = 0;
pub const GL_ONE: u32 = 1;
pub const GL_ONE_MINUS_SRC_COLOR: u32 = 0x0301;
pub const GL_SRC_ALPHA: u32 = 0x0302;
pub const GL_ONE_MINUS_SRC_ALPHA: u32 = 0x0303;
pub const GL_DST_COLOR: u32 = 0x0306;

/// The (source, destination) blend factors a layer is drawn with. Overlay
/// is drawn as normal alpha blending.
pub open spec fn spec_blend_factors(mode: BlendMode) -> (u32, u32) {
    match mode {
        BlendMode::Normal => (GL_SRC_ALPHA, GL_ONE_MINUS_SRC_ALPHA),
        BlendMode::Additive => (GL_SRC_ALPHA, GL_ONE),
        BlendMode::Multiply => (GL_DST_COLOR, GL_ZERO),
        BlendMode::Screen => (GL_ONE, GL_ONE_MINUS_SRC_COLOR),
        BlendMode::Overlay => (GL_SRC_ALPHA, GL_ONE_MINUS_SRC_ALPHA),
    }
}

/// The blend factors for `mode`.
pub fn blend_factors(mode: BlendMode) -> (f: (u32, u32))
    ensures
        f == spec_blend_factors(mode),
{
    match mode {
        BlendMode::Normal => (GL_SRC_ALPHA, GL_ONE_MINUS_SRC_ALPHA),
        BlendMode::Additive => (GL_SRC_ALPHA, GL_ONE),
        BlendMode::Multiply => (GL_DST_COLOR, GL_ZERO),
        BlendMode::Screen => (GL_ONE, GL_ONE_MINUS_SRC_COLOR),
        BlendMode::Overlay => (GL_SRC_ALPHA, GL_ONE_MINUS_SRC_ALPHA),
    }
}


/// Name for what `Path::file_stem` returns on a path: its last component
/// without the extension, if it has a last component.
pub uninterp spec fn path_file_stem(path: Seq<char>) -> Option<Seq<char>>;

/// Calls `std::path::Path::file_stem` on `path` and converts the stem to a
/// `String` (the stem of a `&str` path is valid UTF-8). The result is named
/// `path_file_stem`.
#[verifier::external_body]
fn file_stem(path: &str) -> (r: Option<String>)
    ensures
        r matches Some(n) ==> path_file_stem(path@) == Some(n@),
        r is None ==> path_file_stem(path@) is None,
{
    std::path::Path::new(path).file_stem().map(|n| n.to_string_lossy().to_string())
}

/// The TEX file tried first for an image at `path`: the path itself when it
/// ends in ".tex", else "materials/<stem>.tex" (the whole path when it has
/// no stem).
pub open spec fn spec_tex_path(path: Seq<char>) -> Seq<char> {
    if path.len() >= 4 && path.subrange(path.len() - 4, path.len() as int) == ".tex"@ {
        path
    } else {
        "materials/"@ + match path_file_stem(path) {
            Some(stem) => stem,
            None => path,
        } + ".tex"@
    }
}

/// The TEX file tried first for an image at `path`.
pub fn tex_path_for(path: &str) -> (t: String)
    ensures
        t@ == spec_tex_path(path@),
{
    let cs = str_chars(path);
    if ends_with_chars(&cs, ".tex") {
        proof {
            reveal_strlit(".tex");
        }
        return String::from_str(path);
    }
    proof {
        reveal_strlit(".tex");
    }
    let mut t = String::new();
    push_str(&mut t, "materials/");
    match file_stem(path) {
        Some(stem) => push_str(&mut t, stem.as_str()),
        None => push_str(&mut t, path),
    }
    push_str(&mut t, ".tex");
    t
}

} // verus!
