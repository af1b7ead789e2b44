//! Daemon configuration: the video source, playback settings, power
//! options, and per-output overrides chosen by output-name pattern.
//!
//! Floating-point settings (start time, playback rate, volume, image
//! sequence rate) are carried as the bit patterns of their `f64` values:
//! the library chooses between them but never computes with them.

use vstd::prelude::*;
use crate::core_types::LayoutMode;
use crate::pattern::{glob, lemma_glob_reflexive, matches_pattern};
use crate::text::{str_chars, str_equals};

verus! {

// ---------------------------------------------------------------------
// Video sources
// ---------------------------------------------------------------------

/// Where the video comes from.
#[derive(Debug, PartialEq, Eq, Hash)]
pub enum VideoSource {
    /// A single video file.
    File { path: String },
    /// A directory of videos (playlist).
    Directory { path: String },
    /// An HTTP(S) stream.
    Url { url: String },
    /// An RTSP stream.
    Rtsp { url: String },
    /// A pipe; the empty path is standard input.
    Pipe { path: String },
    /// A GIF or an image sequence, played at `fps` frames per second.
    ImageSequence { path: String, fps_bits: u64 },
    /// A Wallpaper Engine video project.
    WeProject { path: String },
    /// A Wallpaper Engine scene project.
    WeScene { path: String },
}

impl Clone for VideoSource {
    fn clone(&self) -> (r: Self)
        ensures
            r == *self,
    {
        match self {
            VideoSource::File { path } => VideoSource::File { path: path.clone() },
            VideoSource::Directory { path } => VideoSource::Directory { path: path.clone() },
            VideoSource::Url { url } => VideoSource::Url { url: url.clone() },
            VideoSource::Rtsp { url } => VideoSource::Rtsp { url: url.clone() },
            VideoSource::Pipe { path } => VideoSource::Pipe { path: path.clone() },
            VideoSource::ImageSequence { path, fps_bits } => VideoSource::ImageSequence {
                path: path.clone(),
                fps_bits: *fps_bits,
            },
            VideoSource::WeProject { path } => VideoSource::WeProject { path: path.clone() },
            VideoSource::WeScene { path } => VideoSource::WeScene { path: path.clone() },
        }
    }
}

/// The rate of an image sequence unless configured otherwise: the bits of
/// 30.0.
pub fn default_fps_bits() -> (b: u64)
    ensures
        b == 0x403E_0000_0000_0000u64,
{
    0x403E_0000_0000_0000u64
}

/// `input` starts with a tilde that `shellexpand::tilde` expands: `~`
/// alone or followed by `/`.
pub open spec fn expands_tilde(input: Seq<char>) -> bool {
    input.len() > 0 && input[0] == '~' && (input.len() == 1 || input[1] == '/')
}

/// Calls `shellexpand::tilde` (3.1, Unix). Its source returns the input
/// unchanged unless it is `~` or starts with `~/`; then it puts the home
/// directory in place of the tilde when the home directory is known, and
/// returns the input unchanged otherwise. The home directory comes from the
/// environment, so which of the two happens, and the directory itself, are
/// not stated: only that the result then ends with what followed the
/// tilde.
#[verifier::external_body]
fn expand_tilde(input: &str) -> (r: String)
    ensures
        !expands_tilde(input@) ==> r@ == input@,
        expands_tilde(input@) ==> (r@ == input@ || (r@.len() >= input@.len() - 1 && r@.skip(
            r@.len() - (input@.len() - 1),
        ) == input@.drop_first())),
{
    shellexpand::tilde(input).to_string()
}

/// A source as plain values: its kind (0 to 7 in declaration order), its
/// path or URL, and the bits of its frame rate (0 but for image
/// sequences).
pub open spec fn source_view(s: VideoSource) -> (u8, Seq<char>, u64) {
    match s {
        VideoSource::File { path } => (0u8, path@, 0u64),
        VideoSource::Directory { path } => (1u8, path@, 0u64),
        VideoSource::Url { url } => (2u8, url@, 0u64),
        VideoSource::Rtsp { url } => (3u8, url@, 0u64),
        VideoSource::Pipe { path } => (4u8, path@, 0u64),
        VideoSource::ImageSequence { path, fps_bits } => (5u8, path@, fps_bits),
        VideoSource::WeProject { path } => (6u8, path@, 0u64),
        VideoSource::WeScene { path } => (7u8, path@, 0u64),
    }
}

impl VideoSource {
    /// The path or URL of the source.
    pub open spec fn location(&self) -> Seq<char> {
        match self {
            VideoSource::File { path } => path@,
            VideoSource::Directory { path } => path@,
            VideoSource::Url { url } => url@,
            VideoSource::Rtsp { url } => url@,
            VideoSource::Pipe { path } => path@,
            VideoSource::ImageSequence { path, .. } => path@,
            VideoSource::WeProject { path } => path@,
            VideoSource::WeScene { path } => path@,
        }
    }

    /// What MPV is given for the source: URLs as they are, standard input
    /// as `fd://0` for a pipe with an empty path, and paths with a leading
    /// `~` expanded to the home directory.
    pub fn get_mpv_path(&self) -> (r: String)
        ensures
            (self is Url || self is Rtsp) ==> r@ == self.location(),
            (self matches VideoSource::Pipe { path } && path@.len() == 0) ==> r@ == "fd://0"@,
            !(self is Url || self is Rtsp || (self matches VideoSource::Pipe { path } && path@.len()
                == 0)) ==> {
                &&& !expands_tilde(self.location()) ==> r@ == self.location()
                &&& expands_tilde(self.location()) ==> (r@ == self.location() || (r@.len()
                    >= self.location().len() - 1 && r@.skip(r@.len() - (self.location().len() - 1))
                    == self.location().drop_first()))
            },
    {
        match self {
            VideoSource::File { path } => expand_tilde(path.as_str()),
            VideoSource::Directory { path } => expand_tilde(path.as_str()),
            VideoSource::Url { url } => url.clone(),
            VideoSource::Rtsp { url } => url.clone(),
            VideoSource::Pipe { path } => {
                if path.as_str().is_empty() {
                    String::from_str("fd://0")
                } else {
                    expand_tilde(path.as_str())
                }
            },
            VideoSource::ImageSequence { path, .. } => expand_tilde(path.as_str()),
            VideoSource::WeProject { path } => expand_tilde(path.as_str()),
            VideoSource::WeScene { path } => expand_tilde(path.as_str()),
        }
    }

    /// The source as shown to users: its path or URL, `stdin` for a pipe
    /// with an empty path.
    pub fn get_source_string(&self) -> (r: &str)
        ensures
            (self matches VideoSource::Pipe { path } && path@.len() == 0) ==> r@ == "stdin"@,
            !(self matches VideoSource::Pipe { path } && path@.len() == 0) ==> r@ == self.location(),
    {
        match self {
            VideoSource::File { path } => path.as_str(),
            VideoSource::Directory { path } => path.as_str(),
            VideoSource::Url { url } => url.as_str(),
            VideoSource::Rtsp { url } => url.as_str(),
            VideoSource::Pipe { path } => {
                if path.as_str().is_empty() {
                    "stdin"
                } else {
                    path.as_str()
                }
            },
            VideoSource::ImageSequence { path, .. } => path.as_str(),
            VideoSource::WeProject { path } => path.as_str(),
            VideoSource::WeScene { path } => path.as_str(),
        }
    }

    /// Whether the source is a stream (URL, RTSP or pipe).
    pub fn is_streaming(&self) -> (b: bool)
        ensures
            b == (self is Url || self is Rtsp || self is Pipe),
    {
        match self {
            VideoSource::Url { .. } => true,
            VideoSource::Rtsp { .. } => true,
            VideoSource::Pipe { .. } => true,
            _ => false,
        }
    }

    /// Whether the source is an image sequence.
    pub fn is_image_sequence(&self) -> (b: bool)
        ensures
            b == (self is ImageSequence),
    {
        match self {
            VideoSource::ImageSequence { .. } => true,
            _ => false,
        }
    }

    /// Whether the source is a scene wallpaper.
    pub fn is_scene(&self) -> (b: bool)
        ensures
            b == (self is WeScene),
    {
        match self {
            VideoSource::WeScene { .. } => true,
            _ => false,
        }
    }
}

// ---------------------------------------------------------------------
// Settings
// ---------------------------------------------------------------------

/// Power-saving options.
#[derive(Debug, Clone, Copy, PartialEq, Eq, Structural)]
pub struct PowerConfig {
    /// Pause when the output is not visible.
    pub pause_when_hidden: bool,
    /// Pause on battery.
    pub pause_on_battery: bool,
    /// Frame-rate limit (0: unlimited).
    pub max_fps: u32,
    /// Memory limit in MB (0: unlimited).
    pub max_memory_mb: usize,
    /// Most texture buffers kept in the pool.
    pub max_buffers: usize,
}

impl Default for PowerConfig {
    fn default() -> (p: Self)
        ensures
            p.pause_when_hidden,
            !p.pause_on_battery,
            p.max_fps == 0,
            p.max_memory_mb == 100,
            p.max_buffers == 8,
    {
        PowerConfig {
            pause_when_hidden: default_pause_hidden(),
            pause_on_battery: false,
            max_fps: 0,
            max_memory_mb: default_max_memory_mb(),
            max_buffers: default_max_buffers(),
        }
    }
}

/// Layout unless configured otherwise.
pub fn default_layout() -> (l: LayoutMode)
    ensures
        l == LayoutMode::Fill,
{
    LayoutMode::Fill
}

/// Playback loops unless configured otherwise.
pub fn default_loop() -> (b: bool)
    ensures
        b,
{
    true
}

/// Audio is muted unless configured otherwise.
pub fn default_mute() -> (b: bool)
    ensures
        b,
{
    true
}

/// Hardware decoding is on unless configured otherwise.
pub fn default_hwdec() -> (b: bool)
    ensures
        b,
{
    true
}

/// Playback pauses on hidden outputs unless configured otherwise.
pub fn default_pause_hidden() -> (b: bool)
    ensures
        b,
{
    true
}

/// Memory limit in MB unless configured otherwise.
pub fn default_max_memory_mb() -> (n: usize)
    ensures
        n == 100,
{
    100
}

/// Pool size unless configured otherwise.
pub fn default_max_buffers() -> (n: usize)
    ensures
        n == 8,
{
    8
}

/// Priority of a per-output pattern unless configured otherwise (lower
/// numbers win).
pub fn default_priority() -> (n: u32)
    ensures
        n == 50,
{
    50
}

/// The bits of the playback rate unless configured otherwise: 1.0.
pub fn default_playback_rate_bits() -> (b: u64)
    ensures
        b == 0x3FF0_0000_0000_0000u64,
{
    0x3FF0_0000_0000_0000u64
}

/// Per-output overrides; each setting that is given replaces the global
/// one.
#[derive(Debug)]
pub struct OutputConfig {
    /// Priority among matching patterns (lower wins; exact names always
    /// win).
    pub priority: u32,
    pub source: Option<VideoSource>,
    pub layout: Option<LayoutMode>,
    pub start_time_bits: Option<u64>,
    pub playback_rate_bits: Option<u64>,
    pub mute: Option<bool>,
    pub volume_bits: Option<u64>,
}

/// The global configuration.
#[derive(Debug)]
pub struct Config {
    pub source: VideoSource,
    pub layout: LayoutMode,
    /// Loop playback.
    pub loop_playback: bool,
    /// Start time in seconds.
    pub start_time_bits: u64,
    /// Playback speed.
    pub playback_rate_bits: u64,
    pub mute: bool,
    /// Volume (0.0 to 1.0).
    pub volume_bits: u64,
    /// Hardware decoding.
    pub hwdec: bool,
    /// Per-output overrides keyed by output-name pattern.
    pub per_output: Vec<(String, OutputConfig)>,
    pub power: PowerConfig,
}

/// The settings in effect on one output.
#[derive(Debug)]
pub struct EffectiveConfig {
    pub source: VideoSource,
    pub layout: LayoutMode,
    pub loop_playback: bool,
    pub start_time_bits: u64,
    pub playback_rate_bits: u64,
    pub mute: bool,
    pub volume_bits: u64,
    pub hwdec: bool,
    pub power: PowerConfig,
}

// ---------------------------------------------------------------------
// Choosing the override of an output
// ---------------------------------------------------------------------

/// Number of `*` and `?` in a pattern.
pub open spec fn wildcard_count(p: Seq<char>) -> nat
    decreases p.len(),
{
    if p.len() == 0 {
        0
    } else {
        wildcard_count(p.drop_last()) + if p.last() == '*' || p.last() == '?' {
            1nat
        } else {
            0nat
        }
    }
}

/// Length of a pattern in UTF-8 bytes.
pub open spec fn byte_len(p: Seq<char>) -> nat {
    vstd::utf8::encode_utf8(p).len()
}

/// Rank of a matching pattern, compared lexicographically (lower wins):
/// the output's own name first, then patterns by priority (lower number
/// first), then by fewer wildcards, then by greater length in bytes.
pub open spec fn pattern_rank(pattern: Seq<char>, priority: u32, name: Seq<char>) -> (int, int, int, int) {
    if pattern == name {
        (0, 0, 0, 0)
    } else {
        (1, priority as int, wildcard_count(pattern) as int, -(byte_len(pattern) as int))
    }
}

/// Rank `a` comes strictly before rank `b`.
pub open spec fn rank_before(a: (int, int, int, int), b: (int, int, int, int)) -> bool {
    ||| a.0 < b.0
    ||| a.0 == b.0 && a.1 < b.1
    ||| a.0 == b.0 && a.1 == b.1 && a.2 < b.2
    ||| a.0 == b.0 && a.1 == b.1 && a.2 == b.2 && a.3 < b.3
}

/// Entry `k` of the overrides matches `name`.
pub open spec fn entry_matches(per: Seq<(String, OutputConfig)>, name: Seq<char>, k: int) -> bool {
    0 <= k < per.len() && glob(name, per[k].0@)
}

pub open spec fn entry_rank(per: Seq<(String, OutputConfig)>, name: Seq<char>, k: int) -> (int, int, int, int) {
    pattern_rank(per[k].0@, per[k].1.priority, name)
}

/// Entry `k` is the override that applies to `name`: it matches, no
/// matching entry ranks before it, and it ranks before every earlier
/// matching entry (of equal ranks the first wins).
pub open spec fn is_best(per: Seq<(String, OutputConfig)>, name: Seq<char>, k: int) -> bool {
    &&& entry_matches(per, name, k)
    &&& forall|j: int| #[trigger] entry_matches(per, name, j) ==> !rank_before(entry_rank(per, name, j), entry_rank(per, name, k))
    &&& forall|j: int| 0 <= j < k && #[trigger] entry_matches(per, name, j) ==> rank_before(entry_rank(per, name, k), entry_rank(per, name, j))
}

/// The override that applies to `name`, if any pattern matches.
pub open spec fn best_entry(per: Seq<(String, OutputConfig)>, name: Seq<char>) -> Option<int> {
    if exists|k: int| is_best(per, name, k) {
        Some(choose|k: int| is_best(per, name, k))
    } else {
        None
    }
}

/// At most one entry is the best.
pub proof fn lemma_best_unique(per: Seq<(String, OutputConfig)>, name: Seq<char>, k1: int, k2: int)
    requires
        is_best(per, name, k1),
        is_best(per, name, k2),
    ensures
        k1 == k2,
{
    assert(entry_matches(per, name, k1));
    assert(entry_matches(per, name, k2));
}

/// The settings in effect when the override `best` applies (none for
/// `None`): each setting the override gives replaces the global one;
/// loop_playback, hardware decoding and power options are always global.
pub open spec fn spec_effective(c: &Config, best: Option<int>) -> EffectiveConfig {
    match best {
        None => EffectiveConfig {
            source: c.source,
            layout: c.layout,
            loop_playback: c.loop_playback,
            start_time_bits: c.start_time_bits,
            playback_rate_bits: c.playback_rate_bits,
            mute: c.mute,
            volume_bits: c.volume_bits,
            hwdec: c.hwdec,
            power: c.power,
        },
        Some(k) => {
            let o = c.per_output@[k].1;
            EffectiveConfig {
                source: match o.source {
                    Some(s) => s,
                    None => c.source,
                },
                layout: match o.layout {
                    Some(l) => l,
                    None => c.layout,
                },
                loop_playback: c.loop_playback,
                start_time_bits: match o.start_time_bits {
                    Some(v) => v,
                    None => c.start_time_bits,
                },
                playback_rate_bits: match o.playback_rate_bits {
                    Some(v) => v,
                    None => c.playback_rate_bits,
                },
                mute: match o.mute {
                    Some(v) => v,
                    None => c.mute,
                },
                volume_bits: match o.volume_bits {
                    Some(v) => v,
                    None => c.volume_bits,
                },
                hwdec: c.hwdec,
                power: c.power,
            }
        },
    }
}

/// Number of wildcards in `p`.
fn count_wildcards(p: &str) -> (n: usize)
    ensures
        n == wildcard_count(p@),
{
    let cs = str_chars(p);
    let mut n: usize = 0;
    let mut i: usize = 0;
    while i < cs.len()
        invariant
            cs@ == p@,
            i <= cs@.len(),
            n == wildcard_count(cs@.take(i as int)),
            n <= i,
        decreases cs@.len() - i,
    {
        assert(cs@.take(i + 1).drop_last() =~= cs@.take(i as int));
        if cs[i] == '*' || cs[i] == '?' {
            n = n + 1;
        }
        i = i + 1;
    }
    assert(cs@.take(cs@.len() as int) =~= cs@);
    n
}

/// The rank of a matching pattern, with the length in bytes.
fn rank_of(pattern: &str, priority: u32, name: &str) -> (r: (bool, u32, usize, usize))
    ensures
        pattern_rank(pattern@, priority, name@) == (if r.0 {
            (0int, 0int, 0int, 0int)
        } else {
            (1int, r.1 as int, r.2 as int, -(r.3 as int))
        }),
{
    if str_equals(pattern, name) {
        (true, 0, 0, 0)
    } else {
        let wildcards = count_wildcards(pattern);
        let len = pattern.as_bytes().len();
        assert(len == byte_len(pattern@));
        (false, priority, wildcards, len)
    }
}

/// Whether rank `a` comes strictly before rank `b` (as `rank_of` gives
/// them).
fn ranks_before(a: (bool, u32, usize, usize), b: (bool, u32, usize, usize)) -> (r: bool)
    ensures
        r == rank_before(
            if a.0 { (0int, 0int, 0int, 0int) } else { (1int, a.1 as int, a.2 as int, -(a.3 as int)) },
            if b.0 { (0int, 0int, 0int, 0int) } else { (1int, b.1 as int, b.2 as int, -(b.3 as int)) },
        ),
{
    if a.0 || b.0 {
        a.0 && !b.0
    } else if a.1 != b.1 {
        a.1 < b.1
    } else if a.2 != b.2 {
        a.2 < b.2
    } else {
        a.3 > b.3
    }
}

impl Config {
    /// The settings in effect on the output `output_name`: those of the
    /// best matching per-output pattern over the global ones, or the global
    /// ones when no pattern matches.
    pub fn for_output(&self, output_name: &str) -> (e: EffectiveConfig)
        requires
            output_name@.len() < usize::MAX,
        ensures
            e == spec_effective(self, best_entry(self.per_output@, output_name@)),
    {
        let ghost per = self.per_output@;
        let ghost name = output_name@;
        let mut best: Option<(usize, (bool, u32, usize, usize))> = None;
        let mut k: usize = 0;
        while k < self.per_output.len()
            invariant
                per == self.per_output@,
                name == output_name@,
                output_name@.len() < usize::MAX,
                k <= per.len(),
                match best {
                    None => forall|j: int| 0 <= j < k ==> !#[trigger] entry_matches(per, name, j),
                    Some((b, r)) => {
                        &&& b < k
                        &&& entry_matches(per, name, b as int)
                        &&& entry_rank(per, name, b as int) == (if r.0 {
                            (0int, 0int, 0int, 0int)
                        } else {
                            (1int, r.1 as int, r.2 as int, -(r.3 as int))
                        })
                        &&& forall|j: int|
                            0 <= j < k && #[trigger] entry_matches(per, name, j) ==> !rank_before(
                                entry_rank(per, name, j),
                                entry_rank(per, name, b as int),
                            )
                        &&& forall|j: int|
                            0 <= j < b && #[trigger] entry_matches(per, name, j) ==> rank_before(
                                entry_rank(per, name, b as int),
                                entry_rank(per, name, j),
                            )
                    },
                },
            decreases per.len() - k,
        {
            let pattern = self.per_output[k].0.as_str();
            if matches_pattern(output_name, pattern) {
                assert(entry_matches(per, name, k as int));
                let r = rank_of(pattern, self.per_output[k].1.priority, output_name);
                match best {
                    None => {
                        best = Some((k, r));
                    },
                    Some((_, br)) => {
                        if ranks_before(r, br) {
                            best = Some((k, r));
                        }
                    },
                }
            }
            k = k + 1;
        }
        match best {
            None => {
                proof {
                    assert(!exists|j: int| is_best(per, name, j));
                }
                EffectiveConfig {
                    source: self.source.clone(),
                    layout: self.layout,
                    loop_playback: self.loop_playback,
                    start_time_bits: self.start_time_bits,
                    playback_rate_bits: self.playback_rate_bits,
                    mute: self.mute,
                    volume_bits: self.volume_bits,
                    hwdec: self.hwdec,
                    power: self.power,
                }
            },
            Some((b, _)) => {
                proof {
                    assert(is_best(per, name, b as int));
                    let c = choose|j: int| is_best(per, name, j);
                    lemma_best_unique(per, name, b as int, c);
                }
                let o = &self.per_output[b].1;
                EffectiveConfig {
                    source: match &o.source {
                        Some(s) => s.clone(),
                        None => self.source.clone(),
                    },
                    layout: match o.layout {
                        Some(l) => l,
                        None => self.layout,
                    },
                    loop_playback: self.loop_playback,
                    start_time_bits: match o.start_time_bits {
                        Some(v) => v,
                        None => self.start_time_bits,
                    },
                    playback_rate_bits: match o.playback_rate_bits {
                        Some(v) => v,
                        None => self.playback_rate_bits,
                    },
                    mute: match o.mute {
                        Some(v) => v,
                        None => self.mute,
                    },
                    volume_bits: match o.volume_bits {
                        Some(v) => v,
                        None => self.volume_bits,
                    },
                    hwdec: self.hwdec,
                    power: self.power,
                }
            },
        }
    }
}


/// Exact names win: when an entry names the output exactly, the override
/// that applies is an exact entry too, whatever the priorities.
pub proof fn law_exact_match_wins(per: Seq<(String, OutputConfig)>, name: Seq<char>, k: int, b: int)
    requires
        0 <= k < per.len(),
        per[k].0@ == name,
        is_best(per, name, b),
    ensures
        per[b].0@ == name,
{
    lemma_glob_reflexive(name);
    assert(entry_matches(per, name, k));
    assert(entry_matches(per, name, b));
}

/// Among patterns that are not the output's name, a lower priority number
/// ranks first; at equal priority, fewer wildcards rank first; at equal
/// priority and wildcard count, the longer pattern ranks first.
pub proof fn law_pattern_order(p1: Seq<char>, prio1: u32, p2: Seq<char>, prio2: u32, name: Seq<char>)
    requires
        p1 != name,
        p2 != name,
    ensures
        prio1 < prio2 ==> rank_before(pattern_rank(p1, prio1, name), pattern_rank(p2, prio2, name)),
        prio1 == prio2 && wildcard_count(p1) < wildcard_count(p2) ==> rank_before(
            pattern_rank(p1, prio1, name),
            pattern_rank(p2, prio2, name),
        ),
        prio1 == prio2 && wildcard_count(p1) == wildcard_count(p2) && byte_len(p1) > byte_len(p2)
            ==> rank_before(pattern_rank(p1, prio1, name), pattern_rank(p2, prio2, name)),
{
}

/// An output that no pattern matches gets the global settings; one that a
/// pattern matches gets the overrides of some matching pattern.
pub proof fn law_unmatched_output_uses_global(c: &Config, name: Seq<char>)
    ensures
        (forall|k: int| !#[trigger] entry_matches(c.per_output@, name, k)) ==> spec_effective(
            c,
            best_entry(c.per_output@, name),
        ) == spec_effective(c, None),
        best_entry(c.per_output@, name) matches Some(b) ==> entry_matches(c.per_output@, name, b),
{
    if forall|k: int| !#[trigger] entry_matches(c.per_output@, name, k) {
        assert(!exists|k: int| is_best(c.per_output@, name, k));
    }
}

/// When a pattern is the best match for an output, each setting that its
/// override gives (source, layout, start time, playback rate, mute,
/// volume) is the one in effect there, and each setting it leaves out
/// keeps the global value; looping, hardware decoding and power options
/// are always the global ones.
pub proof fn law_override_settings_replace_global(c: &Config, name: Seq<char>, k: int)
    requires
        is_best(c.per_output@, name, k),
    ensures
        ({
            let e = spec_effective(c, best_entry(c.per_output@, name));
            let o = c.per_output@[k].1;
            &&& (o.source matches Some(s) ==> e.source == s)
            &&& (o.source is None ==> e.source == c.source)
            &&& (o.layout matches Some(l) ==> e.layout == l)
            &&& (o.layout is None ==> e.layout == c.layout)
            &&& (o.start_time_bits matches Some(v) ==> e.start_time_bits == v)
            &&& (o.start_time_bits is None ==> e.start_time_bits == c.start_time_bits)
            &&& (o.playback_rate_bits matches Some(v) ==> e.playback_rate_bits == v)
            &&& (o.playback_rate_bits is None ==> e.playback_rate_bits == c.playback_rate_bits)
            &&& (o.mute matches Some(v) ==> e.mute == v)
            &&& (o.mute is None ==> e.mute == c.mute)
            &&& (o.volume_bits matches Some(v) ==> e.volume_bits == v)
            &&& (o.volume_bits is None ==> e.volume_bits == c.volume_bits)
            &&& e.loop_playback == c.loop_playback
            &&& e.hwdec == c.hwdec
            &&& e.power == c.power
        }),
{
    let b = choose|j: int| is_best(c.per_output@, name, j);
    lemma_best_unique(c.per_output@, name, b, k);
    assert(best_entry(c.per_output@, name) == Some(k));
}

} // verus!
