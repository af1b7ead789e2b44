//! Wallpaper Engine video projects: the `project.json` model, the
//! properties that matter for playback, and their conversion to a daemon
//! configuration. Floating-point property values are carried as the bit
//! patterns of their `f64` values.

use vstd::prelude::*;
use crate::config::{Config, OutputConfig, PowerConfig, VideoSource};
use crate::core_types::LayoutMode;
use crate::text::{push_str, str_equals};

verus! {

/// A combo-box option.
#[derive(Debug)]
pub struct WeComboOption {
    pub label: String,
    pub value: i64,
}

/// A user property of a project.
#[derive(Debug)]
#[allow(inconsistent_fields)]
pub enum WeProperty {
    /// Drop-down (integer choice).
    Combo { order: i32, text: String, kind: String, value: i64, options: Vec<WeComboOption> },
    /// Slider (floating-point value).
    Slider {
        order: i32,
        text: String,
        kind: String,
        value_bits: u64,
        min_bits: Option<u64>,
        max_bits: Option<u64>,
        fraction: Option<bool>,
    },
    /// Check box.
    Bool { order: i32, text: String, kind: String, value: bool },
    /// Colour ("r g b" string).
    Color { order: i32, text: String, kind: String, value: String },
}

/// General settings: the named properties, in file order.
#[derive(Debug)]
pub struct WeGeneral {
    pub properties: Vec<(String, WeProperty)>,
}

impl Default for WeGeneral {
    fn default() -> (g: Self)
        ensures
            g.properties@.len() == 0,
    {
        WeGeneral { properties: Vec::new() }
    }
}

/// A Wallpaper Engine project (`project.json`).
#[derive(Debug)]
pub struct WeProject {
    /// Project type; only "video" projects are imported.
    pub project_type: String,
    /// Video file, relative to the project directory.
    pub file: String,
    pub title: String,
    pub description: String,
    pub preview: Option<String>,
    pub workshopid: Option<String>,
    pub general: WeGeneral,
    pub tags: Vec<String>,
}

/// The properties that matter for playback.
#[derive(Debug)]
pub struct WeProperties {
    /// Playback rate.
    pub rate_bits: u64,
    /// Volume (0 to 100).
    pub volume_bits: u64,
    /// 0: loop, 1: pause.
    pub playback_mode: i64,
    /// 0: centre, 1: fit, 2: fill, 3: stretch.
    pub alignment: i64,
    pub audio_processing: bool,
    /// Scheme colour ("r g b").
    pub scheme_color: Option<String>,
}

/// Bits of 1.0.
pub open spec fn one_bits() -> u64 {
    0x3FF0_0000_0000_0000
}

/// Bits of 50.0.
pub open spec fn fifty_bits() -> u64 {
    0x4049_0000_0000_0000
}

impl Default for WeProperties {
    fn default() -> (p: Self)
        ensures
            p.rate_bits == one_bits(),
            p.volume_bits == fifty_bits(),
            p.playback_mode == 0,
            p.alignment == 1,
            !p.audio_processing,
            p.scheme_color is None,
    {
        WeProperties {
            rate_bits: 0x3FF0_0000_0000_0000,
            volume_bits: 0x4049_0000_0000_0000,
            playback_mode: 0,
            alignment: 1,
            audio_processing: false,
            scheme_color: None,
        }
    }
}

/// The first property named `key`.
pub open spec fn find_property(props: Seq<(String, WeProperty)>, key: Seq<char>) -> Option<WeProperty>
    decreases props.len(),
{
    if props.len() == 0 {
        None
    } else if props[0].0@ == key {
        Some(props[0].1)
    } else {
        find_property(props.drop_first(), key)
    }
}

/// Index of the first property named `key`.
fn property_index(props: &Vec<(String, WeProperty)>, key: &str) -> (r: Option<usize>)
    ensures
        match r {
            Some(i) => i < props@.len() && find_property(props@, key@) == Some(props@[i as int].1),
            None => find_property(props@, key@) is None,
        },
{
    let mut i: usize = 0;
    assert(props@.skip(0) =~= props@);
    while i < props.len()
        invariant
            i <= props@.len(),
            find_property(props@, key@) == find_property(props@.skip(i as int), key@),
        decreases props@.len() - i,
    {
        assert(props@.skip(i as int).drop_first() =~= props@.skip(i + 1));
        if str_equals(props[i].0.as_str(), key) {
            return Some(i);
        }
        i = i + 1;
    }
    None
}

pub open spec fn slider_value(p: Option<WeProperty>) -> Option<u64> {
    match p {
        Some(WeProperty::Slider { value_bits, .. }) => Some(value_bits),
        _ => None,
    }
}

pub open spec fn combo_value(p: Option<WeProperty>) -> Option<i64> {
    match p {
        Some(WeProperty::Combo { value, .. }) => Some(value),
        _ => None,
    }
}

pub open spec fn bool_value(p: Option<WeProperty>) -> Option<bool> {
    match p {
        Some(WeProperty::Bool { value, .. }) => Some(value),
        _ => None,
    }
}

pub open spec fn color_value(p: Option<WeProperty>) -> Option<String> {
    match p {
        Some(WeProperty::Color { value, .. }) => Some(value),
        _ => None,
    }
}

impl WeProject {
    /// The playback properties of the project: `rate` and `volume` from
    /// sliders, `playbackmode` and `alignment` from combos,
    /// `audioprocessing` from a check box and `schemecolor` from a colour;
    /// a property that is missing or of another kind gives the default
    /// (rate 1, volume 50, loop, fit, no audio processing, no colour).
    pub fn extract_properties(&self) -> (p: WeProperties)
        ensures
            p.rate_bits == match slider_value(find_property(self.general.properties@, "rate"@)) {
                Some(v) => v,
                None => one_bits(),
            },
            p.volume_bits == match slider_value(find_property(self.general.properties@, "volume"@)) {
                Some(v) => v,
                None => fifty_bits(),
            },
            p.playback_mode == match combo_value(find_property(self.general.properties@, "playbackmode"@)) {
                Some(v) => v,
                None => 0,
            },
            p.alignment == match combo_value(find_property(self.general.properties@, "alignment"@)) {
                Some(v) => v,
                None => 1,
            },
            p.audio_processing == match bool_value(find_property(self.general.properties@, "audioprocessing"@)) {
                Some(v) => v,
                None => false,
            },
            p.scheme_color == color_value(find_property(self.general.properties@, "schemecolor"@)),
    {
        let props = &self.general.properties;
        let rate_bits = match property_index(props, "rate") {
            Some(i) => match &props[i].1 {
                WeProperty::Slider { value_bits, .. } => *value_bits,
                _ => 0x3FF0_0000_0000_0000,
            },
            None => 0x3FF0_0000_0000_0000,
        };
        let volume_bits = match property_index(props, "volume") {
            Some(i) => match &props[i].1 {
                WeProperty::Slider { value_bits, .. } => *value_bits,
                _ => 0x4049_0000_0000_0000,
            },
            None => 0x4049_0000_0000_0000,
        };
        let playback_mode = match property_index(props, "playbackmode") {
            Some(i) => match &props[i].1 {
                WeProperty::Combo { value, .. } => *value,
                _ => 0,
            },
            None => 0,
        };
        let alignment = match property_index(props, "alignment") {
            Some(i) => match &props[i].1 {
                WeProperty::Combo { value, .. } => *value,
                _ => 1,
            },
            None => 1,
        };
        let audio_processing = match property_index(props, "audioprocessing") {
            Some(i) => match &props[i].1 {
                WeProperty::Bool { value, .. } => *value,
                _ => false,
            },
            None => false,
        };
        let scheme_color = match property_index(props, "schemecolor") {
            Some(i) => match &props[i].1 {
                WeProperty::Color { value, .. } => Some(value.clone()),
                _ => None,
            },
            None => None,
        };
        WeProperties { rate_bits, volume_bits, playback_mode, alignment, audio_processing, scheme_color }
    }
}

/// The layout of a Wallpaper Engine alignment value: centre, fit (contain),
/// fill (cover), stretch (fill); unknown values give contain.
pub open spec fn spec_layout_of_alignment(a: i64) -> LayoutMode {
    if a == 0 {
        LayoutMode::Centre
    } else if a == 2 {
        LayoutMode::Cover
    } else if a == 3 {
        LayoutMode::Fill
    } else {
        LayoutMode::Contain
    }
}

/// The layout of a Wallpaper Engine alignment value.
pub fn convert_alignment(alignment: i64) -> (l: LayoutMode)
    ensures
        l == spec_layout_of_alignment(alignment),
{
    match alignment {
        0 => LayoutMode::Centre,
        1 => LayoutMode::Contain,
        2 => LayoutMode::Cover,
        3 => LayoutMode::Fill,
        _ => LayoutMode::Contain,
    }
}

pub open spec fn spec_alignment_name(a: i64) -> Seq<char> {
    if a == 0 {
        "center"@
    } else if a == 1 {
        "fit"@
    } else if a == 2 {
        "fill"@
    } else if a == 3 {
        "stretch"@
    } else {
        "unknown"@
    }
}

/// The name of a Wallpaper Engine alignment value.
pub fn alignment_name(alignment: i64) -> (s: &'static str)
    ensures
        s@ == spec_alignment_name(alignment),
{
    match alignment {
        0 => "center",
        1 => "fit",
        2 => "fill",
        3 => "stretch",
        _ => "unknown",
    }
}

/// Whether the bits are those of 0.0 or -0.0.
pub open spec fn is_zero_bits(b: u64) -> bool {
    b == 0 || b == 0x8000_0000_0000_0000u64
}

/// The daemon configuration of a video project whose video is at
/// `video_path`: the layout from the alignment, looping for playback mode
/// 0, muted when the volume is zero, the project's rate and volume,
/// hardware decoding, no per-output overrides and default power options.
pub fn generate_wayvid_config(project: &WeProject, video_path: String) -> (c: Config)
    ensures
        c.source == (VideoSource::File { path: video_path }),
        c.layout == spec_layout_of_alignment(
            match combo_value(find_property(project.general.properties@, "alignment"@)) {
                Some(v) => v,
                None => 1,
            },
        ),
        c.loop_playback == (match combo_value(find_property(project.general.properties@, "playbackmode"@)) {
            Some(v) => v,
            None => 0,
        } == 0),
        c.playback_rate_bits == match slider_value(find_property(project.general.properties@, "rate"@)) {
            Some(v) => v,
            None => one_bits(),
        },
        c.volume_bits == match slider_value(find_property(project.general.properties@, "volume"@)) {
            Some(v) => v,
            None => fifty_bits(),
        },
        c.mute == is_zero_bits(c.volume_bits),
        c.start_time_bits == 0,
        c.hwdec,
        c.per_output@.len() == 0,
        c.power == (PowerConfig {
            pause_when_hidden: true,
            pause_on_battery: false,
            max_fps: 0,
            max_memory_mb: 100,
            max_buffers: 8,
        }),
{
    let props = project.extract_properties();
    let layout = convert_alignment(props.alignment);
    let loop_playback = props.playback_mode == 0;
    let mute = props.volume_bits == 0 || props.volume_bits == 0x8000_0000_0000_0000u64;
    let per_output: Vec<(String, OutputConfig)> = Vec::new();
    Config {
        source: VideoSource::File { path: video_path },
        layout,
        loop_playback,
        start_time_bits: 0,
        playback_rate_bits: props.rate_bits,
        mute,
        volume_bits: props.volume_bits,
        hwdec: true,
        per_output,
        power: PowerConfig::default(),
    }
}

/// The comment lines that head a configuration imported from a project:
/// the origin, the title, the workshop id when there is one, and the
/// description when it is not empty, followed by an empty line.
pub open spec fn spec_config_header(p: &WeProject) -> Seq<char> {
    "# wayvid configuration\n"@ + "# Imported from Wallpaper Engine\n"@ + "# Title: "@ + p.title@
        + "\n"@ + match p.workshopid {
        Some(id) => "# Workshop ID: "@ + id@ + "\n"@,
        None => Seq::empty(),
    } + if p.description@.len() > 0 {
        "# Description: "@ + p.description@ + "\n"@
    } else {
        Seq::empty()
    } + "\n"@
}

/// The comment lines that head a configuration imported from `project`.
pub fn config_header(project: &WeProject) -> (s: String)
    ensures
        s@ == spec_config_header(project),
{
    let mut s = String::new();
    push_str(&mut s, "# wayvid configuration\n");
    push_str(&mut s, "# Imported from Wallpaper Engine\n");
    push_str(&mut s, "# Title: ");
    push_str(&mut s, project.title.as_str());
    push_str(&mut s, "\n");
    let ghost after_title = s@;
    match &project.workshopid {
        Some(id) => {
            push_str(&mut s, "# Workshop ID: ");
            push_str(&mut s, id.as_str());
            push_str(&mut s, "\n");
        },
        None => {},
    }
    let ghost after_id = s@;
    if !project.description.as_str().is_empty() {
        push_str(&mut s, "# Description: ");
        push_str(&mut s, project.description.as_str());
        push_str(&mut s, "\n");
    }
    let ghost after_desc = s@;
    push_str(&mut s, "\n");
    assert(s@ =~= spec_config_header(project));
    s
}

/// The name of an alignment value and the layout it converts to agree:
/// "center" is centred, "fit" contains, "fill" covers and "stretch" fills;
/// any other value is "unknown" and contained.
pub proof fn law_alignment_name_matches_layout(a: i64)
    ensures
        spec_alignment_name(a) == "center"@ <==> spec_layout_of_alignment(a) == LayoutMode::Centre,
        spec_alignment_name(a) == "fill"@ <==> spec_layout_of_alignment(a) == LayoutMode::Cover,
        spec_alignment_name(a) == "stretch"@ <==> spec_layout_of_alignment(a) == LayoutMode::Fill,
        (spec_alignment_name(a) == "fit"@ || spec_alignment_name(a) == "unknown"@)
            <==> spec_layout_of_alignment(a) == LayoutMode::Contain,
        !(0 <= a <= 3) <==> spec_alignment_name(a) == "unknown"@,
{
    reveal_strlit("center");
    reveal_strlit("fit");
    reveal_strlit("fill");
    reveal_strlit("stretch");
    reveal_strlit("unknown");
    assert("center"@.len() == 6 && "fit"@.len() == 3 && "fill"@.len() == 4);
    assert("stretch"@.len() == 7 && "unknown"@.len() == 7);
    assert("stretch"@[0] != "unknown"@[0]);
}

} // verus!
