//! Decisions of the daemon's event loop: pausing on battery, reading a
//! layout name, the kind of source a path names, the IPC socket path, the
//! outputs a command addresses and the source switches a configuration
//! reload calls for. The loop itself, which
//! talks to the compositor, the player and the power supply, performs the
//! actions these functions choose.

use vstd::prelude::*;
use crate::config::{best_entry, source_view, spec_effective, Config, VideoSource};
use crate::workshop::{join_path, spec_join};
use crate::text::push_str;
use crate::core_types::LayoutMode;
use crate::text::{str_chars, str_equals, to_lowercase, unicode_lowercase};

verus! {

/// What to do with playback after a power check.
#[derive(Debug, Clone, Copy, PartialEq, Eq, Structural)]
pub enum PowerAction {
    /// Pause every surface.
    Pause,
    /// Resume every surface.
    Resume,
    /// Leave playback as it is.
    Keep,
}

/// The battery rule: playback pauses when the configuration asks to pause
/// on battery and the machine runs on battery, and resumes when that stops
/// being so; only a change of state acts. Gives the new "paused for
/// battery" state and the action.
pub open spec fn spec_power_transition(pause_on_battery: bool, on_battery: bool, paused_for_battery: bool) -> (
    bool,
    PowerAction,
) {
    let should_pause = pause_on_battery && on_battery;
    if should_pause && !paused_for_battery {
        (true, PowerAction::Pause)
    } else if !should_pause && paused_for_battery {
        (false, PowerAction::Resume)
    } else {
        (paused_for_battery, PowerAction::Keep)
    }
}

/// Apply the battery rule.
pub fn power_transition(pause_on_battery: bool, on_battery: bool, paused_for_battery: bool) -> (r: (
    bool,
    PowerAction,
))
    ensures
        r == spec_power_transition(pause_on_battery, on_battery, paused_for_battery),
{
    let should_pause = pause_on_battery && on_battery;
    if should_pause && !paused_for_battery {
        (true, PowerAction::Pause)
    } else if !should_pause && paused_for_battery {
        (false, PowerAction::Resume)
    } else {
        (paused_for_battery, PowerAction::Keep)
    }
}

/// The rule acts once per change: a second check with unchanged inputs
/// keeps playback as it is, and the state it leaves is whether playback
/// must be paused.
pub proof fn law_power_transition_settles(pause_on_battery: bool, on_battery: bool, paused: bool)
    ensures
        spec_power_transition(pause_on_battery, on_battery, paused).0 == (pause_on_battery && on_battery),
        spec_power_transition(
            pause_on_battery,
            on_battery,
            spec_power_transition(pause_on_battery, on_battery, paused).0,
        ).1 == PowerAction::Keep,
{
}

/// The layout a lowercased name selects ("centre"/"center", "stretch",
/// "contain"/"fit", "fill", "cover"); none for other names.
pub open spec fn spec_layout_named(v: Seq<char>) -> Option<LayoutMode> {
    if v == "centre"@ || v == "center"@ {
        Some(LayoutMode::Centre)
    } else if v == "stretch"@ {
        Some(LayoutMode::Stretch)
    } else if v == "contain"@ || v == "fit"@ {
        Some(LayoutMode::Contain)
    } else if v == "fill"@ {
        Some(LayoutMode::Fill)
    } else if v == "cover"@ {
        Some(LayoutMode::Cover)
    } else {
        None
    }
}

/// The layout a command names, ignoring case.
pub fn parse_layout_name(name: &str) -> (r: Option<LayoutMode>)
    ensures
        r == spec_layout_named(unicode_lowercase(name@)),
{
    let lowered = to_lowercase(name);
    let v = lowered.as_str();
    if str_equals(v, "centre") || str_equals(v, "center") {
        Some(LayoutMode::Centre)
    } else if str_equals(v, "stretch") {
        Some(LayoutMode::Stretch)
    } else if str_equals(v, "contain") || str_equals(v, "fit") {
        Some(LayoutMode::Contain)
    } else if str_equals(v, "fill") {
        Some(LayoutMode::Fill)
    } else if str_equals(v, "cover") {
        Some(LayoutMode::Cover)
    } else {
        None
    }
}

pub open spec fn has_prefix(s: Seq<char>, p: Seq<char>) -> bool {
    p.len() <= s.len() && s.subrange(0, p.len() as int) == p
}

/// Whether `s` starts with `prefix`.
pub fn str_starts_with(s: &str, prefix: &str) -> (b: bool)
    ensures
        b == has_prefix(s@, prefix@),
{
    let cs = str_chars(s);
    crate::text::starts_with_chars(&cs, prefix)
}

/// The source a command's path names: an HTTP(S) URL, an RTSP URL, or
/// else a directory or a file. `expanded` is the path with a leading `~`
/// expanded and `is_dir` whether it is a directory; both are for the caller
/// to find out.
pub fn source_from_path(source_path: &str, expanded: &str, is_dir: bool) -> (v: VideoSource)
    ensures
        (has_prefix(source_path@, "http://"@) || has_prefix(source_path@, "https://"@)) ==> (v matches VideoSource::Url { url } && url@ == source_path@),
        !(has_prefix(source_path@, "http://"@) || has_prefix(source_path@, "https://"@)) && has_prefix(source_path@, "rtsp://"@) ==> (v matches VideoSource::Rtsp { url } && url@ == source_path@),
        !(has_prefix(source_path@, "http://"@) || has_prefix(source_path@, "https://"@) || has_prefix(source_path@, "rtsp://"@)) ==> (
            if is_dir {
                v matches VideoSource::Directory { path } && path@ == expanded@
            } else {
                v matches VideoSource::File { path } && path@ == expanded@
            }
        ),
{
    if str_starts_with(source_path, "http://") || str_starts_with(source_path, "https://") {
        VideoSource::Url { url: String::from_str(source_path) }
    } else if str_starts_with(source_path, "rtsp://") {
        VideoSource::Rtsp { url: String::from_str(source_path) }
    } else if is_dir {
        VideoSource::Directory { path: String::from_str(expanded) }
    } else {
        VideoSource::File { path: String::from_str(expanded) }
    }
}


/// The control socket: `wayvid.sock` in the runtime directory, or without
/// one `wayvid.sock` in the per-user directory `/tmp/wayvid-<user>`
/// (`unknown` when the user is not known either).
pub open spec fn spec_socket_path(runtime_dir: Option<Seq<char>>, user: Option<Seq<char>>) -> Seq<char> {
    match runtime_dir {
        Some(d) => spec_join(d, "wayvid.sock"@),
        None => "/tmp/wayvid-"@ + match user {
            Some(u) => u,
            None => "unknown"@,
        } + "/wayvid.sock"@,
    }
}

/// The control socket path, given `XDG_RUNTIME_DIR` and `USER`.
pub fn socket_path(runtime_dir: Option<&str>, user: Option<&str>) -> (p: String)
    ensures
        p@ == spec_socket_path(
            match runtime_dir {
                Some(d) => Some(d@),
                None => None,
            },
            match user {
                Some(u) => Some(u@),
                None => None,
            },
        ),
{
    match runtime_dir {
        Some(d) => join_path(d, "wayvid.sock"),
        None => {
            let mut s = String::new();
            push_str(&mut s, "/tmp/wayvid-");
            match user {
                Some(u) => push_str(&mut s, u),
                None => push_str(&mut s, "unknown"),
            }
            push_str(&mut s, "/wayvid.sock");
            s
        },
    }
}

/// Which surfaces a command acts on.
#[derive(Debug, Clone, Copy, PartialEq, Eq, Structural)]
pub enum CommandTarget {
    /// Every surface.
    All,
    /// The surface at this index.
    One(usize),
    /// No surface has the named output ("Output not found").
    NotFound,
}

/// The surfaces a command naming `output` acts on, given the surfaces'
/// output names in order: all of them without a name, otherwise the first
/// surface of that name.
pub fn command_target(outputs: &Vec<String>, output: Option<&str>) -> (t: CommandTarget)
    ensures
        output is None ==> t == CommandTarget::All,
        output matches Some(name) ==> match t {
            CommandTarget::One(i) => i < outputs@.len() && outputs@[i as int]@ == name@ && forall|k: int|
                0 <= k < i ==> (#[trigger] outputs@[k])@ != name@,
            CommandTarget::NotFound => forall|k: int| 0 <= k < outputs@.len() ==> (#[trigger] outputs@[k])@ != name@,
            CommandTarget::All => false,
        },
{
    match output {
        None => CommandTarget::All,
        Some(name) => {
            let mut i: usize = 0;
            while i < outputs.len()
                invariant
                    output == Some(name),
                    i <= outputs@.len(),
                    forall|k: int| 0 <= k < i ==> (#[trigger] outputs@[k])@ != name@,
                decreases outputs@.len() - i,
            {
                if str_equals(outputs[i].as_str(), name) {
                    return CommandTarget::One(i);
                }
                i = i + 1;
            }
            CommandTarget::NotFound
        },
    }
}

/// What the player is asked to open when a surface switches to `source`:
/// standard input for a pipe with an empty path, the path or URL
/// otherwise.
pub fn switch_source_path(source: &VideoSource) -> (p: String)
    ensures
        (source matches VideoSource::Pipe { path } && path@.len() == 0) ==> p@ == "fd://0"@,
        !(source matches VideoSource::Pipe { path } && path@.len() == 0) ==> p@ == source.location(),
{
    match source {
        VideoSource::File { path } => path.clone(),
        VideoSource::Url { url } => url.clone(),
        VideoSource::Rtsp { url } => url.clone(),
        VideoSource::Directory { path } => path.clone(),
        VideoSource::Pipe { path } => {
            if path.as_str().is_empty() {
                String::from_str("fd://0")
            } else {
                path.clone()
            }
        },
        VideoSource::ImageSequence { path, .. } => path.clone(),
        VideoSource::WeProject { path } => path.clone(),
        VideoSource::WeScene { path } => path.clone(),
    }
}

/// Whether the source of a surface must change on reload: its current
/// source and the one now in effect differ.
pub fn source_changed(current: &VideoSource, effective: &VideoSource) -> (b: bool)
    ensures
        b == (source_view(*current) != source_view(*effective)),
{
    !crate::shared_decode::same_source(current, effective)
}


/// The source now in effect on output `name` under `config`.
pub open spec fn effective_source(config: &Config, name: Seq<char>) -> VideoSource {
    spec_effective(config, best_entry(config.per_output@, name)).source
}

/// The outputs whose source a reload of `config` changes, in order: each
/// output (name, current source) whose current source differs from the
/// one now in effect, with the new source.
pub open spec fn spec_source_changes(config: &Config, outputs: Seq<(String, VideoSource)>) -> Seq<
    (Seq<char>, VideoSource),
>
    decreases outputs.len(),
{
    if outputs.len() == 0 {
        Seq::empty()
    } else {
        let rest = spec_source_changes(config, outputs.drop_last());
        let (name, current) = outputs.last();
        let next = effective_source(config, name@);
        if source_view(current) != source_view(next) {
            rest.push((name@, next))
        } else {
            rest
        }
    }
}

/// The source switches a reload of `config` calls for, given each
/// output's name and current source: the outputs whose source now in
/// effect differs, with that source.
pub fn reload_source_changes(config: &Config, outputs: &Vec<(String, VideoSource)>) -> (r: Vec<(String, VideoSource)>)
    requires
        forall|i: int| 0 <= i < outputs@.len() ==> (#[trigger] outputs@[i]).0@.len() < usize::MAX,
    ensures
        r@.map_values(|c: (String, VideoSource)| (c.0@, c.1)) == spec_source_changes(config, outputs@),
{
    let mut changes: Vec<(String, VideoSource)> = Vec::new();
    let mut i: usize = 0;
    while i < outputs.len()
        invariant
            i <= outputs@.len(),
            forall|k: int| 0 <= k < outputs@.len() ==> (#[trigger] outputs@[k]).0@.len() < usize::MAX,
            changes@.map_values(|c: (String, VideoSource)| (c.0@, c.1)) == spec_source_changes(
                config,
                outputs@.take(i as int),
            ),
        decreases outputs@.len() - i,
    {
        assert(outputs@.take(i + 1).drop_last() =~= outputs@.take(i as int));
        let name = &outputs[i].0;
        let effective = config.for_output(name.as_str());
        let ghost before = changes@;
        if source_changed(&outputs[i].1, &effective.source) {
            changes.push((name.clone(), effective.source));
            proof {
                assert(changes@.map_values(|c: (String, VideoSource)| (c.0@, c.1)) =~= before.map_values(
                    |c: (String, VideoSource)| (c.0@, c.1),
                ).push((outputs@[i as int].0@, effective_source(config, outputs@[i as int].0@))));
            }
        }
        i = i + 1;
    }
    assert(outputs@.take(outputs@.len() as int) =~= outputs@);
    changes
}


/// Why the daemon cannot start after the first roundtrip.
#[derive(Debug, Clone, Copy, PartialEq, Eq, Structural)]
pub enum StartupError {
    /// The compositor offers no `wl_compositor`.
    NoCompositor,
    /// The compositor offers no `zwlr_layer_shell_v1`: it is not supported.
    NoLayerShell,
}

/// Whether the daemon can go on after binding the globals: it needs the
/// compositor global, then the layer shell.
pub fn check_required_globals(has_compositor: bool, has_layer_shell: bool) -> (r: Result<(), StartupError>)
    ensures
        !has_compositor ==> r == Err::<(), StartupError>(StartupError::NoCompositor),
        has_compositor && !has_layer_shell ==> r == Err::<(), StartupError>(StartupError::NoLayerShell),
        has_compositor && has_layer_shell ==> r is Ok,
{
    if !has_compositor {
        Err(StartupError::NoCompositor)
    } else if !has_layer_shell {
        Err(StartupError::NoLayerShell)
    } else {
        Ok(())
    }
}

/// Milliseconds between two power checks of the event loop.
pub const POWER_CHECK_INTERVAL_MS: u64 = 5000;

/// Milliseconds between two frame statistics reports.
pub const STATS_REPORT_INTERVAL_MS: u64 = 10000;

/// The periodic work due in a turn of the event loop, given the
/// milliseconds since the last power check and since the last statistics
/// report: (power check due, report due). A due task runs and its clock
/// restarts.
pub fn periodic_work_due(since_power_check_ms: u64, since_stats_report_ms: u64) -> (r: (bool, bool))
    ensures
        r.0 == (since_power_check_ms >= POWER_CHECK_INTERVAL_MS),
        r.1 == (since_stats_report_ms >= STATS_REPORT_INTERVAL_MS),
{
    (since_power_check_ms >= POWER_CHECK_INTERVAL_MS, since_stats_report_ms >= STATS_REPORT_INTERVAL_MS)
}

} // verus!
