//! Adaptive frame skipping: a bounded history of frame durations and the
//! hysteresis that enters skip mode after sustained overload and leaves it
//! after sustained recovery. Load ratios are floating-point and computed by
//! the caller, which classifies each one as a `LoadLevel`.

use vstd::prelude::*;

verus! {

/// Most frame durations kept.
pub open spec fn history_size() -> nat {
    60
}

/// Consecutive frames needed to change mode.
pub open spec fn hysteresis_frames() -> nat {
    3
}

/// Frames of history needed before any decision.
pub open spec fn min_history() -> nat {
    10
}

/// Load relative to the frame budget.
#[derive(Debug, Clone, Copy, PartialEq, Eq, Structural)]
pub enum LoadLevel {
    /// Above 80% of the budget.
    Overloaded,
    /// Below 60% of the budget.
    Recovered,
    /// In between.
    Moderate,
}

/// Skip mode and the run of frames that argue for leaving the current
/// mode.
pub open spec fn spec_skip_step(in_skip: bool, run: nat, level: LoadLevel) -> (bool, nat) {
    let pushes = if in_skip {
        level == LoadLevel::Recovered
    } else {
        level == LoadLevel::Overloaded
    };
    let run2 = if pushes {
        run + 1
    } else {
        0
    };
    if run2 >= hysteresis_frames() {
        (!in_skip, 0)
    } else {
        (in_skip, run2)
    }
}

/// The frame rate aimed at: the configured one, or 60 when it is 0.
pub fn target_rate(target_fps: u32) -> (fps: u32)
    ensures
        fps == (if target_fps > 0 {
            target_fps
        } else {
            60
        }),
{
    if target_fps > 0 {
        target_fps
    } else {
        60
    }
}

/// Frame durations and skip decisions.
pub struct FrameTiming {
    /// Recent frame durations in nanoseconds, oldest first.
    frame_durations: Vec<u64>,
    /// Frame budget in nanoseconds.
    target_frame_nanos: u64,
    frames_skipped: u64,
    frames_rendered: u64,
    in_skip_mode: bool,
    consecutive_state_frames: usize,
}

impl FrameTiming {
    pub closed spec fn spec_history(&self) -> Seq<u64> {
        self.frame_durations@
    }

    pub closed spec fn spec_skipping(&self) -> bool {
        self.in_skip_mode
    }

    pub closed spec fn spec_run(&self) -> nat {
        self.consecutive_state_frames as nat
    }

    pub closed spec fn spec_rendered(&self) -> u64 {
        self.frames_rendered
    }

    pub closed spec fn spec_skipped(&self) -> u64 {
        self.frames_skipped
    }

    pub closed spec fn spec_target(&self) -> u64 {
        self.target_frame_nanos
    }

    /// The history holds at most `history_size()` durations and the run is
    /// shorter than `hysteresis_frames()`.
    pub closed spec fn wf(&self) -> bool {
        self.frame_durations@.len() <= history_size() && self.consecutive_state_frames < 3
    }

    /// A tracker with the given frame budget, the length of a frame at
    /// `target_rate` (computed by the caller in floating point).
    pub fn new(target_frame_nanos: u64) -> (t: FrameTiming)
        ensures
            t.wf(),
            t.spec_history().len() == 0,
            !t.spec_skipping(),
            t.spec_run() == 0,
            t.spec_rendered() == 0,
            t.spec_skipped() == 0,
            t.spec_target() == target_frame_nanos,
    {
        FrameTiming {
            frame_durations: Vec::new(),
            target_frame_nanos,
            frames_skipped: 0,
            frames_rendered: 0,
            in_skip_mode: false,
            consecutive_state_frames: 0,
        }
    }

    /// Record a rendered frame of the given duration; the oldest duration
    /// leaves a full history.
    pub fn end_frame(&mut self, duration_nanos: u64)
        requires
            old(self).wf(),
            old(self).spec_rendered() < u64::MAX,
        ensures
            final(self).wf(),
            final(self).spec_history() == (if old(self).spec_history().len() >= history_size() {
                old(self).spec_history().drop_first()
            } else {
                old(self).spec_history()
            }).push(duration_nanos),
            final(self).spec_rendered() == old(self).spec_rendered() + 1,
            final(self).spec_skipped() == old(self).spec_skipped(),
            final(self).spec_skipping() == old(self).spec_skipping(),
            final(self).spec_run() == old(self).spec_run(),
            final(self).spec_target() == old(self).spec_target(),
    {
        if self.frame_durations.len() >= 60 {
            self.frame_durations.remove(0);
        }
        self.frame_durations.push(duration_nanos);
        self.frames_rendered = self.frames_rendered + 1;
    }

    /// Record a skipped frame.
    pub fn record_skip(&mut self)
        requires
            old(self).spec_skipped() < u64::MAX,
        ensures
            final(self).spec_skipped() == old(self).spec_skipped() + 1,
            final(self).spec_rendered() == old(self).spec_rendered(),
            final(self).spec_history() == old(self).spec_history(),
            final(self).spec_skipping() == old(self).spec_skipping(),
            final(self).spec_run() == old(self).spec_run(),
            final(self).spec_target() == old(self).spec_target(),
            old(self).wf() ==> final(self).wf(),
    {
        self.frames_skipped = self.frames_skipped + 1;
    }

    /// Whether to skip the next frame, given the level of the current load.
    /// With fewer than ten durations recorded nothing changes and no frame
    /// is skipped; otherwise skip mode is entered after three consecutive
    /// overloaded frames and left after three consecutive recovered ones.
    pub fn should_skip_frame(&mut self, level: LoadLevel) -> (skip: bool)
        requires
            old(self).wf(),
        ensures
            final(self).wf(),
            old(self).spec_history().len() < min_history() ==> !skip && final(self).spec_skipping()
                == old(self).spec_skipping() && final(self).spec_run() == old(self).spec_run(),
            old(self).spec_history().len() >= min_history() ==> (final(self).spec_skipping(), final(self).spec_run())
                == spec_skip_step(old(self).spec_skipping(), old(self).spec_run(), level) && skip
                == final(self).spec_skipping(),
            final(self).spec_history() == old(self).spec_history(),
            final(self).spec_rendered() == old(self).spec_rendered(),
            final(self).spec_skipped() == old(self).spec_skipped(),
            final(self).spec_target() == old(self).spec_target(),
    {
        if self.frame_durations.len() < 10 {
            return false;
        }
        let pushes = if self.in_skip_mode {
            level == LoadLevel::Recovered
        } else {
            level == LoadLevel::Overloaded
        };
        if pushes {
            self.consecutive_state_frames = self.consecutive_state_frames + 1;
        } else {
            self.consecutive_state_frames = 0;
        }
        if self.consecutive_state_frames >= 3 {
            self.in_skip_mode = !self.in_skip_mode;
            self.consecutive_state_frames = 0;
        }
        self.in_skip_mode
    }

    /// Sum of the recorded durations and their number, for the caller's
    /// average.
    pub fn history_total(&self) -> (r: (u128, usize))
        requires
            self.wf(),
        ensures
            r.1 == self.spec_history().len(),
            r.0 == total_nanos(self.spec_history()),
    {
        let mut sum: u128 = 0;
        let mut i: usize = 0;
        while i < self.frame_durations.len()
            invariant
                i <= self.frame_durations@.len(),
                self.frame_durations@.len() <= 60,
                sum == total_nanos(self.frame_durations@.take(i as int)),
                sum <= i * 0xFFFF_FFFF_FFFF_FFFFu64,
            decreases self.frame_durations@.len() - i,
        {
            assert(self.frame_durations@.take(i + 1).drop_last() =~= self.frame_durations@.take(i as int));
            sum = sum + self.frame_durations[i] as u128;
            i = i + 1;
        }
        assert(self.frame_durations@.take(self.frame_durations@.len() as int) =~= self.frame_durations@);
        (sum, self.frame_durations.len())
    }

    /// Counters of rendered and skipped frames, and the mode.
    pub fn get_counts(&self) -> (r: (u64, u64, bool))
        ensures
            r == (self.spec_rendered(), self.spec_skipped(), self.spec_skipping()),
    {
        (self.frames_rendered, self.frames_skipped, self.in_skip_mode)
    }

    /// The frame budget in nanoseconds.
    pub fn target_frame_nanos(&self) -> (n: u64)
        ensures
            n == self.spec_target(),
    {
        self.target_frame_nanos
    }

    /// Clear the counters and leave skip mode; the history stays.
    pub fn reset_stats(&mut self)
        ensures
            final(self).spec_rendered() == 0,
            final(self).spec_skipped() == 0,
            !final(self).spec_skipping(),
            final(self).spec_run() == 0,
            final(self).spec_history() == old(self).spec_history(),
            final(self).spec_target() == old(self).spec_target(),
            old(self).wf() ==> final(self).wf(),
    {
        self.frames_skipped = 0;
        self.frames_rendered = 0;
        self.in_skip_mode = false;
        self.consecutive_state_frames = 0;
    }
}

/// Sum of durations.
pub open spec fn total_nanos(s: Seq<u64>) -> nat
    decreases s.len(),
{
    if s.len() == 0 {
        0
    } else {
        total_nanos(s.drop_last()) + s.last() as nat
    }
}

/// Skip mode is entered only after three consecutive overloaded frames:
/// outside skip mode, after one or two of them the mode is unchanged, and
/// the third one enters it.
pub proof fn law_enter_after_three_overloaded()
    ensures
        spec_skip_step(false, 0, LoadLevel::Overloaded) == (false, 1nat),
        spec_skip_step(false, 1, LoadLevel::Overloaded) == (false, 2nat),
        spec_skip_step(false, 2, LoadLevel::Overloaded) == (true, 0nat),
{
}

/// Skip mode is left only after three consecutive recovered frames.
pub proof fn law_leave_after_three_recovered()
    ensures
        spec_skip_step(true, 0, LoadLevel::Recovered) == (true, 1nat),
        spec_skip_step(true, 1, LoadLevel::Recovered) == (true, 2nat),
        spec_skip_step(true, 2, LoadLevel::Recovered) == (false, 0nat),
{
}

/// Any frame that does not argue for leaving the current mode keeps the
/// mode and restarts the count.
pub proof fn law_interrupted_run_restarts(in_skip: bool, run: nat, level: LoadLevel)
    requires
        run < 3,
        in_skip ==> level != LoadLevel::Recovered,
        !in_skip ==> level != LoadLevel::Overloaded,
    ensures
        spec_skip_step(in_skip, run, level) == (in_skip, 0nat),
{
}

/// The mode changes only on the third consecutive frame: a mode change
/// needs a run of two before the step.
pub proof fn law_mode_changes_only_after_run(in_skip: bool, run: nat, level: LoadLevel)
    requires
        run < 3,
    ensures
        spec_skip_step(in_skip, run, level).0 != in_skip ==> run == 2,
{
}


/// The frame rate a scene wallpaper is drawn at.
pub struct ScenePacing {
    target_fps: u32,
}

impl ScenePacing {
    pub closed spec fn fps(&self) -> u32 {
        self.target_fps
    }

    /// The rate lies between 1 and 144 frames per second.
    pub closed spec fn wf(&self) -> bool {
        1 <= self.target_fps <= 144
    }

    /// 60 frames per second.
    pub fn new() -> (p: ScenePacing)
        ensures
            p.wf(),
            p.fps() == 60,
    {
        ScenePacing { target_fps: 60 }
    }

    /// Set the rate, held between 1 and 144.
    pub fn set_target_fps(&mut self, fps: u32)
        ensures
            final(self).wf(),
            final(self).fps() == if fps < 1 {
                1
            } else if fps > 144 {
                144
            } else {
                fps
            },
    {
        self.target_fps = if fps < 1 {
            1
        } else if fps > 144 {
            144
        } else {
            fps
        };
    }

    /// Milliseconds per frame, rounded down.
    pub fn frame_time_ms(&self) -> (ms: u64)
        requires
            self.wf(),
        ensures
            ms == 1000int / (self.fps() as int),
    {
        1000 / self.target_fps as u64
    }
}

} // verus!
