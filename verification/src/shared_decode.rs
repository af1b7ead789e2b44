//! Shared decoding: one decoder per video source and decode parameters,
//! counted by the outputs that use it, and the latest frame it produced.

use vstd::prelude::*;
use std::sync::Arc;
use crate::config::{source_view, EffectiveConfig, VideoSource};
use crate::core_types::HwdecMode;
use crate::text::str_equals;
use crate::memory::{lemma_total_remove, lemma_total_update, total};

verus! {

/// Decode parameters that change the decoded output.
#[derive(Debug, Clone, Copy, PartialEq, Eq, Hash, Structural)]
pub struct DecodeParams {
    pub hwdec: HwdecMode,
}

/// A video source with its decode parameters: outputs whose keys are equal
/// share one decoder.
#[derive(Debug, PartialEq, Eq, Hash)]
pub struct SourceKey {
    pub source: VideoSource,
    pub params: DecodeParams,
}

impl SourceKey {
    /// The key of the settings in effect on an output.
    pub fn from_config(config: &EffectiveConfig) -> (k: SourceKey)
        ensures
            k.source == config.source,
            k.params.hwdec == (if config.hwdec {
                HwdecMode::Auto
            } else {
                HwdecMode::No
            }),
    {
        SourceKey {
            source: config.source.clone(),
            params: DecodeParams { hwdec: HwdecMode::from(config.hwdec) },
        }
    }

    pub fn clone_key(&self) -> (k: SourceKey)
        ensures
            k == *self,
    {
        SourceKey { source: self.source.clone(), params: self.params }
    }
}

/// A key as plain values.
pub open spec fn key_view(k: SourceKey) -> ((u8, Seq<char>, u64), HwdecMode) {
    (source_view(k.source), k.params.hwdec)
}

/// Whether two sources are the same.
pub fn same_source(a: &VideoSource, b: &VideoSource) -> (r: bool)
    ensures
        r == (source_view(*a) == source_view(*b)),
{
    match (a, b) {
        (VideoSource::File { path: x }, VideoSource::File { path: y }) => str_equals(x.as_str(), y.as_str()),
        (VideoSource::Directory { path: x }, VideoSource::Directory { path: y }) => str_equals(x.as_str(), y.as_str()),
        (VideoSource::Url { url: x }, VideoSource::Url { url: y }) => str_equals(x.as_str(), y.as_str()),
        (VideoSource::Rtsp { url: x }, VideoSource::Rtsp { url: y }) => str_equals(x.as_str(), y.as_str()),
        (VideoSource::Pipe { path: x }, VideoSource::Pipe { path: y }) => str_equals(x.as_str(), y.as_str()),
        (
            VideoSource::ImageSequence { path: x, fps_bits: f },
            VideoSource::ImageSequence { path: y, fps_bits: g },
        ) => *f == *g && str_equals(x.as_str(), y.as_str()),
        (VideoSource::WeProject { path: x }, VideoSource::WeProject { path: y }) => str_equals(x.as_str(), y.as_str()),
        (VideoSource::WeScene { path: x }, VideoSource::WeScene { path: y }) => str_equals(x.as_str(), y.as_str()),
        _ => false,
    }
}

/// Whether two keys are the same.
pub fn same_key(a: &SourceKey, b: &SourceKey) -> (r: bool)
    ensures
        r == (key_view(*a) == key_view(*b)),
{
    a.params.hwdec == b.params.hwdec && same_source(&a.source, &b.source)
}

// ---------------------------------------------------------------------
// Latest frame
// ---------------------------------------------------------------------

/// The latest decoded frame, shared without copying.
pub struct FrameBuffer {
    frame_data: Option<Arc<Vec<u8>>>,
    dimensions: Option<(i32, i32)>,
    sequence: u64,
}

impl FrameBuffer {
    /// Number of frames stored so far.
    pub closed spec fn spec_sequence(&self) -> u64 {
        self.sequence
    }

    /// The latest frame as plain values: pixels, width, height.
    pub closed spec fn spec_frame(&self) -> Option<(Seq<u8>, i32, i32)> {
        match (self.frame_data, self.dimensions) {
            (Some(d), Some((w, h))) => Some(((*d)@, w, h)),
            _ => None,
        }
    }

    /// No frame yet.
    pub fn new() -> (b: FrameBuffer)
        ensures
            b.spec_frame() is None,
            b.spec_sequence() == 0,
    {
        FrameBuffer { frame_data: None, dimensions: None, sequence: 0 }
    }

    /// Store a new frame; the sequence number grows by one.
    pub fn update_frame(&mut self, data: Vec<u8>, width: i32, height: i32)
        requires
            old(self).spec_sequence() < u64::MAX,
        ensures
            final(self).spec_frame() == Some((data@, width, height)),
            final(self).spec_sequence() == old(self).spec_sequence() + 1,
    {
        self.frame_data = Some(Arc::new(data));
        self.dimensions = Some((width, height));
        self.sequence = self.sequence + 1;
    }

    /// The latest frame with its size and sequence number.
    pub fn get_frame(&self) -> (r: Option<(Arc<Vec<u8>>, i32, i32, u64)>)
        ensures
            match self.spec_frame() {
                Some((d, w, h)) => r matches Some((a, rw, rh, s)) && (*a)@ == d && rw == w && rh == h && s
                    == self.spec_sequence(),
                None => r is None,
            },
    {
        match (&self.frame_data, self.dimensions) {
            (Some(d), Some((w, h))) => Some((d.clone(), w, h, self.sequence)),
            _ => None,
        }
    }
}

// ---------------------------------------------------------------------
// Decoder sharing
// ---------------------------------------------------------------------

pub type KeyView = ((u8, Seq<char>, u64), HwdecMode);

/// The consumer counts, in registration order.
pub open spec fn counts(s: Seq<(KeyView, usize)>) -> Seq<usize> {
    s.map_values(|e: (KeyView, usize)| e.1)
}

/// Index of the decoder of key `k`.
pub open spec fn index_of_key(s: Seq<(KeyView, usize)>, k: KeyView) -> Option<int> {
    if exists|i: int| 0 <= i < s.len() && #[trigger] s[i].0 == k {
        Some(choose|i: int| 0 <= i < s.len() && #[trigger] s[i].0 == k)
    } else {
        None
    }
}

/// The decoders after a consumer of key `k` arrives: the count of its
/// decoder grows, or a decoder with one consumer is added.
pub open spec fn after_acquire(s: Seq<(KeyView, usize)>, k: KeyView) -> Seq<(KeyView, usize)> {
    match index_of_key(s, k) {
        Some(i) => s.update(i, (k, (s[i].1 + 1) as usize)),
        None => s.push((k, 1usize)),
    }
}

/// The decoders after a consumer of key `k` leaves: the count of its
/// decoder shrinks, and a decoder left without consumers is removed.
pub open spec fn after_release(s: Seq<(KeyView, usize)>, k: KeyView) -> Seq<(KeyView, usize)> {
    match index_of_key(s, k) {
        Some(i) => if s[i].1 == 1 {
            s.remove(i)
        } else {
            s.update(i, (k, (s[i].1 - 1) as usize))
        },
        None => s,
    }
}

/// Keys are distinct and every decoder has a consumer.
pub open spec fn decoders_wf(s: Seq<(KeyView, usize)>) -> bool {
    &&& forall|i: int, j: int| 0 <= i < j < s.len() ==> (#[trigger] s[i]).0 != (#[trigger] s[j]).0
    &&& forall|i: int| 0 <= i < s.len() ==> (#[trigger] s[i]).1 >= 1
}

proof fn lemma_total_at_least_len(s: Seq<(KeyView, usize)>)
    requires
        forall|i: int| 0 <= i < s.len() ==> (#[trigger] s[i]).1 >= 1,
    ensures
        total(counts(s)) >= s.len(),
    decreases s.len(),
{
    if s.len() > 0 {
        let t = s.drop_last();
        assert forall|i: int| 0 <= i < t.len() implies (#[trigger] t[i]).1 >= 1 by {
            assert(t[i] == s[i]);
        }
        lemma_total_at_least_len(t);
        assert(counts(s).drop_last() =~= counts(t));
    }
}

proof fn lemma_index_of_key(s: Seq<(KeyView, usize)>, k: KeyView, i: int)
    requires
        decoders_wf(s),
        0 <= i < s.len(),
        s[i].0 == k,
    ensures
        index_of_key(s, k) == Some(i),
{
    let j = choose|j: int| 0 <= j < s.len() && #[trigger] s[j].0 == k;
    assert(0 <= j < s.len() && s[j].0 == k);
    if j < i {
        assert(s[j].0 != s[i].0);
    } else if i < j {
        assert(s[i].0 != s[j].0);
    }
}

/// Bookkeeping of the shared decoders: one per key, with its number of
/// consumers. Creating and stopping the decoders themselves is the
/// caller's part, as `acquire_decoder` and `release_decoder` tell.
pub struct SharedDecodeManager {
    decoders: Vec<(SourceKey, usize)>,
    active_decoders: usize,
    total_consumers: usize,
}

impl SharedDecodeManager {
    pub closed spec fn spec_decoders(&self) -> Seq<(KeyView, usize)> {
        self.decoders@.map_values(|e: (SourceKey, usize)| (key_view(e.0), e.1))
    }

    pub closed spec fn spec_active(&self) -> usize {
        self.active_decoders
    }

    pub closed spec fn spec_total(&self) -> usize {
        self.total_consumers
    }

    /// One decoder per key, each with a consumer; the decoder count is the
    /// number of keys and the consumer count the sum of the decoders'.
    pub open spec fn wf(&self) -> bool {
        &&& decoders_wf(self.spec_decoders())
        &&& self.spec_active() == self.spec_decoders().len()
        &&& self.spec_total() == total(counts(self.spec_decoders()))
    }

    /// No decoders.
    pub fn new() -> (m: SharedDecodeManager)
        ensures
            m.wf(),
            m.spec_decoders().len() == 0,
    {
        let m = SharedDecodeManager { decoders: Vec::new(), active_decoders: 0, total_consumers: 0 };
        assert(m.spec_decoders() =~= Seq::empty());
        assert(counts(m.spec_decoders()) =~= Seq::empty());
        m
    }

    fn find(&self, key: &SourceKey) -> (r: Option<usize>)
        requires
            self.wf(),
        ensures
            match index_of_key(self.spec_decoders(), key_view(*key)) {
                Some(i) => r matches Some(j) && j as int == i,
                None => r is None,
            },
            r matches Some(j) ==> j < self.decoders@.len(),
    {
        let ghost s = self.spec_decoders();
        let mut i: usize = 0;
        while i < self.decoders.len()
            invariant
                s == self.spec_decoders(),
                s.len() == self.decoders@.len(),
                decoders_wf(s),
                i <= s.len(),
                forall|k: int| 0 <= k < i ==> (#[trigger] s[k]).0 != key_view(*key),
            decreases s.len() - i,
        {
            if same_key(&self.decoders[i].0, key) {
                proof {
                    assert(s[i as int].0 == key_view(*key));
                    lemma_index_of_key(s, key_view(*key), i as int);
                }
                return Some(i);
            }
            i = i + 1;
        }
        None
    }

    /// Register a consumer of `key`. Returns whether the key had no decoder,
    /// so that the caller must start one.
    pub fn acquire_decoder(&mut self, key: SourceKey) -> (is_new: bool)
        requires
            old(self).wf(),
            old(self).spec_total() < usize::MAX,
        ensures
            final(self).wf(),
            is_new == index_of_key(old(self).spec_decoders(), key_view(key)) is None,
            final(self).spec_decoders() == after_acquire(old(self).spec_decoders(), key_view(key)),
            final(self).spec_total() == old(self).spec_total() + 1,
    {
        let ghost s = self.spec_decoders();
        let ghost kv = key_view(key);
        match self.find(&key) {
            Some(i) => {
                let c = self.decoders[i].1;
                proof {
                    assert(s[i as int].1 == c);
                    assert(counts(s)[i as int] == c);
                    lemma_total_update(counts(s), i as int, 0);
                    assert(total(counts(s)) >= c);
                    assert(c < usize::MAX);
                }
                let k = self.decoders[i].0.clone_key();
                self.decoders.set(i, (k, c + 1));
                self.total_consumers = self.total_consumers + 1;
                proof {
                    assert(self.spec_decoders() =~= s.update(i as int, (kv, (c + 1) as usize)));
                    assert(counts(self.spec_decoders()) =~= counts(s).update(i as int, (c + 1) as usize));
                    lemma_total_update(counts(s), i as int, (c + 1) as usize);
                }
                false
            },
            None => {
                proof {
                    lemma_total_at_least_len(s);
                }
                self.decoders.push((key, 1));
                self.active_decoders = self.active_decoders + 1;
                self.total_consumers = self.total_consumers + 1;
                proof {
                    assert(self.spec_decoders() =~= s.push((kv, 1usize)));
                    assert(counts(self.spec_decoders()).drop_last() =~= counts(s));
                }
                true
            },
        }
    }

    /// Unregister a consumer of `key`. Returns whether its decoder lost its
    /// last consumer and was removed, so that the caller must stop it.
    pub fn release_decoder(&mut self, key: &SourceKey) -> (removed: bool)
        requires
            old(self).wf(),
        ensures
            final(self).wf(),
            removed == (index_of_key(old(self).spec_decoders(), key_view(*key)) matches Some(i)
                && old(self).spec_decoders()[i].1 == 1),
            final(self).spec_decoders() == after_release(old(self).spec_decoders(), key_view(*key)),
    {
        let ghost s = self.spec_decoders();
        let ghost kv = key_view(*key);
        match self.find(key) {
            Some(i) => {
                let c = self.decoders[i].1;
                proof {
                    assert(s[i as int].1 == c);
                    assert(counts(s)[i as int] == c);
                    lemma_total_update(counts(s), i as int, 0);
                }
                if c == 1 {
                    self.decoders.remove(i);
                    self.active_decoders = self.active_decoders - 1;
                    self.total_consumers = self.total_consumers - 1;
                    proof {
                        assert(self.spec_decoders() =~= s.remove(i as int));
                        assert(counts(self.spec_decoders()) =~= counts(s).remove(i as int));
                        lemma_total_remove(counts(s), i as int);
                    }
                    true
                } else {
                    let k = self.decoders[i].0.clone_key();
                    self.decoders.set(i, (k, c - 1));
                    self.total_consumers = self.total_consumers - 1;
                    proof {
                        assert(self.spec_decoders() =~= s.update(i as int, (kv, (c - 1) as usize)));
                        assert(counts(self.spec_decoders()) =~= counts(s).update(i as int, (c - 1) as usize));
                        lemma_total_update(counts(s), i as int, (c - 1) as usize);
                    }
                    false
                }
            },
            None => false,
        }
    }

    /// Number of decoders and of consumers.
    pub fn global_stats(&self) -> (r: GlobalStats)
        ensures
            r.active_decoders == self.spec_active(),
            r.total_consumers == self.spec_total(),
    {
        GlobalStats { active_decoders: self.active_decoders, total_consumers: self.total_consumers }
    }
}

/// Decoder and consumer counts.
#[derive(Debug, Clone, Copy, PartialEq, Eq, Structural)]
pub struct GlobalStats {
    pub active_decoders: usize,
    pub total_consumers: usize,
}

/// A consumer that arrives and leaves again leaves the decoders as they
/// were.
pub proof fn law_release_undoes_acquire(s: Seq<(KeyView, usize)>, k: KeyView)
    requires
        decoders_wf(s),
        forall|i: int| 0 <= i < s.len() ==> (#[trigger] s[i]).1 < usize::MAX,
    ensures
        after_release(after_acquire(s, k), k) == s,
{
    match index_of_key(s, k) {
        Some(i) => {
            let t = s.update(i, (k, (s[i].1 + 1) as usize));
            assert(s[i].0 == k);
            assert(decoders_wf(t));
            lemma_index_of_key(t, k, i);
            assert(t.update(i, (k, (t[i].1 - 1) as usize)) =~= s);
        },
        None => {
            let t = s.push((k, 1usize));
            assert(decoders_wf(t)) by {
                assert forall|a: int, b: int| 0 <= a < b < t.len() implies (#[trigger] t[a]).0 != (#[trigger] t[b]).0 by {
                    if b == s.len() {
                        assert(!(0 <= a < s.len() && s[a].0 == k));
                    }
                }
            }
            lemma_index_of_key(t, k, s.len() as int);
            assert(t.remove(s.len() as int) =~= s);
        },
    }
}

} // verus!
