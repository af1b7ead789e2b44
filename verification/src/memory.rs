//! Memory accounting for the video subsystem: running totals of the bytes
//! that managed buffers allocate and free, and a pool that keeps freed
//! buffers for reuse within a count and a byte limit.

use vstd::prelude::*;
use crate::text::{decimal, digit_char, push_char, push_decimal, push_str};

verus! {

// ---------------------------------------------------------------------
// Totals
// ---------------------------------------------------------------------

/// Running totals of counted allocations.
#[derive(Debug, Clone, Copy, PartialEq, Eq, Structural)]
pub struct MemoryTracker {
    /// Bytes allocated over the lifetime.
    pub total_allocated: usize,
    /// Bytes freed over the lifetime.
    pub total_deallocated: usize,
    /// Highest usage seen right after an allocation.
    pub peak_usage: usize,
}

/// Bytes in use: allocated minus freed, or zero when more was freed.
pub open spec fn usage(allocated: usize, deallocated: usize) -> usize {
    if allocated >= deallocated {
        (allocated - deallocated) as usize
    } else {
        0
    }
}

impl MemoryTracker {
    pub open spec fn current(&self) -> usize {
        usage(self.total_allocated, self.total_deallocated)
    }

    /// The totals after allocating `bytes` more.
    pub open spec fn after_allocation(self, bytes: usize) -> MemoryTracker {
        let allocated = (self.total_allocated + bytes) as usize;
        let current = usage(allocated, self.total_deallocated);
        MemoryTracker {
            total_allocated: allocated,
            total_deallocated: self.total_deallocated,
            peak_usage: if current > self.peak_usage {
                current
            } else {
                self.peak_usage
            },
        }
    }

    /// The totals after freeing `bytes`; the freed total wraps around as
    /// an atomic counter does.
    pub open spec fn after_deallocation(self, bytes: usize) -> MemoryTracker {
        MemoryTracker {
            total_allocated: self.total_allocated,
            total_deallocated: if self.total_deallocated + bytes <= usize::MAX {
                (self.total_deallocated + bytes) as usize
            } else {
                (self.total_deallocated + bytes - usize::MAX - 1) as usize
            },
            peak_usage: self.peak_usage,
        }
    }

    /// Nothing allocated yet.
    pub fn new() -> (t: MemoryTracker)
        ensures
            t.total_allocated == 0,
            t.total_deallocated == 0,
            t.peak_usage == 0,
    {
        MemoryTracker { total_allocated: 0, total_deallocated: 0, peak_usage: 0 }
    }
}

/// Record an allocation of `bytes`.
pub fn track_allocation(tracker: &mut MemoryTracker, bytes: usize)
    requires
        old(tracker).total_allocated + bytes <= usize::MAX,
    ensures
        *final(tracker) == old(tracker).after_allocation(bytes),
{
    let allocated = tracker.total_allocated + bytes;
    tracker.total_allocated = allocated;
    let current = allocated.saturating_sub(tracker.total_deallocated);
    if current > tracker.peak_usage {
        tracker.peak_usage = current;
    }
}

/// Record that `bytes` were freed.
pub fn track_deallocation(tracker: &mut MemoryTracker, bytes: usize)
    ensures
        *final(tracker) == old(tracker).after_deallocation(bytes),
{
    tracker.total_deallocated = tracker.total_deallocated.wrapping_add(bytes);
}

/// Freeing what was just allocated gives the usage back: when nothing
/// overflows and no more was freed than allocated, the usage after an
/// allocation of `n` bytes and a deallocation of `n` bytes is the usage
/// before them.
pub proof fn law_free_undoes_allocation(t: MemoryTracker, n: usize)
    requires
        t.total_allocated + n <= usize::MAX,
        t.total_deallocated + n <= usize::MAX,
        t.total_deallocated <= t.total_allocated,
    ensures
        t.after_allocation(n).after_deallocation(n).current() == t.current(),
{
}

/// The peak never decreases and covers the usage after every allocation.
pub proof fn law_peak_covers_usage(t: MemoryTracker, n: usize)
    requires
        t.total_allocated + n <= usize::MAX,
    ensures
        t.after_allocation(n).peak_usage >= t.peak_usage,
        t.after_allocation(n).peak_usage >= t.after_allocation(n).current(),
        t.after_deallocation(n).peak_usage == t.peak_usage,
{
}

// ---------------------------------------------------------------------
// Statistics
// ---------------------------------------------------------------------

/// Memory statistics for monitoring.
#[derive(Debug, Clone, Copy, PartialEq, Eq, Structural)]
pub struct MemoryStats {
    /// Bytes currently allocated.
    pub current_bytes: usize,
    /// Peak usage in bytes.
    pub peak_bytes: usize,
    /// Bytes allocated over the lifetime.
    pub total_allocated: usize,
    /// Bytes freed over the lifetime.
    pub total_deallocated: usize,
    /// Number of live allocations (not counted: always zero).
    pub active_allocations: usize,
}

impl Default for MemoryStats {
    fn default() -> (s: Self)
        ensures
            s.current_bytes == 0 && s.peak_bytes == 0 && s.total_allocated == 0
                && s.total_deallocated == 0 && s.active_allocations == 0,
    {
        MemoryStats {
            current_bytes: 0,
            peak_bytes: 0,
            total_allocated: 0,
            total_deallocated: 0,
            active_allocations: 0,
        }
    }
}

/// `num / den` rounded to the nearest integer, ties to even.
pub open spec fn round_half_even(num: nat, den: nat) -> nat {
    let q = num / den;
    let r = num % den;
    if 2 * r > den || (2 * r == den && q % 2 == 1) {
        q + 1
    } else {
        q
    }
}

/// Spacing of the doubles around `n`: 1 below 2^53, doubling with every
/// further bit.
pub open spec fn double_spacing(n: nat) -> nat
    decreases n,
{
    if n < 0x20_0000_0000_0000 {
        1
    } else {
        2 * double_spacing(n / 2)
    }
}

/// The double nearest to `n` (ties to even), as an integer.
pub open spec fn to_double(n: nat) -> nat {
    round_half_even(n, double_spacing(n)) * double_spacing(n)
}

/// `bytes / unit` in hundredths, as a double division printed with two
/// decimals gives it.
pub open spec fn hundredths(bytes: nat, unit: nat) -> nat {
    round_half_even(to_double(bytes) * 100, unit)
}

/// `h` hundredths written with two decimals.
pub open spec fn two_places(h: nat) -> Seq<char> {
    decimal(h / 100) + seq!['.', digit_char(((h % 100) / 10) as int), digit_char((h % 10) as int)]
}

pub open spec fn kib() -> nat {
    1024
}

pub open spec fn mib() -> nat {
    1048576
}

pub open spec fn gib() -> nat {
    1073741824
}

/// A byte count in human-readable form: in GB, MB or KB with two decimals
/// from 1 KB (1024 bytes) on, in bytes below.
pub open spec fn spec_format_bytes(bytes: usize) -> Seq<char> {
    if bytes >= gib() {
        two_places(hundredths(bytes as nat, gib())) + seq![' ', 'G', 'B']
    } else if bytes >= mib() {
        two_places(hundredths(bytes as nat, mib())) + seq![' ', 'M', 'B']
    } else if bytes >= kib() {
        two_places(hundredths(bytes as nat, kib())) + seq![' ', 'K', 'B']
    } else {
        decimal(bytes as nat) + seq![' ', 'B']
    }
}

/// `num / den` rounded half to even.
fn div_round_half_even(num: u128, den: u128) -> (r: u128)
    requires
        den > 0,
        num < 0x1_0000_0000_0000_0000_0000_0000_0000,
    ensures
        r == round_half_even(num as nat, den as nat),
{
    let q = num / den;
    let rem = num % den;
    if rem > den - rem || (rem == den - rem && q % 2 == 1) {
        q + 1
    } else {
        q
    }
}

/// The double nearest to `n`.
fn nearest_double(n: u64) -> (d: u128)
    ensures
        d == to_double(n as nat),
        d <= 0x2_0000_0000_0000_0000,
{
    let mut m: u128 = n as u128;
    let mut u: u128 = 1;
    while m >= 0x20_0000_0000_0000
        invariant
            u >= 1,
            u <= 0x1_0000_0000_0000_0000,
            m == n as nat / u as nat,
            u * double_spacing(m as nat) == double_spacing(n as nat),
            m * u <= n,
        decreases m,
    {
        proof {
            vstd::arithmetic::div_mod::lemma_div_denominator(n as int, u as int, 2);
            assert(u * 0x20_0000_0000_0000 <= m * u) by (nonlinear_arith)
                requires m >= 0x20_0000_0000_0000, u >= 1;
            assert(u * 2 <= 0x1_0000_0000_0000_0000) by (nonlinear_arith)
                requires u * 0x20_0000_0000_0000 <= n, n < 0x1_0000_0000_0000_0000int;
            assert(u * double_spacing(m as nat) == u * (2 * double_spacing((m / 2) as nat)));
            assert(u * (2 * double_spacing((m / 2) as nat)) == (u * 2) * double_spacing((m / 2) as nat))
                by (nonlinear_arith);
            assert((m / 2) * (u * 2) <= m * u) by (nonlinear_arith);
        }
        m = m / 2;
        u = u * 2;
    }
    proof {
        assert(double_spacing(m as nat) == 1);
        assert(u * double_spacing(m as nat) == u) by (nonlinear_arith)
            requires double_spacing(m as nat) == 1;
        assert(u == double_spacing(n as nat));
        vstd::arithmetic::div_mod::lemma_fundamental_div_mod(n as int, u as int);
    }
    let q = div_round_half_even(n as u128, u);
    proof {
        assert(q <= m + 1);
        assert(q * u <= m * u + u) by (nonlinear_arith)
            requires q <= m + 1, u >= 1;
        assert(q * u == to_double(n as nat));
    }
    q * u
}

/// The bytes of `bytes / unit` in hundredths.
fn hundredths_of(bytes: usize, unit: u128) -> (h: u128)
    requires
        unit == kib() || unit == mib() || unit == gib(),
    ensures
        h == hundredths(bytes as nat, unit as nat),
{
    let d = nearest_double(bytes as u64);
    div_round_half_even(d * 100, unit)
}

/// Appends `h` hundredths with two decimals.
fn push_two_places(s: &mut String, h: u128)
    ensures
        final(s)@ == old(s)@ + two_places(h as nat),
{
    push_decimal(s, h / 100);
    push_char(s, '.');
    push_char(s, crate::text::digit(((h % 100) / 10) as u8));
    push_char(s, crate::text::digit((h % 10) as u8));
    proof {
        assert(final(s)@ =~= old(s)@ + two_places(h as nat));
    }
}

impl MemoryStats {
    /// The statistics of the counted totals.
    pub fn global(tracker: &MemoryTracker) -> (s: MemoryStats)
        ensures
            s.current_bytes == tracker.current(),
            s.peak_bytes == tracker.peak_usage,
            s.total_allocated == tracker.total_allocated,
            s.total_deallocated == tracker.total_deallocated,
            s.active_allocations == 0,
    {
        MemoryStats {
            current_bytes: tracker.total_allocated.saturating_sub(tracker.total_deallocated),
            peak_bytes: tracker.peak_usage,
            total_allocated: tracker.total_allocated,
            total_deallocated: tracker.total_deallocated,
            active_allocations: 0,
        }
    }

    /// A byte count in human-readable form ("500 B", "1.50 KB", "2.00 GB").
    pub fn format_bytes(bytes: usize) -> (s: String)
        ensures
            s@ == spec_format_bytes(bytes),
    {
        let mut s = String::new();
        if bytes >= 1073741824 {
            push_two_places(&mut s, hundredths_of(bytes, 1073741824));
            push_char(&mut s, ' ');
            push_char(&mut s, 'G');
            push_char(&mut s, 'B');
        } else if bytes >= 1048576 {
            push_two_places(&mut s, hundredths_of(bytes, 1048576));
            push_char(&mut s, ' ');
            push_char(&mut s, 'M');
            push_char(&mut s, 'B');
        } else if bytes >= 1024 {
            push_two_places(&mut s, hundredths_of(bytes, 1024));
            push_char(&mut s, ' ');
            push_char(&mut s, 'K');
            push_char(&mut s, 'B');
        } else {
            push_decimal(&mut s, bytes as u128);
            push_char(&mut s, ' ');
            push_char(&mut s, 'B');
        }
        assert(s@ =~= spec_format_bytes(bytes));
        s
    }
}

impl MemoryStats {
    /// The line logged for these statistics.
    pub open spec fn spec_log_line(&self) -> Seq<char> {
        "Memory: current="@ + spec_format_bytes(self.current_bytes) + ", peak="@
            + spec_format_bytes(self.peak_bytes) + ", allocated="@ + spec_format_bytes(
            self.total_allocated,
        ) + ", deallocated="@ + spec_format_bytes(self.total_deallocated)
    }

    /// The statistics as the line that is logged for them.
    pub fn log(&self) -> (s: String)
        ensures
            s@ == self.spec_log_line(),
    {
        let mut s = String::new();
        push_str(&mut s, "Memory: current=");
        push_str(&mut s, MemoryStats::format_bytes(self.current_bytes).as_str());
        push_str(&mut s, ", peak=");
        push_str(&mut s, MemoryStats::format_bytes(self.peak_bytes).as_str());
        push_str(&mut s, ", allocated=");
        push_str(&mut s, MemoryStats::format_bytes(self.total_allocated).as_str());
        push_str(&mut s, ", deallocated=");
        push_str(&mut s, MemoryStats::format_bytes(self.total_deallocated).as_str());
        s
    }
}

// ---------------------------------------------------------------------
// Managed buffers
// ---------------------------------------------------------------------

/// `Vec::capacity`. The standard library documents that a vector's
/// capacity is at least its length and that no allocation exceeds
/// `isize::MAX` bytes. The exact value depends on the allocator and is not
/// stated.
#[verifier::external_body]
fn vec_capacity(v: &Vec<u8>) -> (c: usize)
    ensures
        c >= v@.len(),
        c <= isize::MAX,
{
    v.capacity()
}

/// A byte buffer whose size is counted in a `MemoryTracker`.
pub struct ManagedBuffer {
    data: Vec<u8>,
    tracked_size: usize,
}

impl ManagedBuffer {
    /// The bytes held.
    pub closed spec fn bytes(&self) -> Seq<u8> {
        self.data@
    }

    /// The size counted for the buffer.
    pub closed spec fn counted(&self) -> usize {
        self.tracked_size
    }

    /// An empty buffer with room for `capacity` bytes, counted as
    /// `capacity` bytes.
    pub fn new(capacity: usize, tracker: &mut MemoryTracker) -> (b: ManagedBuffer)
        requires
            capacity <= isize::MAX,
            old(tracker).total_allocated + capacity <= usize::MAX,
        ensures
            b.bytes() == Seq::<u8>::empty(),
            b.counted() == capacity,
            *final(tracker) == old(tracker).after_allocation(capacity),
    {
        track_allocation(tracker, capacity);
        ManagedBuffer { data: Vec::with_capacity(capacity), tracked_size: capacity }
    }

    /// A buffer that takes over `data`, counted at its capacity.
    pub fn from_vec(data: Vec<u8>, tracker: &mut MemoryTracker) -> (b: ManagedBuffer)
        requires
            old(tracker).total_allocated <= usize::MAX - isize::MAX,
        ensures
            b.bytes() == data@,
            b.counted() >= data@.len(),
            *final(tracker) == old(tracker).after_allocation(b.counted()),
    {
        let capacity = vec_capacity(&data);
        track_allocation(tracker, capacity);
        ManagedBuffer { data, tracked_size: capacity }
    }

    /// The bytes held.
    pub fn as_slice(&self) -> (s: &[u8])
        ensures
            s@ == self.bytes(),
    {
        self.data.as_slice()
    }

    /// The vector that holds the bytes, for writing.
    pub fn as_mut_slice(&mut self) -> (v: &mut Vec<u8>)
        ensures
            v@ == old(self).bytes(),
            final(self).bytes() == final(v)@,
            final(self).counted() == old(self).counted(),
    {
        &mut self.data
    }

    /// The room of the buffer; at least its length.
    pub fn capacity(&self) -> (c: usize)
        ensures
            c >= self.bytes().len(),
            c <= isize::MAX,
    {
        vec_capacity(&self.data)
    }

    pub fn len(&self) -> (n: usize)
        ensures
            n == self.bytes().len(),
    {
        self.data.len()
    }

    pub fn is_empty(&self) -> (b: bool)
        ensures
            b == (self.bytes().len() == 0),
    {
        self.data.len() == 0
    }

    /// Give the buffer up: its counted size is recorded as freed.
    pub fn free(self, tracker: &mut MemoryTracker)
        ensures
            *final(tracker) == old(tracker).after_deallocation(self.counted()),
    {
        track_deallocation(tracker, self.tracked_size);
    }
}

// ---------------------------------------------------------------------
// Buffer pool
// ---------------------------------------------------------------------

/// Sum of a sequence of sizes.
pub open spec fn total(s: Seq<usize>) -> nat
    decreases s.len(),
{
    if s.len() == 0 {
        0
    } else {
        total(s.drop_last()) + s.last() as nat
    }
}

pub proof fn lemma_total_update(s: Seq<usize>, i: int, v: usize)
    requires
        0 <= i < s.len(),
    ensures
        total(s.update(i, v)) + s[i] == total(s) + v,
    decreases s.len(),
{
    let u = s.update(i, v);
    if i == s.len() - 1 {
        assert(u.drop_last() =~= s.drop_last());
    } else {
        assert(u.drop_last() =~= s.drop_last().update(i, v));
        lemma_total_update(s.drop_last(), i, v);
    }
}

/// Removing element `i` takes its size off the sum.
pub proof fn lemma_total_remove(s: Seq<usize>, i: int)
    requires
        0 <= i < s.len(),
    ensures
        total(s.remove(i)) + s[i] == total(s),
    decreases s.len(),
{
    if i == s.len() - 1 {
        assert(s.remove(i) =~= s.drop_last());
    } else {
        let t = s.drop_last();
        lemma_total_remove(t, i);
        assert(s.remove(i).drop_last() =~= t.remove(i));
        assert(s.remove(i).last() == s.last());
    }
}

/// `s` with element `i` replaced by the last one and the last one dropped,
/// as `Vec::swap_remove` leaves it.
pub open spec fn swap_removed<T>(s: Seq<T>, i: int) -> Seq<T> {
    s.update(i, s.last()).drop_last()
}

proof fn lemma_total_swap_removed(s: Seq<usize>, i: int)
    requires
        0 <= i < s.len(),
    ensures
        total(swap_removed(s, i)) + s[i] == total(s),
{
    lemma_total_update(s, i, s.last());
}

/// What releasing a buffer counted at `counted`, of capacity `cap`, does:
/// with room for one more buffer and for `cap`, the pool gains an empty
/// buffer counted at `counted` and records `cap`; otherwise the pool stays
/// and the buffer is counted as freed.
pub open spec fn released(p0: BufferPool, p1: BufferPool, counted: usize, cap: usize, t0: MemoryTracker, t1: MemoryTracker) -> bool {
    if p0.caps().len() < p0.buffer_limit() && total(p0.caps()) + cap <= p0.memory_limit() {
        &&& p1.pooled().len() == p0.pooled().len() + 1
        &&& p1.pooled().drop_last() == p0.pooled()
        &&& p1.pooled().last().bytes() == Seq::<u8>::empty()
        &&& p1.pooled().last().counted() == counted
        &&& p1.caps() == p0.caps().push(cap)
        &&& t1 == t0
    } else {
        &&& p1.pooled() == p0.pooled()
        &&& p1.caps() == p0.caps()
        &&& t1 == t0.after_deallocation(counted)
    }
}

/// The first buffer, in pool order, whose recorded capacity is at least
/// `min`.
pub open spec fn first_fit(caps: Seq<usize>, min: usize) -> Option<int> {
    if exists|i: int| 0 <= i < caps.len() && #[trigger] caps[i] >= min {
        Some(
            choose|i: int|
                0 <= i < caps.len() && caps[i] >= min && forall|k: int|
                    0 <= k < i ==> #[trigger] caps[k] < min,
        )
    } else {
        None
    }
}

proof fn lemma_first_fit(caps: Seq<usize>, min: usize, i: int)
    requires
        0 <= i < caps.len(),
        caps[i] >= min,
        forall|k: int| 0 <= k < i ==> #[trigger] caps[k] < min,
    ensures
        first_fit(caps, min) == Some(i),
{
    let j = choose|j: int|
        0 <= j < caps.len() && caps[j] >= min && forall|k: int| 0 <= k < j ==> #[trigger] caps[k] < min;
    assert(0 <= j < caps.len() && caps[j] >= min);
    if j < i {
        assert(caps[j] < min);
    } else if i < j {
        assert(caps[i] < min);
    }
}

/// The totals after freeing every size of `s`, the last one first.
pub open spec fn after_freeing_all(t: MemoryTracker, s: Seq<usize>) -> MemoryTracker
    decreases s.len(),
{
    if s.len() == 0 {
        t
    } else {
        after_freeing_all(t.after_deallocation(s.last()), s.drop_last())
    }
}

/// A pool of freed buffers kept for reuse, within a count and a byte limit.
pub struct BufferPool {
    buffers: Vec<ManagedBuffer>,
    /// Capacity of each pooled buffer, recorded when it was returned; a
    /// pooled buffer is not reachable, so its capacity does not change.
    capacities: Vec<usize>,
    /// Sum of `capacities`.
    total_capacity: usize,
    max_buffers: usize,
    max_memory: usize,
}

impl BufferPool {
    pub closed spec fn pooled(&self) -> Seq<ManagedBuffer> {
        self.buffers@
    }

    pub closed spec fn caps(&self) -> Seq<usize> {
        self.capacities@
    }

    pub closed spec fn buffer_limit(&self) -> usize {
        self.max_buffers
    }

    pub closed spec fn memory_limit(&self) -> usize {
        self.max_memory
    }

    /// The pool holds no more buffers, and no more capacity, than its
    /// limits allow; every pooled buffer is empty.
    pub closed spec fn wf(&self) -> bool {
        &&& self.buffers@.len() == self.capacities@.len()
        &&& self.capacities@.len() <= self.max_buffers
        &&& self.total_capacity == total(self.capacities@)
        &&& total(self.capacities@) <= self.max_memory
        &&& forall|i: int|
            0 <= i < self.buffers@.len() ==> (#[trigger] self.buffers@[i]).bytes().len() == 0
    }

    /// The limits hold of a well-formed pool.
    pub proof fn lemma_limits(&self)
        requires
            self.wf(),
        ensures
            self.caps().len() <= self.buffer_limit(),
            total(self.caps()) <= self.memory_limit(),
            self.pooled().len() == self.caps().len(),
    {
    }

    /// An empty pool with the given limits.
    pub fn new(max_buffers: usize, max_memory: usize) -> (p: BufferPool)
        ensures
            p.wf(),
            p.pooled().len() == 0,
            p.caps().len() == 0,
            p.buffer_limit() == max_buffers,
            p.memory_limit() == max_memory,
    {
        BufferPool {
            buffers: Vec::new(),
            capacities: Vec::new(),
            total_capacity: 0,
            max_buffers,
            max_memory,
        }
    }

    /// A pooled buffer with a recorded capacity of at least `min_capacity`
    /// (the first such, which leaves the pool as `Vec::swap_remove` leaves
    /// a vector), or a new buffer of that capacity when none fits.
    pub fn acquire(&mut self, min_capacity: usize, tracker: &mut MemoryTracker) -> (b: ManagedBuffer)
        requires
            old(self).wf(),
            first_fit(old(self).caps(), min_capacity) is None ==> (min_capacity <= isize::MAX
                && old(tracker).total_allocated + min_capacity <= usize::MAX),
        ensures
            final(self).wf(),
            final(self).buffer_limit() == old(self).buffer_limit(),
            final(self).memory_limit() == old(self).memory_limit(),
            match first_fit(old(self).caps(), min_capacity) {
                Some(i) => {
                    &&& b == old(self).pooled()[i]
                    &&& final(self).pooled() == swap_removed(old(self).pooled(), i)
                    &&& final(self).caps() == swap_removed(old(self).caps(), i)
                    &&& *final(tracker) == *old(tracker)
                },
                None => {
                    &&& b.bytes() == Seq::<u8>::empty()
                    &&& b.counted() == min_capacity
                    &&& final(self).pooled() == old(self).pooled()
                    &&& final(self).caps() == old(self).caps()
                    &&& *final(tracker) == old(tracker).after_allocation(min_capacity)
                },
            },
    {
        let mut i: usize = 0;
        while i < self.capacities.len()
            invariant
                self.wf(),
                *self == *old(self),
                forall|k: int| 0 <= k < i ==> #[trigger] self.capacities@[k] < min_capacity,
            decreases self.capacities@.len() - i,
        {
            if self.capacities[i] >= min_capacity {
                proof {
                    lemma_first_fit(self.capacities@, min_capacity, i as int);
                    lemma_total_swap_removed(self.capacities@, i as int);
                }
                let ghost old_bufs = self.buffers@;
                let cap = self.capacities.swap_remove(i);
                let buffer = self.buffers.swap_remove(i);
                self.total_capacity = self.total_capacity - cap;
                proof {
                    assert forall|j: int| 0 <= j < self.buffers@.len() implies (
                    #[trigger] self.buffers@[j]).bytes().len() == 0 by {
                        if j == i {
                            assert(self.buffers@[j] == old_bufs.last());
                        } else {
                            assert(self.buffers@[j] == old_bufs[j]);
                        }
                    }
                }
                return buffer;
            }
            i = i + 1;
        }
        proof {
            assert(!(exists|k: int| 0 <= k < self.capacities@.len() && #[trigger] self.capacities@[k] >= min_capacity));
        }
        ManagedBuffer::new(min_capacity, tracker)
    }

    /// Return a buffer whose capacity is `cap` to the pool. It is emptied
    /// and pooled, with `cap` recorded, when the pool holds fewer buffers
    /// than its limit and `cap` fits in the memory the limit leaves;
    /// otherwise it is given up.
    pub fn release_with_capacity(&mut self, buffer: ManagedBuffer, cap: usize, tracker: &mut MemoryTracker)
        requires
            old(self).wf(),
        ensures
            final(self).wf(),
            final(self).buffer_limit() == old(self).buffer_limit(),
            final(self).memory_limit() == old(self).memory_limit(),
            (old(self).caps().len() < old(self).buffer_limit() && total(old(self).caps()) + cap
                <= old(self).memory_limit()) ==> {
                &&& final(self).pooled().len() == old(self).pooled().len() + 1
                &&& final(self).pooled().drop_last() == old(self).pooled()
                &&& final(self).pooled().last().bytes() == Seq::<u8>::empty()
                &&& final(self).pooled().last().counted() == buffer.counted()
                &&& final(self).caps() == old(self).caps().push(cap)
                &&& *final(tracker) == *old(tracker)
            },
            !(old(self).caps().len() < old(self).buffer_limit() && total(old(self).caps()) + cap
                <= old(self).memory_limit()) ==> {
                &&& final(self).pooled() == old(self).pooled()
                &&& final(self).caps() == old(self).caps()
                &&& *final(tracker) == old(tracker).after_deallocation(buffer.counted())
            },
    {
        if self.buffers.len() >= self.max_buffers {
            buffer.free(tracker);
            return;
        }
        if cap > self.max_memory - self.total_capacity {
            buffer.free(tracker);
            return;
        }
        let mut buffer = buffer;
        buffer.as_mut_slice().clear();
        let ghost old_bufs = self.buffers@;
        let ghost old_caps = self.capacities@;
        self.buffers.push(buffer);
        self.capacities.push(cap);
        self.total_capacity = self.total_capacity + cap;
        proof {
            assert(self.capacities@.drop_last() =~= old_caps);
            assert(self.buffers@.drop_last() =~= old_bufs);
            assert forall|j: int| 0 <= j < self.buffers@.len() implies (
            #[trigger] self.buffers@[j]).bytes().len() == 0 by {
                if j < old_bufs.len() {
                    assert(self.buffers@[j] == old_bufs[j]);
                }
            }
        }
    }

    /// Return a buffer to the pool: its capacity is read, and the buffer is
    /// pooled or given up as `release_with_capacity` says for that
    /// capacity.
    pub fn release(&mut self, buffer: ManagedBuffer, tracker: &mut MemoryTracker)
        requires
            old(self).wf(),
        ensures
            final(self).wf(),
            final(self).buffer_limit() == old(self).buffer_limit(),
            final(self).memory_limit() == old(self).memory_limit(),
            exists|cap: usize|
                cap >= buffer.bytes().len() && #[trigger] released(*old(self), *final(self), buffer.counted(), cap, *old(tracker), *final(tracker)),
    {
        let cap = buffer.capacity();
        let ghost counted = buffer.counted();
        let ghost pool0 = *self;
        let ghost t0 = *tracker;
        self.release_with_capacity(buffer, cap, tracker);
        assert(released(pool0, *self, counted, cap, t0, *tracker));
    }

    /// The number and total recorded capacity of the pooled buffers, and
    /// the limits.
    pub fn stats(&self) -> (s: BufferPoolStats)
        requires
            self.wf(),
        ensures
            s.buffer_count == self.caps().len(),
            s.total_capacity == total(self.caps()),
            s.max_buffers == self.buffer_limit(),
            s.max_memory == self.memory_limit(),
    {
        BufferPoolStats {
            buffer_count: self.buffers.len(),
            total_capacity: self.total_capacity,
            max_buffers: self.max_buffers,
            max_memory: self.max_memory,
        }
    }

    /// Give up every pooled buffer.
    pub fn clear(&mut self, tracker: &mut MemoryTracker)
        requires
            old(self).wf(),
        ensures
            final(self).wf(),
            final(self).pooled().len() == 0,
            final(self).caps().len() == 0,
            final(self).buffer_limit() == old(self).buffer_limit(),
            final(self).memory_limit() == old(self).memory_limit(),
            *final(tracker) == after_freeing_all(
                *old(tracker),
                old(self).pooled().map_values(|b: ManagedBuffer| b.counted()),
            ),
    {
        let ghost all = old(self).pooled().map_values(|b: ManagedBuffer| b.counted());
        let ghost t0 = *old(tracker);
        while self.buffers.len() > 0
            invariant
                self.max_buffers == old(self).max_buffers,
                self.max_memory == old(self).max_memory,
                after_freeing_all(*tracker, self.buffers@.map_values(|b: ManagedBuffer| b.counted()))
                    == after_freeing_all(t0, all),
            decreases self.buffers@.len(),
        {
            let ghost before = self.buffers@;
            let b = self.buffers.pop().unwrap();
            proof {
                assert(before.map_values(|b: ManagedBuffer| b.counted()).drop_last()
                    =~= self.buffers@.map_values(|b: ManagedBuffer| b.counted()));
            }
            b.free(tracker);
        }
        self.capacities.clear();
        self.total_capacity = 0;
        proof {
            assert(self.buffers@.map_values(|b: ManagedBuffer| b.counted()) =~= Seq::<usize>::empty());
        }
    }
}

/// Buffer pool statistics.
#[derive(Debug, Clone, Copy, PartialEq, Eq, Structural)]
pub struct BufferPoolStats {
    /// Number of pooled buffers.
    pub buffer_count: usize,
    /// Total capacity of the pooled buffers.
    pub total_capacity: usize,
    /// Most buffers the pool keeps.
    pub max_buffers: usize,
    /// Most capacity the pool keeps.
    pub max_memory: usize,
}

} // verus!
