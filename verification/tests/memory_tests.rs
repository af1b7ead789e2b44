use wayvid::memory::{BufferPool, ManagedBuffer, MemoryStats, MemoryTracker};

#[test]
fn test_memory_stats() {
    let tracker = MemoryTracker::new();
    let stats = MemoryStats::global(&tracker);
    #[allow(unused_comparisons)]
    let nonnegative = stats.current_bytes >= 0;
    assert!(nonnegative);
}

#[test]
fn test_format_bytes() {
    assert_eq!(MemoryStats::format_bytes(500), "500 B");
    assert_eq!(MemoryStats::format_bytes(1024), "1.00 KB");
    assert_eq!(MemoryStats::format_bytes(1024 * 1024), "1.00 MB");
    assert_eq!(MemoryStats::format_bytes(1024 * 1024 * 1024), "1.00 GB");
}

#[test]
fn test_managed_buffer() {
    let mut tracker = MemoryTracker::new();
    let initial_stats = MemoryStats::global(&tracker);

    {
        let buffer = ManagedBuffer::new(1024, &mut tracker);
        let stats = MemoryStats::global(&tracker);
        assert!(stats.current_bytes >= initial_stats.current_bytes);
        buffer.free(&mut tracker);
    }

    let final_stats = MemoryStats::global(&tracker);
    assert_eq!(final_stats.current_bytes, initial_stats.current_bytes);
}

#[test]
fn test_buffer_pool() {
    let mut tracker = MemoryTracker::new();
    let mut pool = BufferPool::new(10, 10 * 1024 * 1024);

    let buffer1 = pool.acquire(1024, &mut tracker);
    let buffer2 = pool.acquire(2048, &mut tracker);

    pool.release(buffer1, &mut tracker);
    pool.release(buffer2, &mut tracker);

    let stats = pool.stats();
    assert_eq!(stats.buffer_count, 2);

    let buffer3 = pool.acquire(1024, &mut tracker);
    let stats = pool.stats();
    assert_eq!(stats.buffer_count, 1);

    pool.release(buffer3, &mut tracker);
}

#[test]
fn test_buffer_pool_limits() {
    let mut tracker = MemoryTracker::new();
    let mut pool = BufferPool::new(2, 3000);

    let buf1 = pool.acquire(1024, &mut tracker);
    let buf2 = pool.acquire(1024, &mut tracker);
    let buf3 = pool.acquire(1024, &mut tracker);

    pool.release(buf1, &mut tracker);
    pool.release(buf2, &mut tracker);
    pool.release(buf3, &mut tracker);

    let stats = pool.stats();
    assert_eq!(stats.buffer_count, 2);
}

#[test]
fn release_with_capacity_pools_within_limits() {
    let mut tracker = MemoryTracker::new();
    let mut pool = BufferPool::new(2, 3000);
    let b1 = ManagedBuffer::new(1024, &mut tracker);
    let b2 = ManagedBuffer::new(1024, &mut tracker);
    let b3 = ManagedBuffer::new(1024, &mut tracker);
    let b4 = ManagedBuffer::new(2000, &mut tracker);
    pool.release_with_capacity(b1, 1024, &mut tracker);
    // 1024 + 2000 passes the 3000-byte limit: given up.
    pool.release_with_capacity(b4, 2000, &mut tracker);
    assert_eq!(pool.stats().buffer_count, 1);
    assert_eq!(pool.stats().total_capacity, 1024);
    pool.release_with_capacity(b2, 1024, &mut tracker);
    // The pool is full: given up.
    pool.release_with_capacity(b3, 1024, &mut tracker);
    let stats = pool.stats();
    assert_eq!((stats.buffer_count, stats.total_capacity), (2, 2048));
    let s = MemoryStats::global(&tracker);
    assert_eq!(s.total_allocated, 1024 * 3 + 2000);
    assert_eq!(s.total_deallocated, 2000 + 1024);
    // Reuse: a pooled buffer of recorded capacity 1024 serves a request of 1000.
    let b = pool.acquire(1000, &mut tracker);
    assert!(b.is_empty());
    assert_eq!(pool.stats().buffer_count, 1);
    assert_eq!(MemoryStats::global(&tracker).total_allocated, 1024 * 3 + 2000);
}
