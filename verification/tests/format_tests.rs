use wayvid::memory::{MemoryStats, MemoryTracker, track_allocation, track_deallocation};

fn reference(bytes: usize) -> String {
    const KB: usize = 1024;
    const MB: usize = KB * 1024;
    const GB: usize = MB * 1024;
    if bytes >= GB {
        format!("{:.2} GB", bytes as f64 / GB as f64)
    } else if bytes >= MB {
        format!("{:.2} MB", bytes as f64 / MB as f64)
    } else if bytes >= KB {
        format!("{:.2} KB", bytes as f64 / KB as f64)
    } else {
        format!("{} B", bytes)
    }
}

#[test]
fn format_bytes_matches_float_formatting() {
    let mut values: Vec<usize> = vec![0, 1, 999, 1023, 1024, 1025, 1029, 1034, 1035, 1536, 10 * 1024 + 5];
    for k in 0..2048usize {
        values.push(1024 + k * 5);
        values.push(1024 * 1024 + k * 5243);
        values.push(1024 * 1024 * 1024 + k * 5_368_709);
    }
    // values whose hundredths end in exactly one half
    values.push(1024 + 512 / 100);
    values.push(1152);
    values.push(1_153_433_600);
    values.push(usize::MAX);
    values.push(usize::MAX - 1024);
    values.push((1usize << 53) + 1);
    values.push((1usize << 60) + 12345);
    for v in values {
        assert_eq!(MemoryStats::format_bytes(v), reference(v), "bytes = {}", v);
    }
}

#[test]
fn log_line_of_statistics() {
    let mut t = MemoryTracker::new();
    track_allocation(&mut t, 3 * 1024 * 1024);
    track_deallocation(&mut t, 1024 * 1024);
    let s = MemoryStats::global(&t);
    assert_eq!(s.current_bytes, 2 * 1024 * 1024);
    assert_eq!(s.peak_bytes, 3 * 1024 * 1024);
    assert_eq!(
        s.log(),
        "Memory: current=2.00 MB, peak=3.00 MB, allocated=3.00 MB, deallocated=1.00 MB"
    );
}

#[test]
fn usage_never_goes_below_zero() {
    let mut t = MemoryTracker::new();
    track_deallocation(&mut t, 10);
    assert_eq!(MemoryStats::global(&t).current_bytes, 0);
    track_allocation(&mut t, 4);
    assert_eq!(MemoryStats::global(&t).current_bytes, 0);
    assert_eq!(t.peak_usage, 0);
}
