use memwatchdog::sysinfo::{parse_meminfo_line, MemoryStats, SysInfo};

fn lines(text: &str) -> Vec<String> {
    text.lines().map(|l| l.to_string()).collect()
}

#[test]
fn full_meminfo() {
    let text = "MemTotal:       16318480 kB\nMemFree:          524288 kB\nMemAvailable:    2097152 kB\nBuffers:          102400 kB\nCached:          1048576 kB\nSwapCached:            0 kB\n";
    let s = SysInfo::get_memory_stats(&lines(text)).unwrap();
    assert_eq!(
        s,
        MemoryStats { total_mb: 15936, available_mb: 2048, free_mb: 512, cached_mb: 1024 }
    );
}

#[test]
fn missing_available_falls_back_to_free() {
    let text = "MemTotal: 4096 kB\nMemFree: 3072 kB\n";
    let s = SysInfo::get_memory_stats(&lines(text)).unwrap();
    assert_eq!(s.total_mb, 4);
    assert_eq!(s.free_mb, 3);
    assert_eq!(s.available_mb, 3);
    assert_eq!(s.cached_mb, 0);
}

#[test]
fn missing_total_gives_none() {
    assert!(SysInfo::get_memory_stats(&lines("MemFree: 3072 kB\nMemAvailable: 1 kB\n")).is_none());
    assert!(SysInfo::get_memory_stats(&lines("")).is_none());
    assert!(SysInfo::get_memory_stats(&lines("MemTotal: lots kB\n")).is_none());
}

#[test]
fn later_line_replaces_earlier() {
    let text = "MemTotal: 2048 kB\nMemTotal: 8192 kB\nSwapCached: 99999 kB\nCached: 1023 kB\n";
    let s = SysInfo::get_memory_stats(&lines(text)).unwrap();
    assert_eq!(s.total_mb, 8);
    assert_eq!(s.cached_mb, 0);
    let text = "MemTotal: 2048 kB\nMemTotal: x\n";
    assert!(SysInfo::get_memory_stats(&lines(text)).is_none());
}

#[test]
fn meminfo_line_numbers() {
    assert_eq!(parse_meminfo_line("MemTotal:       16318480 kB"), Some(16318480));
    assert_eq!(parse_meminfo_line("MemTotal:"), None);
    assert_eq!(parse_meminfo_line("MemTotal: -5 kB"), None);
    assert_eq!(parse_meminfo_line("  Cached:\t42"), Some(42));
}

#[test]
fn page_size_from_sysconf() {
    assert_eq!(SysInfo::page_size(4096), 4096);
    assert_eq!(SysInfo::page_size(16384), 16384);
    assert_eq!(SysInfo::page_size(0), 4096);
    assert_eq!(SysInfo::page_size(-1), 4096);
}
