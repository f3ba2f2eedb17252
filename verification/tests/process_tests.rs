use memwatchdog::config::{Config, SelectionPolicy};
use memwatchdog::process::{ProcEntry, ProcessScanner};

fn entry(name: &str, comm: &str, statm: Option<&str>) -> ProcEntry {
    ProcEntry { name: name.to_string(), comm: comm.to_string(), statm: statm.map(|s| s.to_string()) }
}

/// statm text with `mb` MB resident at 4096-byte pages.
fn statm_mb(mb: u64) -> Option<String> {
    Some(format!("{} {} 100 10 0 200 0\n", mb * 256 + 7, mb * 256))
}

fn e(name: &str, comm: &str, mb: u64) -> ProcEntry {
    ProcEntry { name: name.to_string(), comm: comm.to_string(), statm: statm_mb(mb) }
}

#[test]
fn picks_highest_rss() {
    let c = Config::default();
    let es = vec![e("100", "editor\n", 300), e("200", "firefox\n", 1500), e("300", "chrome\n", 900)];
    assert!(!ProcessScanner::rss_overflows(&es, &c, 1000, 999, 4096));
    let t = ProcessScanner::find_target_process(&es, &c, 1000, 999, 4096).unwrap();
    assert_eq!(t.pid, 200);
    assert_eq!(t.comm, "firefox");
    assert_eq!(t.rss_mb, 1500);
}

#[test]
fn first_of_equal_rss_wins() {
    let c = Config::default();
    let es = vec![e("10", "a", 50), e("11", "b", 50)];
    let t = ProcessScanner::find_target_process(&es, &c, 1, 1, 4096).unwrap();
    assert_eq!(t.pid, 10);
}

#[test]
fn whitelisted_self_parent_and_kernel_are_skipped() {
    let mut c = Config::default();
    c.whitelist.insert("firefox".to_string());
    let es = vec![
        e("1", "init-like", 9000),
        e("2", "kthreadd", 9000),
        e("4242", "memwatchdog", 8000),
        e("500", "worker", 8000),
        e("600", "shell-parent", 8000),
        e("700", "Firefox", 7000),
        e("701", "SSHD", 7000),
        e("800", "small", 10),
    ];
    let t = ProcessScanner::find_target_process(&es, &c, 500, 600, 4096).unwrap();
    assert_eq!(t.pid, 800);
    assert_eq!(t.rss_mb, 10);
}

#[test]
fn unusable_entries_are_skipped() {
    let c = Config::default();
    let es = vec![
        entry("self", "x", Some("1 999999 0")),
        entry("net", "x", Some("1 999999 0")),
        entry("12", "  \n", Some("1 999999 0")),
        entry("13", "noread", None),
        entry("14", "short", Some("12")),
        entry("15", "bad", Some("12 abc 0")),
        entry("-20", "neg", Some("1 999999 0")),
        entry("+16", "plus", Some("1 512 0")),
    ];
    let t = ProcessScanner::find_target_process(&es, &c, 1, 1, 4096).unwrap();
    assert_eq!(t.pid, 16);
    assert_eq!(t.comm, "plus");
    assert_eq!(t.rss_mb, 2);
}

#[test]
fn zero_rss_is_never_chosen() {
    let c = Config::default();
    let es = vec![e("10", "a", 0), entry("11", "b", Some("9 255 0"))];
    assert!(ProcessScanner::find_target_process(&es, &c, 1, 1, 4096).is_none());
    assert!(ProcessScanner::find_target_process(&vec![], &c, 1, 1, 4096).is_none());
}

#[test]
fn min_rss_policy_filters() {
    let mut c = Config::default();
    c.policy = SelectionPolicy::MinRssThreshold(100);
    let es = vec![e("10", "small", 99)];
    assert!(ProcessScanner::find_target_process(&es, &c, 1, 1, 4096).is_none());
    let es = vec![e("10", "small", 99), e("11", "exact", 100)];
    assert_eq!(ProcessScanner::find_target_process(&es, &c, 1, 1, 4096).unwrap().pid, 11);
}

#[test]
fn rss_from_statm() {
    assert_eq!(ProcessScanner::rss_pages("1000 512 30 4 0 100 0\n"), Some(512));
    assert_eq!(ProcessScanner::rss_pages("1000"), None);
    assert_eq!(ProcessScanner::rss_mb("1000 512 30", 4096), Some(2));
    assert_eq!(ProcessScanner::rss_mb("1000 511 30", 4096), Some(1));
    assert_eq!(ProcessScanner::rss_mb("1000 256 30", 65536), Some(16));
    assert_eq!(ProcessScanner::comm_name("  bash \n"), "bash");
}

#[test]
fn candidate_of_one_entry() {
    let c = Config::default();
    let t = ProcessScanner::candidate(&e("77", "Game", 42), &c, 1, 1, 4096).unwrap();
    assert_eq!((t.pid, t.comm.as_str(), t.rss_mb), (77, "Game", 42));
    assert!(ProcessScanner::candidate(&e("77", "bash", 42), &c, 1, 1, 4096).is_none());
}

#[test]
fn overflow_detection() {
    let c = Config::default();
    let huge = entry("10", "big", Some("1 18446744073709551615 0"));
    assert!(ProcessScanner::rss_overflows(&vec![huge], &c, 1, 1, 4096));
    let huge_but_whitelisted = entry("10", "bash", Some("1 18446744073709551615 0"));
    assert!(!ProcessScanner::rss_overflows(&vec![huge_but_whitelisted], &c, 1, 1, 4096));
    let huge_self = entry("10", "big", Some("1 18446744073709551615 0"));
    assert!(!ProcessScanner::rss_overflows(&vec![huge_self], &c, 10, 1, 4096));
}
