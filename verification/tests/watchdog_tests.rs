use memwatchdog::config::Config;
use memwatchdog::process::ProcessInfo;
use memwatchdog::sysinfo::MemoryStats;
use memwatchdog::terminator::TermPhase;
use memwatchdog::watchdog::{EngineAction, ScanOutcome, WatchdogEngine};

fn stats(avail: u64) -> MemoryStats {
    MemoryStats { total_mb: 16000, available_mb: avail, free_mb: avail / 2, cached_mb: 100 }
}

fn engine(verbose: bool, notify: bool) -> WatchdogEngine {
    let mut c = Config::default();
    c.verbose = verbose;
    c.notify = notify;
    WatchdogEngine::new(c, 4096)
}

#[test]
fn normal_memory_just_sleeps() {
    let mut e = engine(false, false);
    assert_eq!(e.on_memory_stats(Some(stats(4000))), vec![EngineAction::Sleep { ms: 200 }]);
    assert_eq!(e.on_memory_stats(None), vec![EngineAction::Sleep { ms: 200 }]);
    assert_eq!(e.page_size(), 4096);
    assert_eq!(e.config().critical_threshold_mb, 200);
}

#[test]
fn warning_is_given_once_per_stretch() {
    let mut e = engine(false, true);
    assert_eq!(
        e.on_memory_stats(Some(stats(450))),
        vec![
            EngineAction::WarnLowMemory { available_mb: 450 },
            EngineAction::NotifyLowMemory { available_mb: 450 },
            EngineAction::Sleep { ms: 200 },
        ]
    );
    assert_eq!(e.on_memory_stats(Some(stats(400))), vec![EngineAction::Sleep { ms: 200 }]);
    assert_eq!(e.on_memory_stats(None), vec![EngineAction::Sleep { ms: 200 }]);
    assert_eq!(e.on_memory_stats(Some(stats(300))), vec![EngineAction::Sleep { ms: 200 }]);
    assert_eq!(e.on_memory_stats(Some(stats(600))), vec![EngineAction::Sleep { ms: 200 }]);
    assert_eq!(
        e.on_memory_stats(Some(stats(499))),
        vec![
            EngineAction::WarnLowMemory { available_mb: 499 },
            EngineAction::NotifyLowMemory { available_mb: 499 },
            EngineAction::Sleep { ms: 200 },
        ]
    );
}

#[test]
fn critical_memory_scans_and_rearms_warning() {
    let mut e = engine(true, false);
    let s = stats(450);
    assert_eq!(
        e.on_memory_stats(Some(s)),
        vec![EngineAction::LogStats(s), EngineAction::WarnLowMemory { available_mb: 450 }, EngineAction::Sleep { ms: 200 }]
    );
    let s = stats(199);
    assert_eq!(
        e.on_memory_stats(Some(s)),
        vec![EngineAction::LogStats(s), EngineAction::ScanForTarget { available_mb: 199 }, EngineAction::Sleep { ms: 200 }]
    );
    let s = stats(200);
    assert_eq!(
        e.on_memory_stats(Some(s)),
        vec![EngineAction::LogStats(s), EngineAction::WarnLowMemory { available_mb: 200 }, EngineAction::Sleep { ms: 200 }]
    );
}

#[test]
fn scan_outcomes() {
    let e = engine(false, true);
    match e.on_scan_result(Some(ProcessInfo { pid: 9, comm: "hog".to_string(), rss_mb: 700 }), 120) {
        ScanOutcome::Terminate(t) => {
            assert_eq!(t.target.pid, 9);
            assert_eq!(t.target.comm, "hog");
            assert_eq!(t.free_mem_mb, 120);
            assert_eq!(t.grace_ms, 1000);
            assert!(t.notify);
            assert_eq!(t.phase, TermPhase::Start);
        }
        ScanOutcome::NoCandidate => panic!("expected a termination"),
    }
    assert!(matches!(e.on_scan_result(None, 120), ScanOutcome::NoCandidate));
}

#[test]
fn engine_messages() {
    let e = engine(false, false);
    assert_eq!(
        e.startup_message(),
        "Watchdog Engine started. Critical Threshold: 200 MB, Warning: 500 MB, Interval: 200 ms, Dry-Run: false"
    );
    assert_eq!(
        WatchdogEngine::stats_message(&MemoryStats { total_mb: 16000, available_mb: 2048, free_mb: 512, cached_mb: 1024 }),
        "RAM Stats -> Total: 16000 MB | Available: 2048 MB | Free: 512 MB | Cached: 1024 MB"
    );
    assert_eq!(
        e.low_memory_message(450),
        "Memory Warning: Available RAM is 450 MB (< Warning Threshold 500 MB)."
    );
    assert_eq!(
        e.no_candidate_message(150),
        "Critical RAM low (150 MB < 200 MB), but no non-whitelisted candidate process found."
    );
    assert_eq!(e.low_memory_notification(450), "Available RAM is 450 MB (< Warning Threshold 500 MB).");
}
