use memwatchdog::config::Config;
use memwatchdog::notifier::LogLevel;
use memwatchdog::process::ProcessInfo;
use memwatchdog::terminator::{
    ProcessTerminator, TermAction, TermEvent, TermMessage, TermPhase, Termination, SIGKILL, SIGTERM,
};

fn target() -> ProcessInfo {
    ProcessInfo { pid: 4242, comm: "firefox".to_string(), rss_mb: 1500 }
}

fn start(dry_run: bool, notify: bool) -> Termination {
    let mut c = Config::default();
    c.dry_run = dry_run;
    c.notify = notify;
    c.grace_ms = 1000;
    ProcessTerminator::terminate(&target(), 150, &c)
}

#[test]
fn dry_run_only_logs() {
    let mut t = start(true, true);
    assert_eq!(
        t.step(TermEvent::Begin),
        vec![TermAction::Log(TermMessage::CriticalMemory), TermAction::Log(TermMessage::DryRun)]
    );
    assert!(t.is_finished());
    assert!(t.step(TermEvent::SigtermSent(true)).is_empty());
}

#[test]
fn graceful_exit_with_notification() {
    let mut t = start(false, true);
    assert_eq!(
        t.step(TermEvent::Begin),
        vec![
            TermAction::Log(TermMessage::CriticalMemory),
            TermAction::Log(TermMessage::SendingSigterm),
            TermAction::Signal { pid: 4242, signal: SIGTERM },
        ]
    );
    assert_eq!(t.step(TermEvent::SigtermSent(true)), vec![TermAction::StartClock]);
    assert_eq!(t.step(TermEvent::Elapsed(0)), vec![TermAction::SleepAndProbe { pid: 4242, sleep_ms: 50 }]);
    assert_eq!(t.step(TermEvent::Probed(true)), vec![TermAction::CheckClock]);
    assert_eq!(t.step(TermEvent::Elapsed(50)), vec![TermAction::SleepAndProbe { pid: 4242, sleep_ms: 50 }]);
    assert_eq!(
        t.step(TermEvent::Probed(false)),
        vec![TermAction::Log(TermMessage::ExitedGracefully), TermAction::Notify]
    );
    assert_eq!(t.phase, TermPhase::Finished);
}

#[test]
fn sigterm_failure_stops() {
    let mut t = start(false, true);
    t.step(TermEvent::Begin);
    assert_eq!(t.step(TermEvent::SigtermSent(false)), vec![TermAction::Log(TermMessage::SigtermFailed)]);
    assert!(t.is_finished());
}

#[test]
fn sigkill_after_grace() {
    let mut t = start(false, false);
    t.step(TermEvent::Begin);
    t.step(TermEvent::SigtermSent(true));
    assert_eq!(t.step(TermEvent::Elapsed(999)), vec![TermAction::SleepAndProbe { pid: 4242, sleep_ms: 50 }]);
    assert_eq!(t.step(TermEvent::Probed(true)), vec![TermAction::CheckClock]);
    assert_eq!(
        t.step(TermEvent::Elapsed(1000)),
        vec![TermAction::Log(TermMessage::NoExitAfterGrace), TermAction::Signal { pid: 4242, signal: SIGKILL }]
    );
    assert_eq!(t.phase, TermPhase::AwaitSigkill);
    assert_eq!(t.step(TermEvent::SigkillSent(true)), vec![TermAction::Log(TermMessage::Killed)]);
    assert!(t.is_finished());
}

#[test]
fn sigkill_failure_is_logged() {
    let mut t = start(false, true);
    t.step(TermEvent::Begin);
    t.step(TermEvent::SigtermSent(true));
    t.step(TermEvent::Elapsed(5000));
    assert_eq!(t.step(TermEvent::SigkillSent(false)), vec![TermAction::Log(TermMessage::SigkillFailed)]);
}

#[test]
fn unexpected_events_change_nothing() {
    let mut t = start(false, true);
    assert!(t.step(TermEvent::Probed(false)).is_empty());
    assert_eq!(t.phase, TermPhase::Start);
    assert!(t.step(TermEvent::Elapsed(10)).is_empty());
}

#[test]
fn messages() {
    let t = start(false, true);
    assert_eq!(
        t.message(TermMessage::CriticalMemory),
        "CRITICAL MEMORY: Available RAM is 150 MB (Threshold: 200 MB). Target: firefox (PID: 4242) using 1500 MB RAM."
    );
    assert_eq!(t.message(TermMessage::DryRun), "[DRY RUN] Would send SIGTERM then SIGKILL to PID 4242 (firefox).");
    assert_eq!(t.message(TermMessage::SendingSigterm), "Sending SIGTERM to process firefox (PID 4242)...");
    assert_eq!(t.message(TermMessage::SigtermFailed), "Failed to send SIGTERM to PID 4242.");
    assert_eq!(t.message(TermMessage::ExitedGracefully), "Process firefox (PID 4242) exited gracefully.");
    assert_eq!(
        t.message(TermMessage::NoExitAfterGrace),
        "Process firefox (PID 4242) did not exit after 1000 ms. Sending SIGKILL..."
    );
    assert_eq!(t.message(TermMessage::Killed), "Process firefox (PID 4242) killed with SIGKILL.");
    assert_eq!(t.message(TermMessage::SigkillFailed), "Failed to send SIGKILL to PID 4242.");
    assert_eq!(
        t.notification_body(),
        "Closed firefox (PID 4242) using 1500 MB RAM. Available RAM was 150 MB."
    );
    assert_eq!(Termination::level(TermMessage::CriticalMemory), LogLevel::Warn);
    assert_eq!(Termination::level(TermMessage::SigkillFailed), LogLevel::Error);
    assert_eq!(Termination::level(TermMessage::Killed), LogLevel::Info);
}
