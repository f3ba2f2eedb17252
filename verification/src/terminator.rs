//! Graceful termination of the chosen process: SIGTERM, a grace period in
//! which the process is polled, then SIGKILL.
//!
//! The sequence is a state machine: `Termination::step` takes what happened
//! (the outcome of a signal, the time elapsed, whether the process is still
//! alive) and says what to do next; the caller performs the actions.
use vstd::prelude::*;
use crate::config::Config;
use crate::notifier::{closed_notification, LogLevel, Notifier};
use crate::process::ProcessInfo;
use crate::text::{dec, dec_int, push_i32, push_str, push_u64, string_from_chars};

verus! {

/// The signal that asks a process to exit.
pub const SIGTERM: i32 = 15;

/// The signal that kills a process.
pub const SIGKILL: i32 = 9;

/// How long to wait between two checks of whether the process is alive.
pub const POLL_INTERVAL_MS: u64 = 50;

/// Where a termination stands.
#[derive(Debug, Clone, Copy, PartialEq, Eq, Structural)]
pub enum TermPhase {
    /// Nothing done yet.
    Start,
    /// SIGTERM was sent; its outcome is awaited.
    AwaitSigterm,
    /// SIGTERM was delivered; the grace period runs.
    Grace,
    /// SIGKILL was sent; its outcome is awaited.
    AwaitSigkill,
    /// Nothing more to do.
    Finished,
}

/// What happened since the last step.
#[derive(Debug, Clone, Copy, PartialEq, Eq, Structural)]
pub enum TermEvent {
    /// The termination begins.
    Begin,
    /// SIGTERM was sent; whether `kill` succeeded.
    SigtermSent(bool),
    /// Milliseconds elapsed since the grace period started.
    Elapsed(u64),
    /// The process was checked; whether it is still alive.
    Probed(bool),
    /// SIGKILL was sent; whether `kill` succeeded.
    SigkillSent(bool),
}

/// The log messages of a termination.
#[derive(Debug, Clone, Copy, PartialEq, Eq, Structural)]
pub enum TermMessage {
    CriticalMemory,
    DryRun,
    SendingSigterm,
    SigtermFailed,
    ExitedGracefully,
    NoExitAfterGrace,
    Killed,
    SigkillFailed,
}

/// What to do, in order.
#[derive(Debug, Clone, Copy, PartialEq, Eq, Structural)]
pub enum TermAction {
    /// Log this message.
    Log(TermMessage),
    /// Send `signal` to `pid`; report `SigtermSent` or `SigkillSent`.
    Signal { pid: i32, signal: i32 },
    /// Start the grace clock; report `Elapsed`.
    StartClock,
    /// Report `Elapsed` on the grace clock.
    CheckClock,
    /// Sleep `sleep_ms`, then check whether `pid` is alive; report `Probed`.
    SleepAndProbe { pid: i32, sleep_ms: u64 },
    /// Send the desktop notification that the process was closed.
    Notify,
}

/// What a termination knows: the target, the memory figures and the
/// settings it was started with, and its phase.
pub struct Termination {
    pub target: ProcessInfo,
    pub free_mem_mb: u64,
    pub critical_threshold_mb: u64,
    pub grace_ms: u64,
    pub dry_run: bool,
    pub notify: bool,
    pub phase: TermPhase,
}

/// `ev` reports that at least `grace_ms` ms of the grace period elapsed.
pub open spec fn grace_over(ev: TermEvent, grace_ms: u64) -> bool {
    match ev {
        TermEvent::Elapsed(ms) => ms >= grace_ms,
        _ => false,
    }
}

/// The actions after the process is gone: log `m`, then notify if asked to.
pub open spec fn gone_actions(m: TermMessage, notify: bool) -> Seq<TermAction> {
    if notify {
        seq![TermAction::Log(m), TermAction::Notify]
    } else {
        seq![TermAction::Log(m)]
    }
}

/// One step of a termination of `pid` with grace period `grace_ms`: the next
/// phase and the actions, for the phase `phase` and the event `ev`. An event
/// that the phase does not expect changes nothing and asks for nothing.
pub open spec fn term_step(
    pid: i32,
    grace_ms: u64,
    dry_run: bool,
    notify: bool,
    phase: TermPhase,
    ev: TermEvent,
) -> (TermPhase, Seq<TermAction>) {
    match (phase, ev) {
        (TermPhase::Start, TermEvent::Begin) => if dry_run {
            (
                TermPhase::Finished,
                seq![TermAction::Log(TermMessage::CriticalMemory), TermAction::Log(TermMessage::DryRun)],
            )
        } else {
            (
                TermPhase::AwaitSigterm,
                seq![
                    TermAction::Log(TermMessage::CriticalMemory),
                    TermAction::Log(TermMessage::SendingSigterm),
                    TermAction::Signal { pid, signal: SIGTERM },
                ],
            )
        },
        (TermPhase::AwaitSigterm, TermEvent::SigtermSent(ok)) => if ok {
            (TermPhase::Grace, seq![TermAction::StartClock])
        } else {
            (TermPhase::Finished, seq![TermAction::Log(TermMessage::SigtermFailed)])
        },
        (TermPhase::Grace, TermEvent::Elapsed(ms)) => if ms < grace_ms {
            (TermPhase::Grace, seq![TermAction::SleepAndProbe { pid, sleep_ms: POLL_INTERVAL_MS }])
        } else {
            (
                TermPhase::AwaitSigkill,
                seq![
                    TermAction::Log(TermMessage::NoExitAfterGrace),
                    TermAction::Signal { pid, signal: SIGKILL },
                ],
            )
        },
        (TermPhase::Grace, TermEvent::Probed(alive)) => if alive {
            (TermPhase::Grace, seq![TermAction::CheckClock])
        } else {
            (TermPhase::Finished, gone_actions(TermMessage::ExitedGracefully, notify))
        },
        (TermPhase::AwaitSigkill, TermEvent::SigkillSent(ok)) => if ok {
            (TermPhase::Finished, gone_actions(TermMessage::Killed, notify))
        } else {
            (TermPhase::Finished, seq![TermAction::Log(TermMessage::SigkillFailed)])
        },
        _ => (phase, Seq::empty()),
    }
}

/// The phase reached and all actions asked for, when the events `evs` are
/// fed in order to a termination in phase `phase`.
pub open spec fn term_run(
    pid: i32,
    grace_ms: u64,
    dry_run: bool,
    notify: bool,
    phase: TermPhase,
    evs: Seq<TermEvent>,
) -> (TermPhase, Seq<TermAction>)
    decreases evs.len(),
{
    if evs.len() == 0 {
        (phase, Seq::empty())
    } else {
        let p = term_run(pid, grace_ms, dry_run, notify, phase, evs.drop_last());
        let s = term_step(pid, grace_ms, dry_run, notify, p.0, evs.last());
        (s.0, p.1 + s.1)
    }
}

/// The level of a termination message.
pub open spec fn message_level(m: TermMessage) -> LogLevel {
    match m {
        TermMessage::CriticalMemory => LogLevel::Warn,
        TermMessage::DryRun => LogLevel::Info,
        TermMessage::SendingSigterm => LogLevel::Info,
        TermMessage::SigtermFailed => LogLevel::Error,
        TermMessage::ExitedGracefully => LogLevel::Info,
        TermMessage::NoExitAfterGrace => LogLevel::Warn,
        TermMessage::Killed => LogLevel::Info,
        TermMessage::SigkillFailed => LogLevel::Error,
    }
}

/// The text of a termination message about the process `comm` (`pid`) using
/// `rss_mb` MB, when `free_mem_mb` MB were available under the threshold
/// `critical_mb`, with the grace period `grace_ms`.
pub open spec fn message_text(
    m: TermMessage,
    pid: i32,
    comm: Seq<char>,
    rss_mb: u64,
    free_mem_mb: u64,
    critical_mb: u64,
    grace_ms: u64,
) -> Seq<char> {
    let p = dec_int(pid as int);
    match m {
        TermMessage::CriticalMemory => "CRITICAL MEMORY: Available RAM is "@ + dec(free_mem_mb as nat)
            + " MB (Threshold: "@ + dec(critical_mb as nat) + " MB). Target: "@ + comm + " (PID: "@
            + p + ") using "@ + dec(rss_mb as nat) + " MB RAM."@,
        TermMessage::DryRun => "[DRY RUN] Would send SIGTERM then SIGKILL to PID "@ + p + " ("@ + comm
            + ")."@,
        TermMessage::SendingSigterm => "Sending SIGTERM to process "@ + comm + " (PID "@ + p + ")..."@,
        TermMessage::SigtermFailed => "Failed to send SIGTERM to PID "@ + p + "."@,
        TermMessage::ExitedGracefully => "Process "@ + comm + " (PID "@ + p + ") exited gracefully."@,
        TermMessage::NoExitAfterGrace => "Process "@ + comm + " (PID "@ + p + ") did not exit after "@
            + dec(grace_ms as nat) + " ms. Sending SIGKILL..."@,
        TermMessage::Killed => "Process "@ + comm + " (PID "@ + p + ") killed with SIGKILL."@,
        TermMessage::SigkillFailed => "Failed to send SIGKILL to PID "@ + p + "."@,
    }
}

/// Every signal a step asks for goes to the target; SIGTERM only on
/// `Begin` outside a dry run; SIGKILL only once the grace period has fully
/// elapsed; a notification only when asked for and the process is gone
/// (it exited, or SIGKILL was delivered).
pub proof fn lemma_step_signals(
    pid: i32,
    grace_ms: u64,
    dry_run: bool,
    notify: bool,
    phase: TermPhase,
    ev: TermEvent,
)
    ensures
        ({
            let s = term_step(pid, grace_ms, dry_run, notify, phase, ev);
            &&& forall|k: int|
                0 <= k < s.1.len() ==> (#[trigger] s.1[k] matches TermAction::Signal { pid: p, signal: sig } ==> {
                    &&& p == pid
                    &&& (sig == SIGTERM ==> phase == TermPhase::Start && ev == TermEvent::Begin && !dry_run)
                    &&& (sig == SIGKILL ==> phase == TermPhase::Grace && grace_over(ev, grace_ms))
                    &&& (sig == SIGTERM || sig == SIGKILL)
                })
            &&& forall|k: int|
                0 <= k < s.1.len() && #[trigger] s.1[k] == TermAction::Notify ==> {
                    &&& notify
                    &&& ((phase == TermPhase::Grace && ev == TermEvent::Probed(false)) || (phase
                        == TermPhase::AwaitSigkill && ev == TermEvent::SigkillSent(true)))
                }
        }),
{
}

/// When the process is gone (it exited during the grace period, or SIGKILL
/// was delivered) the termination logs that, then sends the desktop
/// notification exactly when notifications are on, and finishes; no other
/// step sends a notification.
pub proof fn lemma_gone_notifies(
    pid: i32,
    grace_ms: u64,
    dry_run: bool,
    notify: bool,
    phase: TermPhase,
    ev: TermEvent,
)
    ensures
        ({
            let s = term_step(pid, grace_ms, dry_run, notify, phase, ev);
            let exited = phase == TermPhase::Grace && ev == TermEvent::Probed(false);
            let killed = phase == TermPhase::AwaitSigkill && ev == TermEvent::SigkillSent(true);
            &&& s.1.contains(TermAction::Notify) <==> notify && (exited || killed)
            &&& exited ==> s.0 == TermPhase::Finished && s.1[0] == TermAction::Log(
                TermMessage::ExitedGracefully,
            )
            &&& killed ==> s.0 == TermPhase::Finished && s.1[0] == TermAction::Log(TermMessage::Killed)
            &&& (exited || killed) ==> s.1.len() == (if notify {
                2int
            } else {
                1int
            }) && s.1.last() == (if notify {
                TermAction::Notify
            } else {
                s.1[0]
            })
        }),
{
    let s = term_step(pid, grace_ms, dry_run, notify, phase, ev);
    let exited = phase == TermPhase::Grace && ev == TermEvent::Probed(false);
    let killed = phase == TermPhase::AwaitSigkill && ev == TermEvent::SigkillSent(true);
    lemma_step_signals(pid, grace_ms, dry_run, notify, phase, ev);
    if notify && (exited || killed) {
        assert(s.1[1] == TermAction::Notify);
    }
    if s.1.contains(TermAction::Notify) {
        let k = choose|k: int| 0 <= k < s.1.len() && s.1[k] == TermAction::Notify;
        assert(s.1[k] == TermAction::Notify);
    }
}

/// What each step must do: outside a dry run the start sends SIGTERM to the
/// target (a dry run finishes without signalling); a failed SIGTERM
/// finishes; a delivered one starts the grace clock; while the grace period
/// runs the process is polled every `POLL_INTERVAL_MS` ms; once it has
/// elapsed SIGKILL is sent; a live process is polled again after the clock
/// is read; after SIGKILL the termination finishes.
pub proof fn lemma_step_sends(
    pid: i32,
    grace_ms: u64,
    dry_run: bool,
    notify: bool,
    phase: TermPhase,
    ev: TermEvent,
)
    ensures
        ({
            let s = term_step(pid, grace_ms, dry_run, notify, phase, ev);
            let term = TermAction::Signal { pid, signal: SIGTERM };
            let kill = TermAction::Signal { pid, signal: SIGKILL };
            &&& phase == TermPhase::Start && ev == TermEvent::Begin && !dry_run ==> s.0
                == TermPhase::AwaitSigterm && s.1.last() == term && s.1[0] == TermAction::Log(
                TermMessage::CriticalMemory,
            )
            &&& phase == TermPhase::Start && ev == TermEvent::Begin && dry_run ==> s.0
                == TermPhase::Finished && s.1 == seq![
                TermAction::Log(TermMessage::CriticalMemory),
                TermAction::Log(TermMessage::DryRun),
            ]
            &&& phase == TermPhase::AwaitSigterm && ev == TermEvent::SigtermSent(false) ==> s.0
                == TermPhase::Finished && s.1 == seq![TermAction::Log(TermMessage::SigtermFailed)]
            &&& phase == TermPhase::AwaitSigterm && ev == TermEvent::SigtermSent(true) ==> s.0
                == TermPhase::Grace && s.1 == seq![TermAction::StartClock]
            &&& phase == TermPhase::Grace && ev is Elapsed && !grace_over(ev, grace_ms) ==> s.0
                == TermPhase::Grace && s.1 == seq![
                TermAction::SleepAndProbe { pid, sleep_ms: POLL_INTERVAL_MS },
            ]
            &&& phase == TermPhase::Grace && grace_over(ev, grace_ms) ==> s.0 == TermPhase::AwaitSigkill
                && s.1.last() == kill
            &&& phase == TermPhase::Grace && ev == TermEvent::Probed(true) ==> s.0 == TermPhase::Grace
                && s.1 == seq![TermAction::CheckClock]
            &&& phase == TermPhase::AwaitSigkill && ev is SigkillSent ==> s.0 == TermPhase::Finished
            &&& phase == TermPhase::AwaitSigkill && ev == TermEvent::SigkillSent(false) ==> s.1
                == seq![TermAction::Log(TermMessage::SigkillFailed)]
        }),
{
}

/// A dry run never sends a signal, whatever events it is fed.
pub proof fn lemma_dry_run_never_signals(pid: i32, grace_ms: u64, notify: bool, evs: Seq<TermEvent>)
    ensures
        ({
            let r = term_run(pid, grace_ms, true, notify, TermPhase::Start, evs);
            &&& r.0 == TermPhase::Start || r.0 == TermPhase::Finished
            &&& forall|k: int| 0 <= k < r.1.len() ==> !(#[trigger] r.1[k] is Signal)
        }),
    decreases evs.len(),
{
    if evs.len() > 0 {
        lemma_dry_run_never_signals(pid, grace_ms, notify, evs.drop_last());
        let p = term_run(pid, grace_ms, true, notify, TermPhase::Start, evs.drop_last());
        let s = term_step(pid, grace_ms, true, notify, p.0, evs.last());
        assert forall|k: int| 0 <= k < (p.1 + s.1).len() implies !(#[trigger] (p.1 + s.1)[k] is Signal) by {
            if k >= p.1.len() {
                assert((p.1 + s.1)[k] == s.1[k - p.1.len()]);
            } else {
                assert((p.1 + s.1)[k] == p.1[k]);
            }
        }
    }
}

/// SIGKILL is only ever sent after SIGTERM was delivered and the grace
/// period elapsed: when a run from the start has asked for SIGKILL, its
/// events hold a successful `SigtermSent` and, after it, an `Elapsed` of at
/// least the grace period.
pub proof fn lemma_sigkill_after_sigterm(pid: i32, grace_ms: u64, dry_run: bool, notify: bool, evs: Seq<TermEvent>)
    ensures
        ({
            let r = term_run(pid, grace_ms, dry_run, notify, TermPhase::Start, evs);
            (exists|k: int| 0 <= k < r.1.len() && #[trigger] r.1[k] == TermAction::Signal { pid, signal: SIGKILL })
                ==> exists|a: int, b: int|
                0 <= a < b < evs.len() && #[trigger] evs[a] == TermEvent::SigtermSent(true)
                    && grace_over(#[trigger] evs[b], grace_ms)
        }),
        ({
            let r = term_run(pid, grace_ms, dry_run, notify, TermPhase::Start, evs);
            (r.0 == TermPhase::Grace || r.0 == TermPhase::AwaitSigkill || exists|k: int|
                0 <= k < r.1.len() && #[trigger] r.1[k] == TermAction::Signal { pid, signal: SIGKILL })
                ==> exists|a: int| 0 <= a < evs.len() && #[trigger] evs[a] == TermEvent::SigtermSent(true)
        }),
        ({
            let r = term_run(pid, grace_ms, dry_run, notify, TermPhase::Start, evs);
            r.0 == TermPhase::AwaitSigkill ==> exists|a: int, b: int|
                0 <= a < b < evs.len() && #[trigger] evs[a] == TermEvent::SigtermSent(true)
                    && grace_over(#[trigger] evs[b], grace_ms)
        }),
    decreases evs.len(),
{
    if evs.len() > 0 {
        let d = evs.drop_last();
        lemma_sigkill_after_sigterm(pid, grace_ms, dry_run, notify, d);
        let p = term_run(pid, grace_ms, dry_run, notify, TermPhase::Start, d);
        let s = term_step(pid, grace_ms, dry_run, notify, p.0, evs.last());
        let r = term_run(pid, grace_ms, dry_run, notify, TermPhase::Start, evs);
        assert(r.1 == p.1 + s.1);
        assert forall|a: int| 0 <= a < d.len() implies #[trigger] evs[a] == d[a] by {}
        let kill = TermAction::Signal { pid, signal: SIGKILL };
        // Where a SIGKILL request in the whole run comes from.
        if exists|k: int| 0 <= k < r.1.len() && #[trigger] r.1[k] == kill {
            let k = choose|k: int| 0 <= k < r.1.len() && #[trigger] r.1[k] == kill;
            if k < p.1.len() {
                assert(p.1[k] == r.1[k]);
                let (a, b) = choose|a: int, b: int|
                    0 <= a < b < d.len() && #[trigger] d[a] == TermEvent::SigtermSent(true)
                        && grace_over(#[trigger] d[b], grace_ms);
                assert(evs[a] == d[a] && evs[b] == d[b]);
            } else {
                assert(s.1[k - p.1.len()] == kill);
                assert(p.0 == TermPhase::Grace);
                let a = choose|a: int| 0 <= a < d.len() && #[trigger] d[a] == TermEvent::SigtermSent(true);
                assert(evs[a] == d[a]);
                assert(evs[evs.len() - 1] == evs.last());
            }
        }
        if r.0 == TermPhase::Grace || r.0 == TermPhase::AwaitSigkill {
            if p.0 == TermPhase::Grace || p.0 == TermPhase::AwaitSigkill {
                let a = choose|a: int| 0 <= a < d.len() && #[trigger] d[a] == TermEvent::SigtermSent(true);
                assert(evs[a] == d[a]);
            } else {
                assert(evs[evs.len() - 1] == evs.last());
            }
        }
        if r.0 == TermPhase::AwaitSigkill {
            if p.0 == TermPhase::AwaitSigkill {
                let (a, b) = choose|a: int, b: int|
                    0 <= a < b < d.len() && #[trigger] d[a] == TermEvent::SigtermSent(true)
                        && grace_over(#[trigger] d[b], grace_ms);
                assert(evs[a] == d[a] && evs[b] == d[b]);
            } else {
                assert(p.0 == TermPhase::Grace);
                let a = choose|a: int| 0 <= a < d.len() && #[trigger] d[a] == TermEvent::SigtermSent(true);
                assert(evs[a] == d[a]);
                assert(evs[evs.len() - 1] == evs.last());
            }
        }
    }
}

/// `acts` asks for SIGTERM to `pid` at most once, for SIGKILL at most once,
/// and for SIGKILL only after SIGTERM.
pub open spec fn signals_in_order(pid: i32, acts: Seq<TermAction>) -> bool {
    let term = TermAction::Signal { pid, signal: SIGTERM };
    let kill = TermAction::Signal { pid, signal: SIGKILL };
    &&& forall|i: int, j: int|
        0 <= i < acts.len() && 0 <= j < acts.len() && #[trigger] acts[i] == term && #[trigger] acts[j]
            == term ==> i == j
    &&& forall|i: int, j: int|
        0 <= i < acts.len() && 0 <= j < acts.len() && #[trigger] acts[i] == kill && #[trigger] acts[j]
            == kill ==> i == j
    &&& forall|j: int|
        0 <= j < acts.len() && #[trigger] acts[j] == kill ==> exists|i: int|
            0 <= i < j && #[trigger] acts[i] == term
}

/// What holds of the actions of a run that reached `phase`.
spec fn run_inv(pid: i32, phase: TermPhase, acts: Seq<TermAction>) -> bool {
    let term = TermAction::Signal { pid, signal: SIGTERM };
    let kill = TermAction::Signal { pid, signal: SIGKILL };
    &&& signals_in_order(pid, acts)
    &&& phase == TermPhase::Start ==> forall|k: int| 0 <= k < acts.len() ==> !(#[trigger] acts[k] is Signal)
    &&& (phase == TermPhase::AwaitSigterm || phase == TermPhase::Grace) ==> {
        &&& forall|k: int| 0 <= k < acts.len() ==> #[trigger] acts[k] != kill
        &&& exists|i: int| 0 <= i < acts.len() && #[trigger] acts[i] == term
    }
}

proof fn lemma_run_inv_step(
    pid: i32,
    grace_ms: u64,
    dry_run: bool,
    notify: bool,
    phase: TermPhase,
    acts: Seq<TermAction>,
    ev: TermEvent,
)
    requires
        run_inv(pid, phase, acts),
    ensures
        ({
            let s = term_step(pid, grace_ms, dry_run, notify, phase, ev);
            run_inv(pid, s.0, acts + s.1)
        }),
{
    let s = term_step(pid, grace_ms, dry_run, notify, phase, ev);
    let n = acts + s.1;
    let term = TermAction::Signal { pid, signal: SIGTERM };
    let kill = TermAction::Signal { pid, signal: SIGKILL };
    assert forall|k: int| 0 <= k < acts.len() implies #[trigger] n[k] == acts[k] by {}
    assert forall|k: int| acts.len() <= k < n.len() implies #[trigger] n[k] == s.1[k - acts.len()] by {}
    lemma_step_signals(pid, grace_ms, dry_run, notify, phase, ev);
    // Which new signals the step adds.
    let adds_term = phase == TermPhase::Start && ev == TermEvent::Begin && !dry_run;
    let adds_kill = phase == TermPhase::Grace && grace_over(ev, grace_ms);
    assert forall|k: int| 0 <= k < s.1.len() && #[trigger] s.1[k] == term implies adds_term && k == 2 by {}
    assert forall|k: int| 0 <= k < s.1.len() && #[trigger] s.1[k] == kill implies adds_kill && k == 1 by {}
    if adds_term {
        assert(s.1[2] == term);
        assert(n[acts.len() + 2int] == term);
    }
    if adds_kill {
        assert(s.1[1] == kill);
        let i = choose|i: int| 0 <= i < acts.len() && #[trigger] acts[i] == term;
        assert(n[i] == term);
    }
    assert forall|j: int| 0 <= j < n.len() && #[trigger] n[j] == kill implies exists|i: int|
        0 <= i < j && #[trigger] n[i] == term by {
        if j < acts.len() {
            assert(acts[j] == kill);
            let i = choose|i: int| 0 <= i < j && #[trigger] acts[i] == term;
            assert(n[i] == term);
        } else {
            assert(s.1[j - acts.len()] == kill);
            let i = choose|i: int| 0 <= i < acts.len() && #[trigger] acts[i] == term;
            assert(n[i] == term);
        }
    }
    assert forall|i: int, j: int|
        0 <= i < n.len() && 0 <= j < n.len() && #[trigger] n[i] == term && #[trigger] n[j] == term
            implies i == j by {
        if i < acts.len() && j >= acts.len() {
            assert(acts[i] == term);
            assert(s.1[j - acts.len()] == term);
        }
        if j < acts.len() && i >= acts.len() {
            assert(acts[j] == term);
            assert(s.1[i - acts.len()] == term);
        }
        if i < acts.len() && j < acts.len() {
            assert(acts[i] == term && acts[j] == term);
        }
    }
    assert forall|i: int, j: int|
        0 <= i < n.len() && 0 <= j < n.len() && #[trigger] n[i] == kill && #[trigger] n[j] == kill
            implies i == j by {
        if i < acts.len() && j >= acts.len() {
            assert(acts[i] == kill);
            assert(s.1[j - acts.len()] == kill);
        }
        if j < acts.len() && i >= acts.len() {
            assert(acts[j] == kill);
            assert(s.1[i - acts.len()] == kill);
        }
        if i < acts.len() && j < acts.len() {
            assert(acts[i] == kill && acts[j] == kill);
        }
    }
    if s.0 == TermPhase::Start {
        assert forall|k: int| 0 <= k < n.len() implies !(#[trigger] n[k] is Signal) by {
            if k < acts.len() {
                assert(!(acts[k] is Signal));
            } else {
                assert(s.1[k - acts.len()] == n[k]);
            }
        }
    }
    if s.0 == TermPhase::AwaitSigterm || s.0 == TermPhase::Grace {
        assert forall|k: int| 0 <= k < n.len() implies #[trigger] n[k] != kill by {
            if k < acts.len() {
                if phase == TermPhase::Start {
                    assert(!(acts[k] is Signal));
                } else {
                    assert(acts[k] != kill);
                }
            }
        }
        if phase != TermPhase::Start {
            let i = choose|i: int| 0 <= i < acts.len() && #[trigger] acts[i] == term;
            assert(n[i] == term);
        }
    }
}

/// A termination run, whatever events it is fed, asks for SIGTERM at most
/// once and for SIGKILL at most once, and for SIGKILL only after SIGTERM;
/// once finished, it asks for nothing more.
pub proof fn lemma_run_signal_order(pid: i32, grace_ms: u64, dry_run: bool, notify: bool, evs: Seq<TermEvent>)
    ensures
        signals_in_order(pid, term_run(pid, grace_ms, dry_run, notify, TermPhase::Start, evs).1),
        forall|ev: TermEvent|
            #[trigger] term_step(pid, grace_ms, dry_run, notify, TermPhase::Finished, ev) == (
                TermPhase::Finished,
                Seq::<TermAction>::empty(),
            ),
{
    lemma_run_inv(pid, grace_ms, dry_run, notify, evs);
}

proof fn lemma_run_inv(pid: i32, grace_ms: u64, dry_run: bool, notify: bool, evs: Seq<TermEvent>)
    ensures
        ({
            let r = term_run(pid, grace_ms, dry_run, notify, TermPhase::Start, evs);
            run_inv(pid, r.0, r.1)
        }),
    decreases evs.len(),
{
    if evs.len() > 0 {
        lemma_run_inv(pid, grace_ms, dry_run, notify, evs.drop_last());
        let p = term_run(pid, grace_ms, dry_run, notify, TermPhase::Start, evs.drop_last());
        lemma_run_inv_step(pid, grace_ms, dry_run, notify, p.0, p.1, evs.last());
    }
}

/// Termination of processes.
pub struct ProcessTerminator;

impl ProcessTerminator {
    /// Prepares the termination of `target`, chosen when `free_mem_mb` MB
    /// were available, with the settings of `config`.
    pub fn terminate(target: &ProcessInfo, free_mem_mb: u64, config: &Config) -> (t: Termination)
        ensures
            t.target.pid == target.pid,
            t.target.comm@ == target.comm@,
            t.target.rss_mb == target.rss_mb,
            t.free_mem_mb == free_mem_mb,
            t.critical_threshold_mb == config.critical_threshold_mb,
            t.grace_ms == config.grace_ms,
            t.dry_run == config.dry_run,
            t.notify == config.notify,
            t.phase == TermPhase::Start,
    {
        Termination {
            target: ProcessInfo { pid: target.pid, comm: target.comm.clone(), rss_mb: target.rss_mb },
            free_mem_mb,
            critical_threshold_mb: config.critical_threshold_mb,
            grace_ms: config.grace_ms,
            dry_run: config.dry_run,
            notify: config.notify,
            phase: TermPhase::Start,
        }
    }
}

impl Termination {
    /// Feeds `ev`; returns the actions to perform, in order.
    pub fn step(&mut self, ev: TermEvent) -> (actions: Vec<TermAction>)
        ensures
            (final(self).phase, actions@) == term_step(
                old(self).target.pid,
                old(self).grace_ms,
                old(self).dry_run,
                old(self).notify,
                old(self).phase,
                ev,
            ),
            final(self).target == old(self).target,
            final(self).free_mem_mb == old(self).free_mem_mb,
            final(self).critical_threshold_mb == old(self).critical_threshold_mb,
            final(self).grace_ms == old(self).grace_ms,
            final(self).dry_run == old(self).dry_run,
            final(self).notify == old(self).notify,
    {
        let pid = self.target.pid;
        let mut actions: Vec<TermAction> = Vec::new();
        match (self.phase, ev) {
            (TermPhase::Start, TermEvent::Begin) => {
                actions.push(TermAction::Log(TermMessage::CriticalMemory));
                if self.dry_run {
                    actions.push(TermAction::Log(TermMessage::DryRun));
                    self.phase = TermPhase::Finished;
                } else {
                    actions.push(TermAction::Log(TermMessage::SendingSigterm));
                    actions.push(TermAction::Signal { pid, signal: SIGTERM });
                    self.phase = TermPhase::AwaitSigterm;
                }
            },
            (TermPhase::AwaitSigterm, TermEvent::SigtermSent(ok)) => {
                if ok {
                    actions.push(TermAction::StartClock);
                    self.phase = TermPhase::Grace;
                } else {
                    actions.push(TermAction::Log(TermMessage::SigtermFailed));
                    self.phase = TermPhase::Finished;
                }
            },
            (TermPhase::Grace, TermEvent::Elapsed(ms)) => {
                if ms < self.grace_ms {
                    actions.push(TermAction::SleepAndProbe { pid, sleep_ms: POLL_INTERVAL_MS });
                } else {
                    actions.push(TermAction::Log(TermMessage::NoExitAfterGrace));
                    actions.push(TermAction::Signal { pid, signal: SIGKILL });
                    self.phase = TermPhase::AwaitSigkill;
                }
            },
            (TermPhase::Grace, TermEvent::Probed(alive)) => {
                if alive {
                    actions.push(TermAction::CheckClock);
                } else {
                    actions.push(TermAction::Log(TermMessage::ExitedGracefully));
                    if self.notify {
                        actions.push(TermAction::Notify);
                    }
                    self.phase = TermPhase::Finished;
                }
            },
            (TermPhase::AwaitSigkill, TermEvent::SigkillSent(ok)) => {
                if ok {
                    actions.push(TermAction::Log(TermMessage::Killed));
                    if self.notify {
                        actions.push(TermAction::Notify);
                    }
                } else {
                    actions.push(TermAction::Log(TermMessage::SigkillFailed));
                }
                self.phase = TermPhase::Finished;
            },
            _ => {},
        }
        proof {
            let s = term_step(pid, self.grace_ms, self.dry_run, self.notify, old(self).phase, ev);
            assert(actions@ =~= s.1);
        }
        actions
    }

    /// Whether nothing more is to be done.
    pub fn is_finished(&self) -> (b: bool)
        ensures
            b == (self.phase == TermPhase::Finished),
    {
        match self.phase {
            TermPhase::Finished => true,
            _ => false,
        }
    }

    /// The level of message `m`.
    pub fn level(m: TermMessage) -> (l: LogLevel)
        ensures
            l == message_level(m),
    {
        match m {
            TermMessage::CriticalMemory => LogLevel::Warn,
            TermMessage::DryRun => LogLevel::Info,
            TermMessage::SendingSigterm => LogLevel::Info,
            TermMessage::SigtermFailed => LogLevel::Error,
            TermMessage::ExitedGracefully => LogLevel::Info,
            TermMessage::NoExitAfterGrace => LogLevel::Warn,
            TermMessage::Killed => LogLevel::Info,
            TermMessage::SigkillFailed => LogLevel::Error,
        }
    }

    /// The text of message `m` about this termination.
    pub fn message(&self, m: TermMessage) -> (s: String)
        ensures
            s@ == message_text(
                m,
                self.target.pid,
                self.target.comm@,
                self.target.rss_mb,
                self.free_mem_mb,
                self.critical_threshold_mb,
                self.grace_ms,
            ),
    {
        let pid = self.target.pid;
        let comm = self.target.comm.as_str();
        let mut out: Vec<char> = Vec::new();
        match m {
            TermMessage::CriticalMemory => {
                push_str(&mut out, "CRITICAL MEMORY: Available RAM is ");
                push_u64(&mut out, self.free_mem_mb);
                push_str(&mut out, " MB (Threshold: ");
                push_u64(&mut out, self.critical_threshold_mb);
                push_str(&mut out, " MB). Target: ");
                push_str(&mut out, comm);
                push_str(&mut out, " (PID: ");
                push_i32(&mut out, pid);
                push_str(&mut out, ") using ");
                push_u64(&mut out, self.target.rss_mb);
                push_str(&mut out, " MB RAM.");
            },
            TermMessage::DryRun => {
                push_str(&mut out, "[DRY RUN] Would send SIGTERM then SIGKILL to PID ");
                push_i32(&mut out, pid);
                push_str(&mut out, " (");
                push_str(&mut out, comm);
                push_str(&mut out, ").");
            },
            TermMessage::SendingSigterm => {
                push_str(&mut out, "Sending SIGTERM to process ");
                push_str(&mut out, comm);
                push_str(&mut out, " (PID ");
                push_i32(&mut out, pid);
                push_str(&mut out, ")...");
            },
            TermMessage::SigtermFailed => {
                push_str(&mut out, "Failed to send SIGTERM to PID ");
                push_i32(&mut out, pid);
                push_str(&mut out, ".");
            },
            TermMessage::ExitedGracefully => {
                push_str(&mut out, "Process ");
                push_str(&mut out, comm);
                push_str(&mut out, " (PID ");
                push_i32(&mut out, pid);
                push_str(&mut out, ") exited gracefully.");
            },
            TermMessage::NoExitAfterGrace => {
                push_str(&mut out, "Process ");
                push_str(&mut out, comm);
                push_str(&mut out, " (PID ");
                push_i32(&mut out, pid);
                push_str(&mut out, ") did not exit after ");
                push_u64(&mut out, self.grace_ms);
                push_str(&mut out, " ms. Sending SIGKILL...");
            },
            TermMessage::Killed => {
                push_str(&mut out, "Process ");
                push_str(&mut out, comm);
                push_str(&mut out, " (PID ");
                push_i32(&mut out, pid);
                push_str(&mut out, ") killed with SIGKILL.");
            },
            TermMessage::SigkillFailed => {
                push_str(&mut out, "Failed to send SIGKILL to PID ");
                push_i32(&mut out, pid);
                push_str(&mut out, ".");
            },
        }
        proof {
            assert(out@ =~= message_text(
                m,
                pid,
                self.target.comm@,
                self.target.rss_mb,
                self.free_mem_mb,
                self.critical_threshold_mb,
                self.grace_ms,
            ));
        }
        string_from_chars(&out)
    }

    /// The body of the desktop notification about the closed process.
    pub fn notification_body(&self) -> (s: String)
        ensures
            s@ == closed_notification(
                self.target.pid,
                self.target.comm@,
                self.target.rss_mb,
                self.free_mem_mb,
            ),
    {
        Notifier::desktop_notification_body(
            self.target.pid,
            self.target.comm.as_str(),
            self.target.rss_mb,
            self.free_mem_mb,
        )
    }
}

} // verus!
