//! The monitoring engine: what to do on each memory reading.
//!
//! Each check is a step: `WatchdogEngine::on_memory_stats` takes the
//! reading and says what to do (log, scan for a target, warn, sleep);
//! `WatchdogEngine::on_scan_result` takes the outcome of a scan.
use vstd::prelude::*;
use crate::config::{Config, ConfigView};
use crate::notifier::{warning_notification, Notifier};
use crate::process::ProcessInfo;
use crate::sysinfo::MemoryStats;
use crate::terminator::{ProcessTerminator, TermPhase, Termination};
use crate::text::{dec, push_str, push_u64, string_from_chars};

verus! {

/// What to do, in order, after a memory reading.
#[derive(Debug, Clone, Copy, PartialEq, Eq, Structural)]
pub enum EngineAction {
    /// Log the figures (verbose mode).
    LogStats(MemoryStats),
    /// Memory is critically low: look for a process to terminate, then hand
    /// the outcome to `on_scan_result`.
    ScanForTarget { available_mb: u64 },
    /// Log that memory fell below the warning threshold.
    WarnLowMemory { available_mb: u64 },
    /// Send the desktop notification that memory fell below the warning
    /// threshold.
    NotifyLowMemory { available_mb: u64 },
    /// Wait this long before the next reading.
    Sleep { ms: u64 },
}

/// The outcome of a scan for a process to terminate.
pub enum ScanOutcome {
    /// Terminate this process.
    Terminate(Termination),
    /// No process may be terminated: log that.
    NoCandidate,
}

/// The monitoring engine: the settings, the page size, and whether the
/// current stretch of low (but not critical) memory was already warned of.
pub struct WatchdogEngine {
    config: Config,
    page_size: u64,
    last_warned: bool,
}

/// One check with the settings `c`, when the last reading was already
/// warned of (`warned`), on the reading `stats` (`None` when unreadable):
/// whether the next check counts as warned, and the actions.
///
/// Below the critical threshold a scan is asked for; between the critical
/// and the warning threshold a warning (and, if asked for, a notification)
/// is given once per stretch of such readings; at or above the warning
/// threshold the stretch ends. Every check ends with a sleep of the interval.
pub open spec fn tick_effect(c: ConfigView, warned: bool, stats: Option<MemoryStats>) -> (bool, Seq<EngineAction>) {
    let sleep = EngineAction::Sleep { ms: c.interval_ms };
    match stats {
        None => (warned, seq![sleep]),
        Some(s) => {
            let pre = if c.verbose {
                seq![EngineAction::LogStats(s)]
            } else {
                Seq::empty()
            };
            let avail = s.available_mb;
            if avail < c.critical_threshold_mb {
                (false, pre.push(EngineAction::ScanForTarget { available_mb: avail }).push(sleep))
            } else if avail < c.warning_threshold_mb {
                if warned {
                    (true, pre.push(sleep))
                } else {
                    let warn = pre.push(EngineAction::WarnLowMemory { available_mb: avail });
                    let warn = if c.notify {
                        warn.push(EngineAction::NotifyLowMemory { available_mb: avail })
                    } else {
                        warn
                    };
                    (true, warn.push(sleep))
                }
            } else {
                (false, pre.push(sleep))
            }
        },
    }
}

/// `acts` holds a low-memory warning.
pub open spec fn warns(acts: Seq<EngineAction>) -> bool {
    exists|k: int| 0 <= k < acts.len() && #[trigger] acts[k] is WarnLowMemory
}

/// `s` is a reading between the critical and the warning threshold.
pub open spec fn in_warning_band(c: ConfigView, s: MemoryStats) -> bool {
    c.critical_threshold_mb <= s.available_mb < c.warning_threshold_mb
}

/// A stretch of low-memory readings is warned of once: after a reading in
/// the warning band, a second one gives no warning.
pub proof fn lemma_warning_once(c: ConfigView, warned: bool, s1: MemoryStats, s2: MemoryStats)
    requires
        in_warning_band(c, s1),
        in_warning_band(c, s2),
    ensures
        tick_effect(c, warned, Some(s1)).0,
        !warns(tick_effect(c, tick_effect(c, warned, Some(s1)).0, Some(s2)).1),
{
    let acts = tick_effect(c, true, Some(s2)).1;
    assert forall|k: int| 0 <= k < acts.len() implies !(#[trigger] acts[k] is WarnLowMemory) by {}
}

/// After a reading outside the warning band (critical, or at or above the
/// warning threshold), the next reading in the warning band is warned of.
pub proof fn lemma_warning_rearms(c: ConfigView, warned: bool, s1: MemoryStats, s2: MemoryStats)
    requires
        !in_warning_band(c, s1),
        in_warning_band(c, s2),
    ensures
        warns(tick_effect(c, tick_effect(c, warned, Some(s1)).0, Some(s2)).1),
{
    let acts = tick_effect(c, false, Some(s2)).1;
    let k = if c.verbose {
        1int
    } else {
        0int
    };
    assert(acts[k] is WarnLowMemory);
}

/// Below the critical threshold a scan for a target is always asked for,
/// and never a warning.
pub proof fn lemma_critical_scans(c: ConfigView, warned: bool, s: MemoryStats)
    requires
        s.available_mb < c.critical_threshold_mb,
    ensures
        tick_effect(c, warned, Some(s)).1.contains(EngineAction::ScanForTarget { available_mb: s.available_mb }),
        !warns(tick_effect(c, warned, Some(s)).1),
        !tick_effect(c, warned, Some(s)).0,
{
    let acts = tick_effect(c, warned, Some(s)).1;
    let k = if c.verbose {
        1int
    } else {
        0int
    };
    assert(acts[k] == EngineAction::ScanForTarget { available_mb: s.available_mb });
    assert forall|j: int| 0 <= j < acts.len() implies !(#[trigger] acts[j] is WarnLowMemory) by {}
}

/// The actions of a check on a reading, band by band: below the critical
/// threshold only the scan (after the figures in verbose mode) and the
/// sleep; in the warning band the warning and, when notifications are on,
/// the notification, only at the start of a stretch; otherwise only the
/// sleep. A low-memory notification is asked for exactly at the start of a
/// stretch in the warning band with notifications on.
pub proof fn lemma_tick_actions(c: ConfigView, warned: bool, s: MemoryStats)
    ensures
        ({
            let pre = if c.verbose {
                seq![EngineAction::LogStats(s)]
            } else {
                Seq::<EngineAction>::empty()
            };
            let sleep = EngineAction::Sleep { ms: c.interval_ms };
            let avail = s.available_mb;
            let t = tick_effect(c, warned, Some(s));
            &&& avail < c.critical_threshold_mb ==> t == (
                false,
                pre + seq![EngineAction::ScanForTarget { available_mb: avail }, sleep],
            )
            &&& in_warning_band(c, s) && warned ==> t == (true, pre + seq![sleep])
            &&& in_warning_band(c, s) && !warned ==> t == (
                true,
                pre + seq![EngineAction::WarnLowMemory { available_mb: avail }] + (if c.notify {
                    seq![EngineAction::NotifyLowMemory { available_mb: avail }]
                } else {
                    Seq::<EngineAction>::empty()
                }) + seq![sleep],
            )
            &&& avail >= c.critical_threshold_mb && avail >= c.warning_threshold_mb ==> t == (
                false,
                pre + seq![sleep],
            )
            &&& t.1.contains(EngineAction::NotifyLowMemory { available_mb: avail }) <==> (c.notify
                && !warned && in_warning_band(c, s))
            &&& forall|k: int| 0 <= k < t.1.len() ==> !(#[trigger] t.1[k] is NotifyLowMemory) || (c.notify
                && !warned && in_warning_band(c, s))
        }),
{
    let pre = if c.verbose {
        seq![EngineAction::LogStats(s)]
    } else {
        Seq::<EngineAction>::empty()
    };
    let sleep = EngineAction::Sleep { ms: c.interval_ms };
    let avail = s.available_mb;
    let t = tick_effect(c, warned, Some(s));
    let notify_act = EngineAction::NotifyLowMemory { available_mb: avail };
    if avail < c.critical_threshold_mb {
        assert(t.1 =~= pre + seq![EngineAction::ScanForTarget { available_mb: avail }, sleep]);
    } else if avail < c.warning_threshold_mb {
        if warned {
            assert(t.1 =~= pre + seq![sleep]);
        } else {
            let n = if c.notify {
                seq![notify_act]
            } else {
                Seq::<EngineAction>::empty()
            };
            assert(t.1 =~= pre + seq![EngineAction::WarnLowMemory { available_mb: avail }] + n + seq![sleep]);
            if c.notify {
                assert(t.1[pre.len() + 1int] == notify_act);
            }
        }
    } else {
        assert(t.1 =~= pre + seq![sleep]);
    }
    if t.1.contains(notify_act) {
        let k = choose|k: int| 0 <= k < t.1.len() && t.1[k] == notify_act;
        assert(t.1[k] == notify_act);
    }
}

/// Every check ends with a sleep of the configured interval, and nothing is
/// scanned or warned of without a reading.
pub proof fn lemma_tick_sleeps(c: ConfigView, warned: bool, stats: Option<MemoryStats>)
    ensures
        tick_effect(c, warned, stats).1.len() > 0,
        tick_effect(c, warned, stats).1.last() == (EngineAction::Sleep { ms: c.interval_ms }),
        stats is None ==> tick_effect(c, warned, stats) == (warned, seq![EngineAction::Sleep { ms: c.interval_ms }]),
{
}

impl WatchdogEngine {
    /// The settings.
    pub closed spec fn settings(&self) -> ConfigView {
        self.config@
    }

    /// The page size in bytes.
    pub closed spec fn page_bytes(&self) -> u64 {
        self.page_size
    }

    /// Whether the current stretch of low memory was already warned of.
    pub closed spec fn warned(&self) -> bool {
        self.last_warned
    }

    /// An engine with the settings `config`, for pages of `page_size` bytes.
    pub fn new(config: Config, page_size: u64) -> (e: Self)
        ensures
            e.settings() == config@,
            e.page_bytes() == page_size,
            !e.warned(),
    {
        WatchdogEngine { config, page_size, last_warned: false }
    }

    /// The settings.
    pub fn config(&self) -> (c: &Config)
        ensures
            c@ == self.settings(),
    {
        &self.config
    }

    /// The page size in bytes.
    pub fn page_size(&self) -> (p: u64)
        ensures
            p == self.page_bytes(),
    {
        self.page_size
    }

    /// Handles one memory reading (`None` when it could not be read).
    pub fn on_memory_stats(&mut self, stats: Option<MemoryStats>) -> (actions: Vec<EngineAction>)
        ensures
            (final(self).warned(), actions@) == tick_effect(old(self).settings(), old(self).warned(), stats),
            final(self).settings() == old(self).settings(),
            final(self).page_bytes() == old(self).page_bytes(),
    {
        let mut actions: Vec<EngineAction> = Vec::new();
        let sleep = EngineAction::Sleep { ms: self.config.interval_ms };
        match stats {
            None => {},
            Some(s) => {
                if self.config.verbose {
                    actions.push(EngineAction::LogStats(s));
                }
                let avail = s.available_mb;
                if avail < self.config.critical_threshold_mb {
                    actions.push(EngineAction::ScanForTarget { available_mb: avail });
                    self.last_warned = false;
                } else if avail < self.config.warning_threshold_mb {
                    if !self.last_warned {
                        actions.push(EngineAction::WarnLowMemory { available_mb: avail });
                        if self.config.notify {
                            actions.push(EngineAction::NotifyLowMemory { available_mb: avail });
                        }
                        self.last_warned = true;
                    }
                } else {
                    self.last_warned = false;
                }
            },
        }
        actions.push(sleep);
        proof {
            assert(actions@ =~= tick_effect(old(self).settings(), old(self).warned(), stats).1);
        }
        actions
    }

    /// Handles the outcome of a scan asked for when `available_mb` MB were
    /// available: the termination of the target found, if any.
    pub fn on_scan_result(&self, target: Option<ProcessInfo>, available_mb: u64) -> (r: ScanOutcome)
        ensures
            match target {
                Some(t) => r matches ScanOutcome::Terminate(term) && {
                    &&& term.target.pid == t.pid
                    &&& term.target.comm@ == t.comm@
                    &&& term.target.rss_mb == t.rss_mb
                    &&& term.free_mem_mb == available_mb
                    &&& term.critical_threshold_mb == self.settings().critical_threshold_mb
                    &&& term.grace_ms == self.settings().grace_ms
                    &&& term.dry_run == self.settings().dry_run
                    &&& term.notify == self.settings().notify
                    &&& term.phase == TermPhase::Start
                },
                None => r is NoCandidate,
            },
    {
        match target {
            Some(t) => ScanOutcome::Terminate(ProcessTerminator::terminate(&t, available_mb, &self.config)),
            None => ScanOutcome::NoCandidate,
        }
    }

    /// The line logged when the engine starts.
    pub fn startup_message(&self) -> (s: String)
        ensures
            s@ == "Watchdog Engine started. Critical Threshold: "@ + dec(
                self.settings().critical_threshold_mb as nat,
            ) + " MB, Warning: "@ + dec(self.settings().warning_threshold_mb as nat)
                + " MB, Interval: "@ + dec(self.settings().interval_ms as nat) + " ms, Dry-Run: "@
                + (if self.settings().dry_run {
                "true"@
            } else {
                "false"@
            }),
    {
        let mut out: Vec<char> = Vec::new();
        push_str(&mut out, "Watchdog Engine started. Critical Threshold: ");
        push_u64(&mut out, self.config.critical_threshold_mb);
        push_str(&mut out, " MB, Warning: ");
        push_u64(&mut out, self.config.warning_threshold_mb);
        push_str(&mut out, " MB, Interval: ");
        push_u64(&mut out, self.config.interval_ms);
        push_str(&mut out, " ms, Dry-Run: ");
        if self.config.dry_run {
            push_str(&mut out, "true");
        } else {
            push_str(&mut out, "false");
        }
        proof {
            assert(out@ =~= "Watchdog Engine started. Critical Threshold: "@ + dec(
                self.settings().critical_threshold_mb as nat,
            ) + " MB, Warning: "@ + dec(self.settings().warning_threshold_mb as nat)
                + " MB, Interval: "@ + dec(self.settings().interval_ms as nat) + " ms, Dry-Run: "@
                + (if self.settings().dry_run {
                "true"@
            } else {
                "false"@
            }));
        }
        string_from_chars(&out)
    }

    /// The line logged for a reading in verbose mode.
    pub fn stats_message(s: &MemoryStats) -> (m: String)
        ensures
            m@ == "RAM Stats -> Total: "@ + dec(s.total_mb as nat) + " MB | Available: "@ + dec(
                s.available_mb as nat,
            ) + " MB | Free: "@ + dec(s.free_mb as nat) + " MB | Cached: "@ + dec(
                s.cached_mb as nat,
            ) + " MB"@,
    {
        let mut out: Vec<char> = Vec::new();
        push_str(&mut out, "RAM Stats -> Total: ");
        push_u64(&mut out, s.total_mb);
        push_str(&mut out, " MB | Available: ");
        push_u64(&mut out, s.available_mb);
        push_str(&mut out, " MB | Free: ");
        push_u64(&mut out, s.free_mb);
        push_str(&mut out, " MB | Cached: ");
        push_u64(&mut out, s.cached_mb);
        push_str(&mut out, " MB");
        proof {
            assert(out@ =~= "RAM Stats -> Total: "@ + dec(s.total_mb as nat) + " MB | Available: "@
                + dec(s.available_mb as nat) + " MB | Free: "@ + dec(s.free_mb as nat)
                + " MB | Cached: "@ + dec(s.cached_mb as nat) + " MB"@);
        }
        string_from_chars(&out)
    }

    /// The line logged when memory falls below the warning threshold.
    pub fn low_memory_message(&self, available_mb: u64) -> (m: String)
        ensures
            m@ == "Memory Warning: Available RAM is "@ + dec(available_mb as nat)
                + " MB (< Warning Threshold "@ + dec(self.settings().warning_threshold_mb as nat)
                + " MB)."@,
    {
        let mut out: Vec<char> = Vec::new();
        push_str(&mut out, "Memory Warning: Available RAM is ");
        push_u64(&mut out, available_mb);
        push_str(&mut out, " MB (< Warning Threshold ");
        push_u64(&mut out, self.config.warning_threshold_mb);
        push_str(&mut out, " MB).");
        proof {
            assert(out@ =~= "Memory Warning: Available RAM is "@ + dec(available_mb as nat)
                + " MB (< Warning Threshold "@ + dec(self.settings().warning_threshold_mb as nat)
                + " MB)."@);
        }
        string_from_chars(&out)
    }

    /// The body of the desktop notification sent when memory falls below the
    /// warning threshold.
    pub fn low_memory_notification(&self, available_mb: u64) -> (m: String)
        ensures
            m@ == warning_notification(available_mb, self.settings().warning_threshold_mb),
    {
        Notifier::warning_notification_body(available_mb, self.config.warning_threshold_mb)
    }

    /// The line logged when memory is critically low but no process may be
    /// terminated.
    pub fn no_candidate_message(&self, available_mb: u64) -> (m: String)
        ensures
            m@ == "Critical RAM low ("@ + dec(available_mb as nat) + " MB < "@ + dec(
                self.settings().critical_threshold_mb as nat,
            ) + " MB), but no non-whitelisted candidate process found."@,
    {
        let mut out: Vec<char> = Vec::new();
        push_str(&mut out, "Critical RAM low (");
        push_u64(&mut out, available_mb);
        push_str(&mut out, " MB < ");
        push_u64(&mut out, self.config.critical_threshold_mb);
        push_str(&mut out, " MB), but no non-whitelisted candidate process found.");
        proof {
            assert(out@ =~= "Critical RAM low ("@ + dec(available_mb as nat) + " MB < "@ + dec(
                self.settings().critical_threshold_mb as nat,
            ) + " MB), but no non-whitelisted candidate process found."@);
        }
        string_from_chars(&out)
    }
}

} // verus!
