//! Text of log lines and desktop notifications.
use vstd::prelude::*;
use crate::text::{dec, dec_int, push_i32, push_str, push_u64, string_from_chars};

verus! {

/// Severity of a log line.
#[derive(Debug, Clone, Copy, PartialEq, Eq, Structural)]
pub enum LogLevel {
    Debug,
    Info,
    Warn,
    Error,
}

impl LogLevel {
    /// The tag written for this level.
    pub open spec fn tag(self) -> Seq<char> {
        match self {
            LogLevel::Debug => "DEBUG"@,
            LogLevel::Info => "INFO"@,
            LogLevel::Warn => "WARN"@,
            LogLevel::Error => "ERROR"@,
        }
    }

    /// The tag written for this level.
    pub fn label(&self) -> (s: &'static str)
        ensures
            s@ == self.tag(),
    {
        match self {
            LogLevel::Debug => "DEBUG",
            LogLevel::Info => "INFO",
            LogLevel::Warn => "WARN",
            LogLevel::Error => "ERROR",
        }
    }
}

/// Log line formatting.
pub struct Logger;

impl Logger {
    /// The line logged for `msg` at `level` at the time `timestamp`:
    /// `[timestamp] [level] msg`.
    pub fn format_line(timestamp: &str, level: &str, msg: &str) -> (line: String)
        ensures
            line@ == "["@ + timestamp@ + "] ["@ + level@ + "] "@ + msg@,
    {
        let mut out: Vec<char> = Vec::new();
        push_str(&mut out, "[");
        push_str(&mut out, timestamp);
        push_str(&mut out, "] [");
        push_str(&mut out, level);
        push_str(&mut out, "] ");
        push_str(&mut out, msg);
        proof {
            assert(out@ =~= "["@ + timestamp@ + "] ["@ + level@ + "] "@ + msg@);
        }
        string_from_chars(&out)
    }
}

/// The text of the desktop notification sent after a process was closed.
pub open spec fn closed_notification(pid: i32, comm: Seq<char>, rss_mb: u64, free_mem_mb: u64) -> Seq<char> {
    "Closed "@ + comm + " (PID "@ + dec_int(pid as int) + ") using "@ + dec(rss_mb as nat)
        + " MB RAM. Available RAM was "@ + dec(free_mem_mb as nat) + " MB."@
}

/// The text of the desktop notification sent when memory falls below the
/// warning threshold. Its wording is this library's own choice; it repeats
/// the figures of the low-memory log line.
pub open spec fn warning_notification(available_mb: u64, warning_threshold_mb: u64) -> Seq<char> {
    "Available RAM is "@ + dec(available_mb as nat) + " MB (< Warning Threshold "@ + dec(
        warning_threshold_mb as nat,
    ) + " MB)."@
}

/// Desktop notification texts.
pub struct Notifier;

impl Notifier {
    /// The title of every desktop notification.
    pub fn title() -> (s: &'static str)
        ensures
            s@ == "Memory Watchdog Alert"@,
    {
        "Memory Watchdog Alert"
    }

    /// The body of the notification sent after closing `comm` (`pid`), which
    /// used `rss_mb` MB, when `free_mem_mb` MB were available.
    pub fn desktop_notification_body(pid: i32, comm: &str, rss_mb: u64, free_mem_mb: u64) -> (body: String)
        ensures
            body@ == closed_notification(pid, comm@, rss_mb, free_mem_mb),
    {
        let mut out: Vec<char> = Vec::new();
        push_str(&mut out, "Closed ");
        push_str(&mut out, comm);
        push_str(&mut out, " (PID ");
        push_i32(&mut out, pid);
        push_str(&mut out, ") using ");
        push_u64(&mut out, rss_mb);
        push_str(&mut out, " MB RAM. Available RAM was ");
        push_u64(&mut out, free_mem_mb);
        push_str(&mut out, " MB.");
        proof {
            assert(out@ =~= closed_notification(pid, comm@, rss_mb, free_mem_mb));
        }
        string_from_chars(&out)
    }

    /// The body of the notification sent when `available_mb` MB are
    /// available, below the warning threshold of `warning_threshold_mb` MB
    /// (wording chosen by this library, see `warning_notification`).
    pub fn warning_notification_body(available_mb: u64, warning_threshold_mb: u64) -> (body: String)
        ensures
            body@ == warning_notification(available_mb, warning_threshold_mb),
    {
        let mut out: Vec<char> = Vec::new();
        push_str(&mut out, "Available RAM is ");
        push_u64(&mut out, available_mb);
        push_str(&mut out, " MB (< Warning Threshold ");
        push_u64(&mut out, warning_threshold_mb);
        push_str(&mut out, " MB).");
        proof {
            assert(out@ =~= warning_notification(available_mb, warning_threshold_mb));
        }
        string_from_chars(&out)
    }
}

} // verus!
