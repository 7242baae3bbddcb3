//! Watching the daemon's snapshots: when to start the daemon, and what to report.

use crate::dashboard::AppMsg;
use crate::text;
use vstd::prelude::*;

verus! {

/// The first pause between two attempts to start the daemon, in seconds.
pub const START_BACKOFF_MIN_SECS: u64 = 2;

/// The longest pause between two attempts to start the daemon, in seconds.
pub const START_BACKOFF_MAX_SECS: u64 = 60;

/// The pause after the daemon was started, in milliseconds.
pub const STARTED_PAUSE_MS: u64 = 8000;

/// When the daemon may be started next.
#[derive(Debug, Clone, Copy, PartialEq, Eq, Structural)]
pub struct SnapshotWatch {
    pub start_daemon: bool,
    pub next_start_attempt_ms: u64,
    pub start_backoff_secs: u64,
}

/// What comes after the watch has ended.
#[derive(Debug)]
pub enum WatchStep {
    /// Watch again at once, with a report if the daemon was started.
    WatchAgain(Option<AppMsg>),
    /// Report the error and rest for a second.
    Report(AppMsg),
}

/// A time later than another one; the clock does not run over.
pub open spec fn later(now_ms: u64, by_ms: int) -> u64 {
    if now_ms + by_ms <= u64::MAX {
        (now_ms + by_ms) as u64
    } else {
        u64::MAX
    }
}

/// The pause after a pause: twice as long, within its limits.
pub open spec fn backed_off(secs: u64) -> u64 {
    let doubled = secs * 2;
    if doubled < START_BACKOFF_MIN_SECS {
        START_BACKOFF_MIN_SECS
    } else if doubled > START_BACKOFF_MAX_SECS {
        START_BACKOFF_MAX_SECS
    } else {
        doubled as u64
    }
}

impl SnapshotWatch {
    pub open spec fn wf(self) -> bool {
        START_BACKOFF_MIN_SECS <= self.start_backoff_secs <= START_BACKOFF_MAX_SECS
    }

    pub fn new(start_daemon: bool, now_ms: u64) -> (r: SnapshotWatch)
        ensures
            r.wf(),
            r == (SnapshotWatch {
                start_daemon,
                next_start_attempt_ms: now_ms,
                start_backoff_secs: START_BACKOFF_MIN_SECS,
            }),
    {
        SnapshotWatch {
            start_daemon,
            next_start_attempt_ms: now_ms,
            start_backoff_secs: START_BACKOFF_MIN_SECS,
        }
    }

    /// A snapshot came: the daemon is there.
    pub fn snapshot_received(&mut self, now_ms: u64)
        ensures
            final(self).wf(),
            *final(self) == (SnapshotWatch {
                next_start_attempt_ms: now_ms,
                start_backoff_secs: START_BACKOFF_MIN_SECS,
                ..*old(self)
            }),
    {
        self.next_start_attempt_ms = now_ms;
        self.start_backoff_secs = START_BACKOFF_MIN_SECS;
    }

    /// Whether the daemon is to be started once the watch has failed.
    pub fn should_start(&self, now_ms: u64) -> (r: bool)
        ensures
            r == (self.start_daemon && now_ms >= self.next_start_attempt_ms),
    {
        self.start_daemon && now_ms >= self.next_start_attempt_ms
    }

    /// The watch failed and the daemon was not to be started.
    pub fn watch_failed(error: String) -> (r: WatchStep)
        ensures
            r == WatchStep::Report(AppMsg::SnapshotError(error)),
    {
        WatchStep::Report(AppMsg::SnapshotError(error))
    }

    /// The watch failed and the daemon was started, or not: the way by which it is
    /// there now, nothing where there was nothing to do, or an error.
    pub fn start_attempted(
        &mut self,
        error: String,
        outcome: Result<Option<String>, String>,
        now_ms: u64,
    ) -> (r: WatchStep)
        requires
            old(self).wf(),
        ensures
            final(self).wf(),
            match outcome {
                Ok(path) => {
                    &&& *final(self) == (SnapshotWatch {
                        next_start_attempt_ms: later(now_ms, STARTED_PAUSE_MS as int),
                        start_backoff_secs: START_BACKOFF_MIN_SECS,
                        ..*old(self)
                    })
                    &&& r matches WatchStep::WatchAgain(report)
                    &&& report is Some <==> path is Some
                    &&& path is Some ==> {
                        &&& report->0 matches AppMsg::ActionComplete(message)
                        &&& message@ == "Boundless daemon is available via `"@ + path->0@ + "`"@
                    }
                },
                Err(start_error) => {
                    &&& *final(self) == (SnapshotWatch {
                        next_start_attempt_ms: later(now_ms, old(self).start_backoff_secs * 1000),
                        start_backoff_secs: backed_off(old(self).start_backoff_secs),
                        ..*old(self)
                    })
                    &&& r matches WatchStep::Report(AppMsg::SnapshotError(message))
                    &&& message@ == error@ + "\nstart-daemon failed: "@ + start_error@
                },
            },
    {
        match outcome {
            Ok(path) => {
                self.next_start_attempt_ms = now_ms.saturating_add(STARTED_PAUSE_MS);
                self.start_backoff_secs = START_BACKOFF_MIN_SECS;
                let report = match path {
                    Some(path) => Some(
                        AppMsg::ActionComplete(
                            text::cat3("Boundless daemon is available via `", path.as_str(), "`"),
                        ),
                    ),
                    None => None,
                };
                WatchStep::WatchAgain(report)
            },
            Err(start_error) => {
                self.next_start_attempt_ms = now_ms.saturating_add(self.start_backoff_secs * 1000);
                let doubled: u64 = self.start_backoff_secs * 2;
                self.start_backoff_secs = if doubled > START_BACKOFF_MAX_SECS {
                    START_BACKOFF_MAX_SECS
                } else {
                    doubled
                };
                let message = text::cat3(
                    error.as_str(),
                    "\nstart-daemon failed: ",
                    start_error.as_str(),
                );
                WatchStep::Report(AppMsg::SnapshotError(message))
            },
        }
    }
}

/// Pauses between failed attempts to start the daemon never get shorter, and never
/// leave their limits.
pub proof fn law_pauses_between_starts_grow(secs: u64)
    requires
        START_BACKOFF_MIN_SECS <= secs <= START_BACKOFF_MAX_SECS,
    ensures
        secs <= backed_off(secs) <= START_BACKOFF_MAX_SECS,
        secs < START_BACKOFF_MAX_SECS ==> secs < backed_off(secs),
{
}

/// The pause after a failed start doubles, from two seconds up to sixty. A time that
/// would run over is the last one there is.
pub proof fn law_pauses_double(secs: u64, now_ms: u64, by_ms: int)
    ensures
        1 <= secs <= 30 ==> backed_off(secs) == secs * 2,
        secs > 30 ==> backed_off(secs) == 60,
        secs == 0 ==> backed_off(secs) == 2,
        0 <= by_ms && now_ms + by_ms <= u64::MAX ==> later(now_ms, by_ms) == now_ms + by_ms,
        now_ms + by_ms > u64::MAX ==> later(now_ms, by_ms) == u64::MAX,
        STARTED_PAUSE_MS == 8000,
{
}

} // verus!
