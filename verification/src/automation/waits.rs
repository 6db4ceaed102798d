//! The waits of the automation: sleeping in ticks that a stop request cuts short,
//! waiting for windows to close, waiting for CapCut's window to appear, and
//! recovering CapCut before a retry. The application sleeps, reads the clock and
//! looks at the desktop; these functions decide what comes next.

use vstd::prelude::*;

verus! {

/// The length of one sleeping tick, in milliseconds.
pub const TICK_MS: u64 = 100;

/// Whether an interruptible sleep of `ms` milliseconds, `done` ticks in, sleeps
/// another tick: whole ticks only, and none once a stop is requested.
pub fn keep_sleeping(done: u64, ms: u64, stop: bool) -> (r: bool)
    ensures
        r == (done < ms / 100 && !stop),
{
    done < ms / TICK_MS && !stop
}

/// What a look at the windows that should close decides.
#[derive(Clone, Copy, Debug, PartialEq, Eq, Structural)]
pub enum CloseWait {
    /// None of them is open any more.
    Closed,
    /// The time is up with one still open.
    TimedOut,
    /// Look again after a tick.
    Wait,
}

/// Judges one look while windows should close: all closed wins over the time limit.
pub fn close_wait(any_open: bool, elapsed_ms: u64, timeout_ms: u64) -> (r: CloseWait)
    ensures
        r == (if !any_open {
            CloseWait::Closed
        } else if elapsed_ms >= timeout_ms {
            CloseWait::TimedOut
        } else {
            CloseWait::Wait
        }),
{
    if !any_open {
        CloseWait::Closed
    } else if elapsed_ms >= timeout_ms {
        CloseWait::TimedOut
    } else {
        CloseWait::Wait
    }
}

// ─── Waiting for CapCut's window ─────────────────────────────────────────────

/// Where a wait for CapCut's window stands.
#[derive(Clone, Copy, Debug, PartialEq, Eq, Structural)]
pub enum WaitPhase {
    /// At the top of a round: the clock is read to see whether time is left.
    Top,
    /// The stop request is read.
    Stopping,
    /// CapCut's window is looked for (and focused where found).
    Looking,
    /// The clock is read to see whether progress is due.
    Logging,
    /// The wait is over.
    Over,
}

/// What the application reports to the wait.
#[derive(Clone, Copy, Debug, PartialEq, Eq, Structural)]
pub enum WaitEvent {
    /// Whole seconds since the wait began.
    Clock(u64),
    /// Whether a stop was requested.
    Stop(bool),
    /// Whether CapCut's window was found.
    Look(bool),
}

/// What the wait asks of the application next.
#[derive(Clone, Copy, Debug, PartialEq, Eq, Structural)]
pub enum WaitAction {
    /// Read the clock (then report `Clock`).
    ReadClock,
    /// Read the stop request (then report `Stop`).
    ReadStop,
    /// Look for CapCut's window (then report `Look`).
    Look,
    /// Log the progress at this many seconds, sleep half a second, read the clock.
    Progress(u64),
    /// Sleep half a second, then read the clock.
    Sleep,
    /// The window was found: the wait succeeds.
    Found,
    /// A stop was requested: the wait fails.
    Stopped,
    /// The time is up: the wait fails.
    TimedOut,
}

/// A wait of `timeout_secs` seconds for CapCut's window, logging progress at most
/// every two seconds.
#[derive(Clone, Copy, Debug, PartialEq, Eq, Structural)]
pub struct WindowWait {
    pub timeout_secs: u64,
    /// The second of the last progress line (0 before any).
    pub last_log_sec: u64,
    pub phase: WaitPhase,
}

pub open spec fn wait_accepts(w: WindowWait, e: WaitEvent) -> bool {
    match w.phase {
        WaitPhase::Top | WaitPhase::Logging => e is Clock,
        WaitPhase::Stopping => e is Stop,
        WaitPhase::Looking => e is Look,
        WaitPhase::Over => false,
    }
}

/// One step of the wait: time is checked first, then the stop request, then the
/// window; after a miss, progress is logged once two seconds have passed since the
/// last line.
pub open spec fn spec_wait_next(w: WindowWait, e: WaitEvent) -> (WindowWait, WaitAction) {
    match (w.phase, e) {
        (WaitPhase::Top, WaitEvent::Clock(s)) => if s < w.timeout_secs {
            (WindowWait { phase: WaitPhase::Stopping, ..w }, WaitAction::ReadStop)
        } else {
            (WindowWait { phase: WaitPhase::Over, ..w }, WaitAction::TimedOut)
        },
        (WaitPhase::Stopping, WaitEvent::Stop(stop)) => if stop {
            (WindowWait { phase: WaitPhase::Over, ..w }, WaitAction::Stopped)
        } else {
            (WindowWait { phase: WaitPhase::Looking, ..w }, WaitAction::Look)
        },
        (WaitPhase::Looking, WaitEvent::Look(found)) => if found {
            (WindowWait { phase: WaitPhase::Over, ..w }, WaitAction::Found)
        } else {
            (WindowWait { phase: WaitPhase::Logging, ..w }, WaitAction::ReadClock)
        },
        (WaitPhase::Logging, WaitEvent::Clock(s)) => if s >= w.last_log_sec + 2 {
            (WindowWait { phase: WaitPhase::Top, last_log_sec: s, ..w }, WaitAction::Progress(s))
        } else {
            (WindowWait { phase: WaitPhase::Top, ..w }, WaitAction::Sleep)
        },
        _ => (w, WaitAction::TimedOut),
    }
}

impl WindowWait {
    /// Begins a wait of `timeout_secs` seconds by reading the clock.
    pub fn start(timeout_secs: u64) -> (r: (WindowWait, WaitAction))
        ensures
            r.0 == (WindowWait { timeout_secs, last_log_sec: 0, phase: WaitPhase::Top }),
            r.1 == WaitAction::ReadClock,
    {
        (WindowWait { timeout_secs, last_log_sec: 0, phase: WaitPhase::Top }, WaitAction::ReadClock)
    }

    /// Whether the wait waits for this kind of report.
    pub fn accepts(&self, e: &WaitEvent) -> (r: bool)
        ensures
            r == wait_accepts(*self, *e),
    {
        match self.phase {
            WaitPhase::Top | WaitPhase::Logging => match e {
                WaitEvent::Clock(_) => true,
                _ => false,
            },
            WaitPhase::Stopping => match e {
                WaitEvent::Stop(_) => true,
                _ => false,
            },
            WaitPhase::Looking => match e {
                WaitEvent::Look(_) => true,
                _ => false,
            },
            WaitPhase::Over => false,
        }
    }

    /// Takes the report of the last outside work and gives the next.
    pub fn next(&mut self, e: WaitEvent) -> (a: WaitAction)
        requires
            wait_accepts(*old(self), e),
        ensures
            (*final(self), a) == spec_wait_next(*old(self), e),
    {
        let w = *self;
        let (nw, a) = match (w.phase, e) {
            (WaitPhase::Top, WaitEvent::Clock(s)) => if s < w.timeout_secs {
                (WindowWait { phase: WaitPhase::Stopping, ..w }, WaitAction::ReadStop)
            } else {
                (WindowWait { phase: WaitPhase::Over, ..w }, WaitAction::TimedOut)
            },
            (WaitPhase::Stopping, WaitEvent::Stop(stop)) => if stop {
                (WindowWait { phase: WaitPhase::Over, ..w }, WaitAction::Stopped)
            } else {
                (WindowWait { phase: WaitPhase::Looking, ..w }, WaitAction::Look)
            },
            (WaitPhase::Looking, WaitEvent::Look(found)) => if found {
                (WindowWait { phase: WaitPhase::Over, ..w }, WaitAction::Found)
            } else {
                (WindowWait { phase: WaitPhase::Logging, ..w }, WaitAction::ReadClock)
            },
            (WaitPhase::Logging, WaitEvent::Clock(s)) => if s >= w.last_log_sec && s - w.last_log_sec >= 2 {
                (WindowWait { phase: WaitPhase::Top, last_log_sec: s, ..w }, WaitAction::Progress(s))
            } else {
                (WindowWait { phase: WaitPhase::Top, ..w }, WaitAction::Sleep)
            },
            _ => (w, WaitAction::TimedOut),
        };
        *self = nw;
        a
    }
}

/// A finished wait takes no more reports, and every end of the wait is final:
/// after `Found`, `Stopped` or `TimedOut` nothing is accepted.
pub proof fn law_wait_ends_once(w: WindowWait, e: WaitEvent)
    requires
        wait_accepts(w, e),
    ensures
        ({
            let (w2, a) = spec_wait_next(w, e);
            (a == WaitAction::Found || a == WaitAction::Stopped || a == WaitAction::TimedOut) <==> w2.phase
                == WaitPhase::Over
        }),
        ({
            let (w2, a) = spec_wait_next(w, e);
            w2.phase == WaitPhase::Over ==> forall|e2: WaitEvent| !wait_accepts(w2, e2)
        }),
{
}

/// Progress lines are at least two seconds apart: a `Progress(s)` comes only when
/// `s` is two seconds past the last line, and records `s` as the last line.
pub proof fn law_progress_spacing(w: WindowWait, e: WaitEvent)
    requires
        wait_accepts(w, e),
    ensures
        ({
            let (w2, a) = spec_wait_next(w, e);
            a matches WaitAction::Progress(s) ==> s >= w.last_log_sec + 2 && w2.last_log_sec == s
        }),
        ({
            let (w2, a) = spec_wait_next(w, e);
            !(a is Progress) ==> w2.last_log_sec == w.last_log_sec
        }),
{
}

// ─── Recovering CapCut ───────────────────────────────────────────────────────

/// Why a recovery failed, where it says so.
#[derive(Clone, Copy, Debug, PartialEq, Eq, Structural)]
pub enum RecoveryFailure {
    /// CapCut's executable could not be launched.
    NoExecutable,
    /// CapCut's window did not appear in time.
    NoWindow,
    /// The home screen could not be maximized.
    NotMaximized,
}

/// The line logged for a failed recovery.
pub fn recovery_failure_text(f: RecoveryFailure) -> (r: &'static str)
    ensures
        r@ == recovery_failure_message(f),
{
    match f {
        RecoveryFailure::NoExecutable => "❌ [recovery] Không tìm thấy CapCut.exe!",
        RecoveryFailure::NoWindow => "❌ [recovery] CapCut không mở window sau 30s!",
        RecoveryFailure::NotMaximized => "❌ [recovery] Maximize Home thất bại!",
    }
}

pub open spec fn recovery_failure_message(f: RecoveryFailure) -> Seq<char> {
    match f {
        RecoveryFailure::NoExecutable => "❌ [recovery] Không tìm thấy CapCut.exe!"@,
        RecoveryFailure::NoWindow => "❌ [recovery] CapCut không mở window sau 30s!"@,
        RecoveryFailure::NotMaximized => "❌ [recovery] Maximize Home thất bại!"@,
    }
}

/// How long the recovery waits for CapCut's window, in seconds.
pub const RECOVERY_WAIT_SECS: u64 = 30;

/// Where a recovery stands.
#[derive(Clone, Copy, Debug, PartialEq, Eq, Structural)]
pub enum RecoveryStage {
    Killing,
    Launching,
    Waiting,
    Settling,
    Maximizing,
    Over(bool),
}

/// What the recovery asks of the application next; each but the last two is
/// answered with whether it went well.
#[derive(Clone, Copy, Debug, PartialEq, Eq, Structural)]
pub enum RecoveryAction {
    /// Log the start, kill CapCut and wait two seconds (answer `true`).
    Kill,
    /// Launch CapCut.
    Launch,
    /// Wait up to this many seconds for CapCut's window.
    WaitWindow(u64),
    /// Sleep this many milliseconds, cut short by a stop; answer whether no stop
    /// was requested.
    Settle(u64),
    /// Close the home screen's pop-ups and maximize it.
    Maximize,
    /// Wait three seconds, log the success: CapCut is ready.
    Recovered,
    /// The recovery failed, logging the reason where there is one.
    Failed(Option<RecoveryFailure>),
}

/// Kill CapCut, relaunch it, wait for its window, let it settle for the render
/// delay, and maximize its home screen; the first step that fails ends it.
#[derive(Clone, Copy, Debug, PartialEq, Eq, Structural)]
pub struct RecoveryFlow {
    /// The settling time after launch, in milliseconds.
    pub settle_ms: u64,
    pub stage: RecoveryStage,
}

pub open spec fn spec_recovery_next(f: RecoveryFlow, ok: bool) -> (RecoveryFlow, RecoveryAction) {
    match f.stage {
        RecoveryStage::Killing => (RecoveryFlow { stage: RecoveryStage::Launching, ..f }, RecoveryAction::Launch),
        RecoveryStage::Launching => if ok {
            (RecoveryFlow { stage: RecoveryStage::Waiting, ..f }, RecoveryAction::WaitWindow(RECOVERY_WAIT_SECS))
        } else {
            (RecoveryFlow { stage: RecoveryStage::Over(false), ..f }, RecoveryAction::Failed(Some(RecoveryFailure::NoExecutable)))
        },
        RecoveryStage::Waiting => if ok {
            (RecoveryFlow { stage: RecoveryStage::Settling, ..f }, RecoveryAction::Settle(f.settle_ms))
        } else {
            (RecoveryFlow { stage: RecoveryStage::Over(false), ..f }, RecoveryAction::Failed(Some(RecoveryFailure::NoWindow)))
        },
        RecoveryStage::Settling => if ok {
            (RecoveryFlow { stage: RecoveryStage::Maximizing, ..f }, RecoveryAction::Maximize)
        } else {
            (RecoveryFlow { stage: RecoveryStage::Over(false), ..f }, RecoveryAction::Failed(None))
        },
        RecoveryStage::Maximizing => if ok {
            (RecoveryFlow { stage: RecoveryStage::Over(true), ..f }, RecoveryAction::Recovered)
        } else {
            (RecoveryFlow { stage: RecoveryStage::Over(false), ..f }, RecoveryAction::Failed(Some(RecoveryFailure::NotMaximized)))
        },
        RecoveryStage::Over(_) => (f, RecoveryAction::Failed(None)),
    }
}

impl RecoveryFlow {
    /// Begins a recovery that settles for `render_delay` seconds after launch.
    pub fn start(render_delay: u64) -> (r: (RecoveryFlow, RecoveryAction))
        requires
            render_delay * 1000 <= u64::MAX,
        ensures
            r.0 == (RecoveryFlow { settle_ms: (render_delay * 1000) as u64, stage: RecoveryStage::Killing }),
            r.1 == RecoveryAction::Kill,
    {
        (RecoveryFlow { settle_ms: render_delay * 1000, stage: RecoveryStage::Killing }, RecoveryAction::Kill)
    }

    /// Whether the recovery still waits for a report.
    pub fn is_running(&self) -> (r: bool)
        ensures
            r == !(self.stage is Over),
    {
        match self.stage {
            RecoveryStage::Over(_) => false,
            _ => true,
        }
    }

    /// Takes whether the last step went well and gives the next.
    pub fn next(&mut self, ok: bool) -> (a: RecoveryAction)
        requires
            !(old(self).stage is Over),
        ensures
            (*final(self), a) == spec_recovery_next(*old(self), ok),
    {
        let f = *self;
        let (nf, a) = match f.stage {
            RecoveryStage::Killing => (RecoveryFlow { stage: RecoveryStage::Launching, ..f }, RecoveryAction::Launch),
            RecoveryStage::Launching => if ok {
                (RecoveryFlow { stage: RecoveryStage::Waiting, ..f }, RecoveryAction::WaitWindow(RECOVERY_WAIT_SECS))
            } else {
                (RecoveryFlow { stage: RecoveryStage::Over(false), ..f }, RecoveryAction::Failed(Some(RecoveryFailure::NoExecutable)))
            },
            RecoveryStage::Waiting => if ok {
                (RecoveryFlow { stage: RecoveryStage::Settling, ..f }, RecoveryAction::Settle(f.settle_ms))
            } else {
                (RecoveryFlow { stage: RecoveryStage::Over(false), ..f }, RecoveryAction::Failed(Some(RecoveryFailure::NoWindow)))
            },
            RecoveryStage::Settling => if ok {
                (RecoveryFlow { stage: RecoveryStage::Maximizing, ..f }, RecoveryAction::Maximize)
            } else {
                (RecoveryFlow { stage: RecoveryStage::Over(false), ..f }, RecoveryAction::Failed(None))
            },
            RecoveryStage::Maximizing => if ok {
                (RecoveryFlow { stage: RecoveryStage::Over(true), ..f }, RecoveryAction::Recovered)
            } else {
                (RecoveryFlow { stage: RecoveryStage::Over(false), ..f }, RecoveryAction::Failed(Some(RecoveryFailure::NotMaximized)))
            },
            RecoveryStage::Over(_) => (f, RecoveryAction::Failed(None)),
        };
        *self = nf;
        a
    }
}

/// A recovery succeeds only through every step: `Recovered` comes only from the
/// maximize, and only when it went well; any step that fails ends the recovery.
pub proof fn law_recovery_all_or_nothing(f: RecoveryFlow, ok: bool)
    requires
        !(f.stage is Over),
    ensures
        ({
            let (f2, a) = spec_recovery_next(f, ok);
            a == RecoveryAction::Recovered <==> (f.stage == RecoveryStage::Maximizing && ok)
        }),
        ({
            let (f2, a) = spec_recovery_next(f, ok);
            a is Failed <==> (!ok && f.stage != RecoveryStage::Killing)
        }),
        ({
            let (f2, a) = spec_recovery_next(f, ok);
            (a is Failed || a == RecoveryAction::Recovered) <==> f2.stage is Over
        }),
{
}

} // verus!
