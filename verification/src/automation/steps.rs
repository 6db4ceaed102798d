//! Decisions taken inside the steps that drive the CapCut window.

use vstd::prelude::*;
use crate::text::{has_substring, lowercase, lowercased, text_contains, text_eq};

verus! {

/// The outcome of one step.
#[derive(Clone, Copy, Debug, PartialEq, Eq, Structural)]
pub enum StepResult {
    /// The step succeeded; go on.
    Continue,
    /// Give up on the current project.
    SkipProject,
    /// Stop the whole batch (stop request or a fatal error).
    StopAll,
}

/// A calibrated position is in use when both coordinates are positive.
pub open spec fn position_set(p: (i32, i32)) -> bool {
    p.0 > 0 && p.1 > 0
}

/// Whether the search box is clicked before opening a project.
pub fn uses_search(search_button: (i32, i32)) -> (r: bool)
    ensures
        r == position_set(search_button),
{
    search_button.0 > 0 && search_button.1 > 0
}

/// Whether the export folder is set: only for the first project, and only when the
/// export path button was calibrated.
pub fn sets_export_path(idx: usize, export_input: (i32, i32)) -> (r: bool)
    ensures
        r == (idx == 0 && position_set(export_input)),
{
    idx == 0 && export_input.0 > 0 && export_input.1 > 0
}

/// How many results to skip after searching for `name`: the names listed before it
/// whose lower-case form contains its lower-case form (CapCut lists the most recent
/// first). Without a calibrated search box, or with no list, 0.
pub open spec fn spec_search_offset(search_x: i32, names: Seq<Seq<char>>, name: Seq<char>) -> nat {
    if search_x > 0 && names.len() > 0 {
        offset_count(names, name, names.len() as int)
    } else {
        0
    }
}

/// Among the first `n` names, before the first that equals `name`, those whose
/// lower-case form contains `name`'s.
pub open spec fn offset_count(names: Seq<Seq<char>>, name: Seq<char>, n: int) -> nat
    decreases n,
{
    if n <= 0 {
        0
    } else if exists|k: int| 0 <= k < n - 1 && names[k] == name {
        offset_count(names, name, n - 1)
    } else if names[n - 1] == name {
        offset_count(names, name, n - 1)
    } else {
        offset_count(names, name, n - 1) + if has_substring(lowercased(names[n - 1]), lowercased(name)) {
            1nat
        } else {
            0nat
        }
    }
}

pub open spec fn names_view(v: Seq<String>) -> Seq<Seq<char>> {
    v.map_values(|s: String| s@)
}

/// The number of results to step over to reach `name` after searching for it.
pub fn search_offset(search_x: i32, all_names: &Vec<String>, name: &str) -> (r: usize)
    ensures
        r == spec_search_offset(search_x, names_view(all_names@), name@),
{
    if !(search_x > 0 && all_names.len() > 0) {
        return 0;
    }
    let ghost nv = names_view(all_names@);
    let target = lowercase(name);
    let mut count: usize = 0;
    let mut seen = false;
    let mut i: usize = 0;
    while i < all_names.len()
        invariant
            nv == names_view(all_names@),
            i <= all_names@.len(),
            count <= i,
            seen == exists|k: int| 0 <= k < i && nv[k] == name@,
            count == offset_count(nv, name@, i as int),
            target@ == lowercased(name@),
        decreases all_names@.len() - i,
    {
        let ghost before = count;
        if !seen {
            if text_eq(all_names[i].as_str(), name) {
                seen = true;
            } else {
                let l = lowercase(all_names[i].as_str());
                if text_contains(l.as_str(), target.as_str()) {
                    count = count + 1;
                }
            }
        }
        proof {
            if seen {
                assert(exists|k: int| 0 <= k < i + 1 && nv[k] == name@) by {
                    if !(exists|k: int| 0 <= k < i && nv[k] == name@) {
                        assert(nv[i as int] == name@);
                    }
                }
            } else {
                assert(!(exists|k: int| 0 <= k < i + 1 && nv[k] == name@));
            }
        }
        i = i + 1;
    }
    count
}

/// A window fills the screen (within 10 pixels of its width and 120 of its height).
pub open spec fn spec_maximized(screen: (i32, i32), rect: (i32, i32, i32, i32)) -> bool {
    rect.2 - rect.0 >= screen.0 - 10 && rect.3 - rect.1 >= screen.1 - 120
}

/// Whether CapCut's window, given as (left, top, right, bottom), fills the screen.
pub fn is_window_maximized(screen: (i32, i32), rect: (i32, i32, i32, i32)) -> (r: bool)
    ensures
        r == spec_maximized(screen, rect),
{
    (rect.2 as i64) - (rect.0 as i64) >= (screen.0 as i64) - 10 && (rect.3 as i64) - (rect.1 as i64) >= (screen.1
        as i64) - 120
}

/// Rust's signed division, rounding toward zero, for a positive divisor.
pub open spec fn div_toward_zero(a: int, b: int) -> int {
    if a >= 0 { a / b } else { -((-a) / b) }
}

/// Where to click on a dialog's title bar: horizontally centred, 15 pixels below its top.
pub open spec fn spec_title_bar_point(rect: (i32, i32, i32, i32)) -> (int, int) {
    (rect.0 + div_toward_zero(rect.2 - rect.0, 2), rect.1 + 15)
}

/// The point on a dialog's title bar that focuses it.
pub fn title_bar_point(rect: (i32, i32, i32, i32)) -> (r: (i32, i32))
    requires
        i32::MIN <= rect.2 - rect.0 <= i32::MAX,
        i32::MIN <= spec_title_bar_point(rect).0 <= i32::MAX,
        rect.1 + 15 <= i32::MAX,
    ensures
        r.0 == spec_title_bar_point(rect).0,
        r.1 == spec_title_bar_point(rect).1,
{
    let w = rect.2 - rect.0;
    let half: i32 = if w >= 0 { w / 2 } else { -((-(w as i64)) / 2) as i32 };
    (rect.0 + half, rect.1 + 15)
}

/// Where maximizing CapCut's window stands.
#[derive(Clone, Copy, Debug, PartialEq, Eq, Structural)]
pub enum MaximizeStage {
    /// Waiting for CapCut to be focused.
    Focusing,
    /// Waiting to learn whether CapCut responds.
    Probing,
    /// Waiting for CapCut to respond again.
    Waiting,
    /// Waiting for CapCut to be focused again once it responds.
    Refocusing,
    /// Waiting for the window's size: before maximizing (0), after the window
    /// API (1), after Win+Up (2).
    Measuring(u8),
    /// Waiting for the window API to maximize.
    Maximizing,
    /// Waiting for Win+Up to be pressed.
    Pressing,
    /// Over, maximized or not.
    Over(bool),
}

/// What the outside work reports back.
#[derive(Clone, Copy, Debug)]
pub enum MaximizeEvent {
    /// Whether CapCut's window was found and focused.
    Focused(bool),
    /// Whether CapCut is "Not Responding", and the seconds waited so far for it.
    Responding { not_responding: bool, waited_secs: u64 },
    /// The screen's size and CapCut's window rectangle, where they could be read.
    Measured { screen: Option<(i32, i32)>, rect: Option<(i32, i32, i32, i32)> },
    /// Whether the window API found the window to maximize.
    Maximized(bool),
    /// Win+Up was pressed.
    Pressed,
}

/// The outside work to do next.
#[derive(Clone, Copy, Debug, PartialEq, Eq, Structural)]
pub enum MaximizeAction {
    /// Focus CapCut (then report `Focused`).
    Focus,
    /// Ask whether CapCut responds (then report `Responding`).
    CheckResponding,
    /// Wait two seconds, then ask again (then report `Responding`).
    WaitAndCheckResponding,
    /// Wait two seconds, then read the screen size and the window (then report `Measured`).
    Measure,
    /// Maximize through the window API (then report `Maximized`).
    CallMaximize,
    /// Press Win+Up (then report `Pressed`).
    PressWinUp,
    /// Done: whether the window is maximized.
    Finish(bool),
}

/// How long CapCut may stay "Not Responding" before the maximize gives up.
pub const NOT_RESPONDING_LIMIT_SECS: u64 = 60;

/// Whether a measurement shows the window filling the screen.
pub open spec fn measured_maximized(screen: Option<(i32, i32)>, rect: Option<(i32, i32, i32, i32)>) -> bool {
    match (screen, rect) {
        (Some(sc), Some(r)) => spec_maximized(sc, r),
        _ => false,
    }
}

/// Whether the stage waits for this kind of report.
pub open spec fn maximize_accepts(st: MaximizeStage, e: MaximizeEvent) -> bool {
    match st {
        MaximizeStage::Focusing | MaximizeStage::Refocusing => e is Focused,
        MaximizeStage::Probing | MaximizeStage::Waiting => e is Responding,
        MaximizeStage::Measuring(k) => e is Measured && k <= 2,
        MaximizeStage::Maximizing => e is Maximized,
        MaximizeStage::Pressing => e is Pressed,
        MaximizeStage::Over(_) => false,
    }
}

pub open spec fn spec_over(ok: bool) -> (MaximizeStage, MaximizeAction) {
    (MaximizeStage::Over(ok), MaximizeAction::Finish(ok))
}

/// Maximizing CapCut: focus it; if it is "Not Responding", wait for it (giving up after
/// a minute) and focus it again; then, unless it already fills the screen, maximize it
/// through the window API and, failing that, with Win+Up, measuring after each.
pub open spec fn spec_maximize_next(st: MaximizeStage, e: MaximizeEvent) -> (MaximizeStage, MaximizeAction) {
    match (st, e) {
        (MaximizeStage::Focusing, MaximizeEvent::Focused(ok)) => if ok {
            (MaximizeStage::Probing, MaximizeAction::CheckResponding)
        } else {
            spec_over(false)
        },
        (MaximizeStage::Probing, MaximizeEvent::Responding { not_responding, .. }) => if not_responding {
            (MaximizeStage::Waiting, MaximizeAction::WaitAndCheckResponding)
        } else {
            (MaximizeStage::Measuring(0), MaximizeAction::Measure)
        },
        (MaximizeStage::Waiting, MaximizeEvent::Responding { not_responding, waited_secs }) => if !not_responding {
            (MaximizeStage::Refocusing, MaximizeAction::Focus)
        } else if waited_secs >= NOT_RESPONDING_LIMIT_SECS {
            spec_over(false)
        } else {
            (MaximizeStage::Waiting, MaximizeAction::WaitAndCheckResponding)
        },
        (MaximizeStage::Refocusing, MaximizeEvent::Focused(ok)) => if ok {
            (MaximizeStage::Measuring(0), MaximizeAction::Measure)
        } else {
            spec_over(false)
        },
        (MaximizeStage::Measuring(k), MaximizeEvent::Measured { screen, rect }) => if measured_maximized(screen, rect) {
            spec_over(true)
        } else if k == 0 {
            (MaximizeStage::Maximizing, MaximizeAction::CallMaximize)
        } else if k == 1 {
            (MaximizeStage::Pressing, MaximizeAction::PressWinUp)
        } else {
            spec_over(false)
        },
        (MaximizeStage::Maximizing, MaximizeEvent::Maximized(ok)) => if ok {
            (MaximizeStage::Measuring(1), MaximizeAction::Measure)
        } else {
            spec_over(false)
        },
        (MaximizeStage::Pressing, MaximizeEvent::Pressed) => (MaximizeStage::Measuring(2), MaximizeAction::Measure),
        _ => (st, MaximizeAction::Finish(false)),
    }
}

/// The maximize of CapCut's window, step by step.
#[derive(Clone, Copy, Debug, PartialEq, Eq, Structural)]
pub struct MaximizeFlow {
    pub stage: MaximizeStage,
}

impl MaximizeFlow {
    /// Begins by focusing CapCut.
    pub fn start() -> (r: (MaximizeFlow, MaximizeAction))
        ensures
            r.0.stage == MaximizeStage::Focusing,
            r.1 == MaximizeAction::Focus,
    {
        (MaximizeFlow { stage: MaximizeStage::Focusing }, MaximizeAction::Focus)
    }

    /// Whether the flow waits for this kind of report.
    pub fn accepts(&self, e: &MaximizeEvent) -> (r: bool)
        ensures
            r == maximize_accepts(self.stage, *e),
    {
        match self.stage {
            MaximizeStage::Focusing | MaximizeStage::Refocusing => match e {
                MaximizeEvent::Focused(_) => true,
                _ => false,
            },
            MaximizeStage::Probing | MaximizeStage::Waiting => match e {
                MaximizeEvent::Responding { .. } => true,
                _ => false,
            },
            MaximizeStage::Measuring(k) => match e {
                MaximizeEvent::Measured { .. } => k <= 2,
                _ => false,
            },
            MaximizeStage::Maximizing => match e {
                MaximizeEvent::Maximized(_) => true,
                _ => false,
            },
            MaximizeStage::Pressing => match e {
                MaximizeEvent::Pressed => true,
                _ => false,
            },
            MaximizeStage::Over(_) => false,
        }
    }

    /// Takes the report of the last outside work and gives the next.
    pub fn next(&mut self, e: MaximizeEvent) -> (a: MaximizeAction)
        requires
            maximize_accepts(old(self).stage, e),
        ensures
            (final(self).stage, a) == spec_maximize_next(old(self).stage, e),
    {
        let (stage, action) = match (self.stage, e) {
            (MaximizeStage::Focusing, MaximizeEvent::Focused(ok)) => if ok {
                (MaximizeStage::Probing, MaximizeAction::CheckResponding)
            } else {
                (MaximizeStage::Over(false), MaximizeAction::Finish(false))
            },
            (MaximizeStage::Probing, MaximizeEvent::Responding { not_responding, .. }) => if not_responding {
                (MaximizeStage::Waiting, MaximizeAction::WaitAndCheckResponding)
            } else {
                (MaximizeStage::Measuring(0), MaximizeAction::Measure)
            },
            (MaximizeStage::Waiting, MaximizeEvent::Responding { not_responding, waited_secs }) => if !not_responding {
                (MaximizeStage::Refocusing, MaximizeAction::Focus)
            } else if waited_secs >= NOT_RESPONDING_LIMIT_SECS {
                (MaximizeStage::Over(false), MaximizeAction::Finish(false))
            } else {
                (MaximizeStage::Waiting, MaximizeAction::WaitAndCheckResponding)
            },
            (MaximizeStage::Refocusing, MaximizeEvent::Focused(ok)) => if ok {
                (MaximizeStage::Measuring(0), MaximizeAction::Measure)
            } else {
                (MaximizeStage::Over(false), MaximizeAction::Finish(false))
            },
            (MaximizeStage::Measuring(k), MaximizeEvent::Measured { screen, rect }) => {
                let maximized = match (screen, rect) {
                    (Some(sc), Some(r)) => is_window_maximized(sc, r),
                    _ => false,
                };
                if maximized {
                    (MaximizeStage::Over(true), MaximizeAction::Finish(true))
                } else if k == 0 {
                    (MaximizeStage::Maximizing, MaximizeAction::CallMaximize)
                } else if k == 1 {
                    (MaximizeStage::Pressing, MaximizeAction::PressWinUp)
                } else {
                    (MaximizeStage::Over(false), MaximizeAction::Finish(false))
                }
            },
            (MaximizeStage::Maximizing, MaximizeEvent::Maximized(ok)) => if ok {
                (MaximizeStage::Measuring(1), MaximizeAction::Measure)
            } else {
                (MaximizeStage::Over(false), MaximizeAction::Finish(false))
            },
            (MaximizeStage::Pressing, MaximizeEvent::Pressed) => (MaximizeStage::Measuring(2), MaximizeAction::Measure),
            _ => (self.stage, MaximizeAction::Finish(false)),
        };
        self.stage = stage;
        action
    }
}

/// Law (a maximize is verified): the flow reports success only on a measurement that
/// shows the window filling the screen.
pub proof fn law_maximize_verified(st: MaximizeStage, e: MaximizeEvent)
    requires
        maximize_accepts(st, e),
    ensures
        spec_maximize_next(st, e).1 == MaximizeAction::Finish(true) ==> (e matches MaximizeEvent::Measured { screen, rect }
            && measured_maximized(screen, rect)),
{
}

/// Law (the maximize always ends): the window API is called at most once and Win+Up
/// pressed at most once, and the flow gives up on a window that stays "Not Responding"
/// for a minute.
pub proof fn law_maximize_bounded(st: MaximizeStage, e: MaximizeEvent)
    requires
        maximize_accepts(st, e),
    ensures
        spec_maximize_next(st, e).1 == MaximizeAction::CallMaximize ==> st == MaximizeStage::Measuring(0),
        spec_maximize_next(st, e).1 == MaximizeAction::PressWinUp ==> st == MaximizeStage::Measuring(1),
        st == MaximizeStage::Waiting ==> (e matches MaximizeEvent::Responding { not_responding, waited_secs }
            ==> (not_responding && waited_secs >= NOT_RESPONDING_LIMIT_SECS ==> spec_maximize_next(st, e) == spec_over(
            false))),
{
}

/// Whether the foreground window is CapCut's editor and not this tool: its title
/// contains "CapCut" and not "Auto".
pub open spec fn spec_foreground_is_capcut(title: Seq<char>) -> bool {
    has_substring(title, "CapCut"@) && !has_substring(title, "Auto"@)
}

/// Whether the foreground window is CapCut's, so that Ctrl+E reaches it.
pub fn foreground_is_capcut(title: &str) -> (r: bool)
    ensures
        r == spec_foreground_is_capcut(title@),
{
    text_contains(title, "CapCut") && !text_contains(title, "Auto")
}

/// The render timeout in seconds.
pub fn render_timeout_secs(minutes: u64) -> (r: u64)
    requires
        minutes * 60 <= u64::MAX,
    ensures
        r == minutes * 60,
{
    minutes * 60
}

/// How a project is opened from the search results.
#[derive(Clone, Copy, Debug, PartialEq, Eq, Structural)]
pub enum OpenGesture {
    /// Double-click the first result.
    DoubleClick,
    /// Click the first result, press Right `arrows` times, then Enter.
    Navigate { arrows: usize },
}

/// The first result is double-clicked; a project further along is reached with the
/// arrow keys.
pub open spec fn spec_open_gesture(offset: usize) -> OpenGesture {
    if offset == 0 {
        OpenGesture::DoubleClick
    } else {
        OpenGesture::Navigate { arrows: offset }
    }
}

/// How to open the project `offset` results along.
pub fn open_gesture(offset: usize) -> (r: OpenGesture)
    ensures
        r == spec_open_gesture(offset),
{
    if offset == 0 {
        OpenGesture::DoubleClick
    } else {
        OpenGesture::Navigate { arrows: offset }
    }
}

/// How long CapCut may stay "Not Responding" after a project opened before the
/// missing-media dialog is dismissed anyway.
pub const OPEN_SETTLE_LIMIT_SECS: u64 = 30;

/// How long the second try at opening a project is watched.
pub const OPEN_RETRY_LIMIT_SECS: u64 = 10;

/// Where opening a project stands.
#[derive(Clone, Copy, Debug, PartialEq, Eq, Structural)]
pub enum OpenStage {
    /// Watching the windows after the first (false) or second (true) try.
    Watching(bool),
    /// Waiting for CapCut to respond after the project opened.
    Settling,
    /// Dismissing the missing-media dialog and maximizing the editor.
    Finishing,
    /// Over, with the step's outcome.
    Over(StepResult),
}

/// What the outside work reports back.
#[derive(Clone, Copy, Debug, PartialEq, Eq, Structural)]
pub enum OpenEvent {
    /// CapCut's window count, the seconds since the try began, and whether a stop was requested.
    Observed { windows: u32, elapsed_secs: u64, stop: bool },
    /// Whether CapCut is "Not Responding", the seconds waited, and whether a stop was requested.
    Responding { not_responding: bool, waited_secs: u64, stop: bool },
    /// The dialog was dismissed and the editor maximized.
    Done,
}

/// The outside work to do next.
#[derive(Clone, Copy, Debug, PartialEq, Eq, Structural)]
pub enum OpenAction {
    /// Wait half a second, then count CapCut's windows (then report `Observed`).
    WaitAndObserve,
    /// Focus CapCut, wait a second, open the project again this way, and count the
    /// windows (then report `Observed`).
    Retry(OpenGesture),
    /// Wait three seconds, then ask whether CapCut responds (then report `Responding`).
    SettleAndCheck,
    /// Wait a second, then ask again (then report `Responding`).
    WaitAndCheck,
    /// Press Esc three times and maximize the editor (then report `Done`).
    DismissAndMaximize,
    /// Done, with the step's outcome.
    Finish(StepResult),
}

/// Opening a project, after the first try was made with `gesture` and `windows_before`
/// CapCut windows were counted before it.
#[derive(Clone, Copy, Debug, PartialEq, Eq, Structural)]
pub struct OpenFlow {
    pub gesture: OpenGesture,
    pub windows_before: u32,
    /// How long the first try is watched (the configured render delay).
    pub first_limit_secs: u64,
    pub stage: OpenStage,
}

/// Whether the flow waits for this kind of report.
pub open spec fn open_accepts(f: OpenFlow, e: OpenEvent) -> bool {
    match f.stage {
        OpenStage::Watching(_) => e is Observed,
        OpenStage::Settling => e is Responding,
        OpenStage::Finishing => e is Done,
        OpenStage::Over(_) => false,
    }
}

pub open spec fn open_over(f: OpenFlow, r: StepResult) -> (OpenFlow, OpenAction) {
    (OpenFlow { stage: OpenStage::Over(r), ..f }, OpenAction::Finish(r))
}

/// A new CapCut window means the project opened; otherwise the try times out after
/// its limit, and a stop ends the step. A first try that times out is tried once more;
/// a second that does skips the project. An opened project is given up to half a
/// minute to respond, then its dialog is dismissed and the editor maximized.
pub open spec fn spec_open_next(f: OpenFlow, e: OpenEvent) -> (OpenFlow, OpenAction) {
    match (f.stage, e) {
        (OpenStage::Watching(retried), OpenEvent::Observed { windows, elapsed_secs, stop }) => {
            let limit = if retried { OPEN_RETRY_LIMIT_SECS } else { f.first_limit_secs };
            if windows > f.windows_before {
                (OpenFlow { stage: OpenStage::Settling, ..f }, OpenAction::SettleAndCheck)
            } else if elapsed_secs >= limit {
                if retried {
                    open_over(f, StepResult::SkipProject)
                } else {
                    (OpenFlow { stage: OpenStage::Watching(true), ..f }, OpenAction::Retry(f.gesture))
                }
            } else if stop {
                open_over(f, StepResult::StopAll)
            } else {
                (f, OpenAction::WaitAndObserve)
            }
        },
        (OpenStage::Settling, OpenEvent::Responding { not_responding, waited_secs, stop }) => {
            if !not_responding || waited_secs >= OPEN_SETTLE_LIMIT_SECS {
                (OpenFlow { stage: OpenStage::Finishing, ..f }, OpenAction::DismissAndMaximize)
            } else if stop {
                open_over(f, StepResult::StopAll)
            } else {
                (f, OpenAction::WaitAndCheck)
            }
        },
        (OpenStage::Finishing, OpenEvent::Done) => open_over(f, StepResult::Continue),
        _ => (f, OpenAction::Finish(StepResult::SkipProject)),
    }
}

impl OpenFlow {
    /// Starts watching the first try.
    pub fn start(gesture: OpenGesture, windows_before: u32, first_limit_secs: u64) -> (r: OpenFlow)
        ensures
            r == (OpenFlow { gesture, windows_before, first_limit_secs, stage: OpenStage::Watching(false) }),
    {
        OpenFlow { gesture, windows_before, first_limit_secs, stage: OpenStage::Watching(false) }
    }

    /// Whether the flow waits for this kind of report.
    pub fn accepts(&self, e: &OpenEvent) -> (r: bool)
        ensures
            r == open_accepts(*self, *e),
    {
        match self.stage {
            OpenStage::Watching(_) => match e {
                OpenEvent::Observed { .. } => true,
                _ => false,
            },
            OpenStage::Settling => match e {
                OpenEvent::Responding { .. } => true,
                _ => false,
            },
            OpenStage::Finishing => match e {
                OpenEvent::Done => true,
                _ => false,
            },
            OpenStage::Over(_) => false,
        }
    }

    /// Takes the report of the last outside work and gives the next.
    pub fn next(&mut self, e: OpenEvent) -> (a: OpenAction)
        requires
            open_accepts(*old(self), e),
        ensures
            (*final(self), a) == spec_open_next(*old(self), e),
    {
        match (self.stage, e) {
            (OpenStage::Watching(retried), OpenEvent::Observed { windows, elapsed_secs, stop }) => {
                let limit = if retried { OPEN_RETRY_LIMIT_SECS } else { self.first_limit_secs };
                if windows > self.windows_before {
                    self.stage = OpenStage::Settling;
                    OpenAction::SettleAndCheck
                } else if elapsed_secs >= limit {
                    if retried {
                        self.stage = OpenStage::Over(StepResult::SkipProject);
                        OpenAction::Finish(StepResult::SkipProject)
                    } else {
                        self.stage = OpenStage::Watching(true);
                        OpenAction::Retry(self.gesture)
                    }
                } else if stop {
                    self.stage = OpenStage::Over(StepResult::StopAll);
                    OpenAction::Finish(StepResult::StopAll)
                } else {
                    OpenAction::WaitAndObserve
                }
            },
            (OpenStage::Settling, OpenEvent::Responding { not_responding, waited_secs, stop }) => {
                if !not_responding || waited_secs >= OPEN_SETTLE_LIMIT_SECS {
                    self.stage = OpenStage::Finishing;
                    OpenAction::DismissAndMaximize
                } else if stop {
                    self.stage = OpenStage::Over(StepResult::StopAll);
                    OpenAction::Finish(StepResult::StopAll)
                } else {
                    OpenAction::WaitAndCheck
                }
            },
            (OpenStage::Finishing, OpenEvent::Done) => {
                self.stage = OpenStage::Over(StepResult::Continue);
                OpenAction::Finish(StepResult::Continue)
            },
            _ => OpenAction::Finish(StepResult::SkipProject),
        }
    }
}

/// Law (a project counts as opened only on a new window, and is tried twice at most):
/// the flow goes on past the watch only when CapCut shows more windows than before
/// the first try; it retries only after the first try, with the same gesture; and it
/// skips the project only when the second try timed out.
pub proof fn law_open_verified(f: OpenFlow, e: OpenEvent)
    requires
        open_accepts(f, e),
    ensures
        (f.stage is Watching && spec_open_next(f, e).0.stage == OpenStage::Settling) ==> (e matches OpenEvent::Observed {
            windows,
            ..
        } && windows > f.windows_before),
        spec_open_next(f, e).1 is Retry ==> (f.stage == OpenStage::Watching(false) && spec_open_next(f, e).1
            == OpenAction::Retry(f.gesture)),
        spec_open_next(f, e).1 == OpenAction::Finish(StepResult::SkipProject) ==> f.stage == OpenStage::Watching(true),
{
}

/// How long closing a project is watched before CapCut is killed and relaunched.
pub const CLOSE_LIMIT_SECS: u64 = 10;

/// What one look at CapCut's windows after closing a project shows.
#[derive(Clone, Copy, Debug, PartialEq, Eq, Structural)]
pub enum ClosePoll {
    /// A window went away: CapCut is back at its home screen.
    BackHome,
    /// The close took too long.
    TimedOut,
    /// A stop was requested.
    Stopped,
    /// Look again in half a second.
    Wait,
}

/// Fewer windows than before the close mean CapCut is home; then the time limit, then
/// a stop request, is checked.
pub open spec fn spec_close_poll(windows: u32, windows_before: u32, elapsed_secs: u64, stop: bool) -> ClosePoll {
    if windows < windows_before {
        ClosePoll::BackHome
    } else if elapsed_secs >= CLOSE_LIMIT_SECS {
        ClosePoll::TimedOut
    } else if stop {
        ClosePoll::Stopped
    } else {
        ClosePoll::Wait
    }
}

/// Judges one look at CapCut's windows while a project closes.
pub fn close_poll(windows: u32, windows_before: u32, elapsed_secs: u64, stop: bool) -> (r: ClosePoll)
    ensures
        r == spec_close_poll(windows, windows_before, elapsed_secs, stop),
{
    if windows < windows_before {
        ClosePoll::BackHome
    } else if elapsed_secs >= CLOSE_LIMIT_SECS {
        ClosePoll::TimedOut
    } else if stop {
        ClosePoll::Stopped
    } else {
        ClosePoll::Wait
    }
}

} // verus!
