//! The decisions of the batch render loop: retrying a project, counting results,
//! and reporting progress with an estimate of the time left.

use vstd::prelude::*;
use super::steps::StepResult;

verus! {

/// The estimated seconds left: the average time of a finished project times the
/// projects left, or `None` before any project finished.
pub open spec fn spec_eta(elapsed_secs: u64, done: u32, total: u32) -> Option<u64> {
    if done == 0 {
        None
    } else {
        Some(((elapsed_secs / (done as u64)) * ((total - done) as u64)) as u64)
    }
}

/// Estimates the seconds left in a batch.
pub fn compute_eta(elapsed_secs: u64, done: u32, total: u32) -> (r: Option<u64>)
    requires
        done <= total,
        done > 0 ==> (elapsed_secs / (done as u64)) * ((total - done) as u64) <= u64::MAX,
    ensures
        r == spec_eta(elapsed_secs, done, total),
{
    if done == 0 {
        return None;
    }
    let avg = elapsed_secs / (done as u64);
    let remaining = (total - done) as u64;
    Some(avg * remaining)
}

/// The progress report sent to the front end.
pub struct ProgressPayload {
    pub done: u32,
    pub total: u32,
    pub success: u32,
    pub failed: u32,
    /// The project being rendered; empty between projects.
    pub current: String,
    pub elapsed_secs: u64,
    pub eta_secs: Option<u64>,
}

/// The progress with `done` projects finished, estimating the time left from them.
pub fn progress_report(done: u32, total: u32, success: u32, failed: u32, current: String, elapsed_secs: u64) -> (r: ProgressPayload)
    requires
        done <= total,
        done > 0 ==> (elapsed_secs / (done as u64)) * ((total - done) as u64) <= u64::MAX,
    ensures
        r.done == done && r.total == total && r.success == success && r.failed == failed,
        r.current@ == current@,
        r.elapsed_secs == elapsed_secs,
        r.eta_secs == spec_eta(elapsed_secs, done, total),
{
    let eta_secs = compute_eta(elapsed_secs, done, total);
    ProgressPayload { done, total, success, failed, current, elapsed_secs, eta_secs }
}

/// The progress when the batch has ended: all projects counted as done, nothing left.
pub fn final_progress(total: u32, success: u32, failed: u32, elapsed_secs: u64) -> (r: ProgressPayload)
    ensures
        r.done == total && r.total == total && r.success == success && r.failed == failed,
        r.current@ == Seq::<char>::empty(),
        r.elapsed_secs == elapsed_secs,
        r.eta_secs == Some(0u64),
{
    ProgressPayload { done: total, total, success, failed, current: String::new(), elapsed_secs, eta_secs: Some(0) }
}

/// Where an attempt at a project goes next.
#[derive(Clone, Copy, Debug, PartialEq, Eq, Structural)]
pub enum AttemptVerdict {
    /// Go on with this attempt.
    Continue,
    /// The project is rendered.
    Succeeded,
    /// Recover CapCut and try the project again.
    Retry,
    /// The project has failed.
    Failed,
    /// Stop the whole batch.
    Abort,
}

/// After opening the project or the export dialog in attempt `attempt` (counted
/// from 1): a stop aborts the batch; a skipped step is retried while retries remain
/// (`attempt <= max_retries`), else the project fails.
pub open spec fn spec_after_step(step: StepResult, attempt: u32, max_retries: u32) -> AttemptVerdict {
    match step {
        StepResult::StopAll => AttemptVerdict::Abort,
        StepResult::SkipProject => if attempt <= max_retries { AttemptVerdict::Retry } else { AttemptVerdict::Failed },
        StepResult::Continue => AttemptVerdict::Continue,
    }
}

/// Decides after a step of an attempt.
pub fn after_step(step: &StepResult, attempt: u32, max_retries: u32) -> (r: AttemptVerdict)
    ensures
        r == spec_after_step(*step, attempt, max_retries),
        r == AttemptVerdict::Retry ==> attempt + 1 <= max_retries + 1,
{
    match step {
        StepResult::StopAll => AttemptVerdict::Abort,
        StepResult::SkipProject => if attempt <= max_retries {
            AttemptVerdict::Retry
        } else {
            AttemptVerdict::Failed
        },
        StepResult::Continue => AttemptVerdict::Continue,
    }
}

/// After waiting for the render of attempt `attempt`: a stop aborts the batch; a
/// finished render succeeds; otherwise the project is retried while retries remain,
/// else it fails.
pub open spec fn spec_after_render(stop_requested: bool, rendered: bool, attempt: u32, max_retries: u32) -> AttemptVerdict {
    if stop_requested {
        AttemptVerdict::Abort
    } else if rendered {
        AttemptVerdict::Succeeded
    } else if attempt <= max_retries {
        AttemptVerdict::Retry
    } else {
        AttemptVerdict::Failed
    }
}

/// Decides after the render wait of an attempt.
pub fn after_render(stop_requested: bool, rendered: bool, attempt: u32, max_retries: u32) -> (r: AttemptVerdict)
    ensures
        r == spec_after_render(stop_requested, rendered, attempt, max_retries),
        r == AttemptVerdict::Retry ==> attempt + 1 <= max_retries + 1,
{
    if stop_requested {
        AttemptVerdict::Abort
    } else if rendered {
        AttemptVerdict::Succeeded
    } else if attempt <= max_retries {
        AttemptVerdict::Retry
    } else {
        AttemptVerdict::Failed
    }
}

/// Where a batch stands between two pieces of outside work.
#[derive(Clone, Copy, Debug, PartialEq, Eq, Structural)]
pub enum BatchPhase {
    /// Waiting for CapCut to be set up.
    Setup,
    /// A project has been announced; its first attempt comes next.
    Starting,
    /// Waiting for CapCut to be recovered before a retry.
    Recovering,
    /// Waiting for the project to be opened.
    Opening,
    /// Waiting for the export to be started.
    Exporting,
    /// Waiting for the render to finish.
    Rendering,
    /// A project has been counted; its result is being reported.
    AfterProject,
    /// Waiting for CapCut to go back to its home screen.
    CleaningUp,
    /// The batch has ended with its summary.
    Finished,
    /// The batch was abandoned without a summary.
    Halted,
}

/// What the outside work reports back.
#[derive(Clone, Copy, Debug, PartialEq, Eq, Structural)]
pub enum BatchEvent {
    /// The action was carried out and has nothing to report.
    Done,
    /// The outcome of the setup, open-project, export or clean-up step.
    Step(StepResult),
    /// Whether CapCut could be recovered.
    Recovered(bool),
    /// Whether the render finished in time.
    Rendered(bool),
}

/// The outside work to do next.
#[derive(Clone, Copy, Debug, PartialEq, Eq, Structural)]
pub enum BatchAction {
    /// Kill, launch and maximize CapCut (then report `Step`).
    Setup,
    /// Announce project `idx` with the progress so far (then report `Done`).
    BeginProject { idx: u32, success: u32, failed: u32 },
    /// Announce retry `retry` and recover CapCut (then report `Recovered`).
    Recover { idx: u32, retry: u32 },
    /// Snapshot the export folder and open project `idx` for attempt `attempt` (then report `Step`).
    OpenProject { idx: u32, attempt: u32 },
    /// Start the export of project `idx` (then report `Step`).
    Export { idx: u32 },
    /// Wait for the render of project `idx` (then report `Rendered`).
    WaitRender { idx: u32 },
    /// Report project `idx` as rendered or failed, with the new counts (then report `Done`).
    ProjectFinished { idx: u32, rendered: bool, success: u32, failed: u32 },
    /// Close the project and go back to the home screen (then report `Step`).
    Cleanup,
    /// End the batch: restore the window and report the summary.
    Finish { success: u32, failed: u32 },
    /// Abandon the batch without a summary, restoring the window or not.
    Halt { restore: bool },
    /// Nothing was chosen to render: report it and end, leaving CapCut alone.
    NothingToRender,
    /// The export folder failed its check: report it and end, leaving CapCut alone.
    BadExportPath,
}

/// The state of a batch render.
#[derive(Clone, Copy, Debug, PartialEq, Eq, Structural)]
pub struct BatchRun {
    /// The number of projects.
    pub total: u32,
    /// Retries allowed per project.
    pub max_retries: u32,
    pub phase: BatchPhase,
    /// The project being worked on (counted from 0).
    pub idx: u32,
    /// The attempt at it (counted from 1).
    pub attempt: u32,
    pub success: u32,
    pub failed: u32,
}

/// The projects counted so far.
pub open spec fn finished_count(s: BatchRun) -> int {
    if s.phase == BatchPhase::AfterProject || s.phase == BatchPhase::CleaningUp {
        s.idx + 1
    } else {
        s.idx as int
    }
}

/// A phase inside an attempt at a project.
pub open spec fn in_attempt(p: BatchPhase) -> bool {
    p == BatchPhase::Recovering || p == BatchPhase::Opening || p == BatchPhase::Exporting || p == BatchPhase::Rendering
}

/// A phase with a project under way.
pub open spec fn in_project(p: BatchPhase) -> bool {
    in_attempt(p) || p == BatchPhase::Starting || p == BatchPhase::AfterProject || p == BatchPhase::CleaningUp
}

/// The invariant of a batch: every counted project is rendered or failed, and
/// attempts stay within the retries allowed.
pub open spec fn batch_wf(s: BatchRun) -> bool {
    &&& s.max_retries < u32::MAX
    &&& s.idx <= s.total
    &&& s.success + s.failed == finished_count(s)
    &&& in_project(s.phase) ==> s.idx < s.total
    &&& in_attempt(s.phase) ==> 1 <= s.attempt <= s.max_retries + 1
    &&& s.phase == BatchPhase::Recovering ==> s.attempt > 1
    &&& s.phase == BatchPhase::Starting ==> s.attempt == 1
    &&& s.phase == BatchPhase::CleaningUp ==> s.idx + 1 < s.total
    &&& s.phase == BatchPhase::Setup ==> s.idx == 0 && s.total > 0
}

/// Whether the batch waits for this kind of report.
pub open spec fn batch_accepts(s: BatchRun, e: BatchEvent) -> bool {
    match s.phase {
        BatchPhase::Setup | BatchPhase::Opening | BatchPhase::Exporting | BatchPhase::CleaningUp => e is Step,
        BatchPhase::Starting | BatchPhase::AfterProject => e is Done,
        BatchPhase::Recovering => e is Recovered,
        BatchPhase::Rendering => e is Rendered,
        BatchPhase::Finished | BatchPhase::Halted => false,
    }
}

pub open spec fn spec_finish(s: BatchRun) -> (BatchRun, BatchAction) {
    (BatchRun { phase: BatchPhase::Finished, ..s }, BatchAction::Finish { success: s.success, failed: s.failed })
}

/// The top of the project loop: the batch ends when all projects are done or a stop
/// was requested; otherwise the next project is announced.
pub open spec fn spec_project_top(s: BatchRun, stop: bool) -> (BatchRun, BatchAction) {
    if s.idx >= s.total || stop {
        spec_finish(s)
    } else {
        (
            BatchRun { phase: BatchPhase::Starting, attempt: 1, ..s },
            BatchAction::BeginProject { idx: s.idx, success: s.success, failed: s.failed },
        )
    }
}

/// The top of an attempt: a stop ends the batch; a retry first recovers CapCut.
pub open spec fn spec_attempt_top(s: BatchRun, stop: bool) -> (BatchRun, BatchAction) {
    if stop {
        spec_finish(s)
    } else if s.attempt > 1 {
        (BatchRun { phase: BatchPhase::Recovering, ..s }, BatchAction::Recover { idx: s.idx, retry: (s.attempt - 1) as u32 })
    } else {
        (BatchRun { phase: BatchPhase::Opening, ..s }, BatchAction::OpenProject { idx: s.idx, attempt: s.attempt })
    }
}

/// Counts the project as rendered or failed.
pub open spec fn spec_project_done(s: BatchRun, rendered: bool) -> (BatchRun, BatchAction) {
    let success = if rendered { (s.success + 1) as u32 } else { s.success };
    let failed = if rendered { s.failed } else { (s.failed + 1) as u32 };
    (
        BatchRun { phase: BatchPhase::AfterProject, success, failed, ..s },
        BatchAction::ProjectFinished { idx: s.idx, rendered, success, failed },
    )
}

/// Goes on after the verdict on an attempt.
pub open spec fn spec_verdict(s: BatchRun, v: AttemptVerdict, stop: bool) -> (BatchRun, BatchAction) {
    match v {
        AttemptVerdict::Abort => spec_finish(s),
        AttemptVerdict::Succeeded => spec_project_done(s, true),
        AttemptVerdict::Failed => spec_project_done(s, false),
        AttemptVerdict::Retry => spec_attempt_top(BatchRun { attempt: (s.attempt + 1) as u32, ..s }, stop),
        AttemptVerdict::Continue => (s, BatchAction::Setup),
    }
}

/// The batch after a report, with `stop` telling whether a stop was requested, and
/// the next outside work.
pub open spec fn spec_batch_next(s: BatchRun, e: BatchEvent, stop: bool) -> (BatchRun, BatchAction) {
    match (s.phase, e) {
        (BatchPhase::Setup, BatchEvent::Step(r)) => if r == StepResult::Continue {
            spec_project_top(s, stop)
        } else {
            (BatchRun { phase: BatchPhase::Halted, ..s }, BatchAction::Halt { restore: false })
        },
        (BatchPhase::Starting, BatchEvent::Done) => spec_attempt_top(s, stop),
        (BatchPhase::Recovering, BatchEvent::Recovered(ok)) => if !ok || stop {
            spec_finish(s)
        } else {
            (BatchRun { phase: BatchPhase::Opening, ..s }, BatchAction::OpenProject { idx: s.idx, attempt: s.attempt })
        },
        (BatchPhase::Opening, BatchEvent::Step(r)) => {
            let v = spec_after_step(r, s.attempt, s.max_retries);
            if v == AttemptVerdict::Continue {
                (BatchRun { phase: BatchPhase::Exporting, ..s }, BatchAction::Export { idx: s.idx })
            } else {
                spec_verdict(s, v, stop)
            }
        },
        (BatchPhase::Exporting, BatchEvent::Step(r)) => {
            let v = spec_after_step(r, s.attempt, s.max_retries);
            if v == AttemptVerdict::Continue {
                if stop {
                    spec_finish(s)
                } else {
                    (BatchRun { phase: BatchPhase::Rendering, ..s }, BatchAction::WaitRender { idx: s.idx })
                }
            } else {
                spec_verdict(s, v, stop)
            }
        },
        (BatchPhase::Rendering, BatchEvent::Rendered(done)) => spec_verdict(
            s,
            spec_after_render(stop, done, s.attempt, s.max_retries),
            stop,
        ),
        (BatchPhase::AfterProject, BatchEvent::Done) => if s.idx + 1 < s.total {
            (BatchRun { phase: BatchPhase::CleaningUp, ..s }, BatchAction::Cleanup)
        } else {
            spec_project_top(BatchRun { idx: (s.idx + 1) as u32, ..s }, stop)
        },
        (BatchPhase::CleaningUp, BatchEvent::Step(r)) => if r == StepResult::StopAll {
            (BatchRun { phase: BatchPhase::Halted, idx: (s.idx + 1) as u32, ..s }, BatchAction::Halt { restore: true })
        } else {
            spec_project_top(BatchRun { idx: (s.idx + 1) as u32, phase: BatchPhase::Starting, ..s }, stop)
        },
        _ => (s, BatchAction::Halt { restore: false }),
    }
}

/// The start of a batch of `total` projects: nothing to do for an empty batch, nor
/// when the export folder failed its check; else CapCut is set up first.
pub open spec fn spec_batch_start(total: u32, max_retries: u32, export_path_ok: bool) -> (BatchRun, BatchAction) {
    let s = BatchRun { total, max_retries, phase: BatchPhase::Setup, idx: 0, attempt: 1, success: 0, failed: 0 };
    if total == 0 {
        (BatchRun { phase: BatchPhase::Halted, ..s }, BatchAction::NothingToRender)
    } else if !export_path_ok {
        (BatchRun { phase: BatchPhase::Halted, ..s }, BatchAction::BadExportPath)
    } else {
        (s, BatchAction::Setup)
    }
}

impl BatchRun {
    /// Starts a batch of `total` projects with `max_retries` retries each, given
    /// whether the export folder passed its check.
    pub fn start(total: u32, max_retries: u32, export_path_ok: bool) -> (r: (BatchRun, BatchAction))
        requires
            max_retries < u32::MAX,
        ensures
            r == spec_batch_start(total, max_retries, export_path_ok),
            batch_wf(r.0),
            (total == 0 || !export_path_ok) ==> r.1 != BatchAction::Setup && !batch_accepts(r.0, BatchEvent::Done),
    {
        let s = BatchRun { total, max_retries, phase: BatchPhase::Setup, idx: 0, attempt: 1, success: 0, failed: 0 };
        if total == 0 {
            (BatchRun { phase: BatchPhase::Halted, ..s }, BatchAction::NothingToRender)
        } else if !export_path_ok {
            (BatchRun { phase: BatchPhase::Halted, ..s }, BatchAction::BadExportPath)
        } else {
            (s, BatchAction::Setup)
        }
    }

    /// Whether the batch waits for this kind of report.
    pub fn accepts(&self, e: &BatchEvent) -> (r: bool)
        ensures
            r == batch_accepts(*self, *e),
    {
        match self.phase {
            BatchPhase::Setup | BatchPhase::Opening | BatchPhase::Exporting | BatchPhase::CleaningUp => match e {
                BatchEvent::Step(_) => true,
                _ => false,
            },
            BatchPhase::Starting | BatchPhase::AfterProject => match e {
                BatchEvent::Done => true,
                _ => false,
            },
            BatchPhase::Recovering => match e {
                BatchEvent::Recovered(_) => true,
                _ => false,
            },
            BatchPhase::Rendering => match e {
                BatchEvent::Rendered(_) => true,
                _ => false,
            },
            BatchPhase::Finished | BatchPhase::Halted => false,
        }
    }

    fn finish(&mut self) -> (a: BatchAction)
        ensures
            (*final(self), a) == spec_finish(*old(self)),
    {
        self.phase = BatchPhase::Finished;
        BatchAction::Finish { success: self.success, failed: self.failed }
    }

    fn project_top(&mut self, stop: bool) -> (a: BatchAction)
        ensures
            (*final(self), a) == spec_project_top(*old(self), stop),
    {
        if self.idx >= self.total || stop {
            self.finish()
        } else {
            self.phase = BatchPhase::Starting;
            self.attempt = 1;
            BatchAction::BeginProject { idx: self.idx, success: self.success, failed: self.failed }
        }
    }

    fn attempt_top(&mut self, stop: bool) -> (a: BatchAction)
        requires
            old(self).attempt >= 1,
        ensures
            (*final(self), a) == spec_attempt_top(*old(self), stop),
    {
        if stop {
            self.finish()
        } else if self.attempt > 1 {
            self.phase = BatchPhase::Recovering;
            BatchAction::Recover { idx: self.idx, retry: self.attempt - 1 }
        } else {
            self.phase = BatchPhase::Opening;
            BatchAction::OpenProject { idx: self.idx, attempt: self.attempt }
        }
    }

    fn project_done(&mut self, rendered: bool) -> (a: BatchAction)
        requires
            old(self).success + old(self).failed < u32::MAX,
        ensures
            (*final(self), a) == spec_project_done(*old(self), rendered),
    {
        if rendered {
            self.success = self.success + 1;
        } else {
            self.failed = self.failed + 1;
        }
        self.phase = BatchPhase::AfterProject;
        BatchAction::ProjectFinished { idx: self.idx, rendered, success: self.success, failed: self.failed }
    }

    fn verdict(&mut self, v: AttemptVerdict, stop: bool) -> (a: BatchAction)
        requires
            v != AttemptVerdict::Continue,
            old(self).success + old(self).failed < u32::MAX,
            1 <= old(self).attempt,
            v == AttemptVerdict::Retry ==> old(self).attempt < u32::MAX,
        ensures
            (*final(self), a) == spec_verdict(*old(self), v, stop),
    {
        match v {
            AttemptVerdict::Abort => self.finish(),
            AttemptVerdict::Succeeded => self.project_done(true),
            AttemptVerdict::Failed => self.project_done(false),
            AttemptVerdict::Retry => {
                self.attempt = self.attempt + 1;
                self.attempt_top(stop)
            },
            AttemptVerdict::Continue => BatchAction::Setup,
        }
    }

    /// Takes the report of the last outside work, with `stop` telling whether a stop
    /// was requested, and gives the next outside work.
    pub fn next(&mut self, e: BatchEvent, stop: bool) -> (a: BatchAction)
        requires
            batch_wf(*old(self)),
            batch_accepts(*old(self), e),
        ensures
            (*final(self), a) == spec_batch_next(*old(self), e, stop),
            batch_wf(*final(self)),
    {
        proof {
            law_batch_wf_preserved(*self, e, stop);
        }
        match (self.phase, e) {
            (BatchPhase::Setup, BatchEvent::Step(r)) => if r == StepResult::Continue {
                self.project_top(stop)
            } else {
                self.phase = BatchPhase::Halted;
                BatchAction::Halt { restore: false }
            },
            (BatchPhase::Starting, BatchEvent::Done) => self.attempt_top(stop),
            (BatchPhase::Recovering, BatchEvent::Recovered(ok)) => if !ok || stop {
                self.finish()
            } else {
                self.phase = BatchPhase::Opening;
                BatchAction::OpenProject { idx: self.idx, attempt: self.attempt }
            },
            (BatchPhase::Opening, BatchEvent::Step(r)) => {
                let v = after_step(&r, self.attempt, self.max_retries);
                if v == AttemptVerdict::Continue {
                    self.phase = BatchPhase::Exporting;
                    BatchAction::Export { idx: self.idx }
                } else {
                    self.verdict(v, stop)
                }
            },
            (BatchPhase::Exporting, BatchEvent::Step(r)) => {
                let v = after_step(&r, self.attempt, self.max_retries);
                if v == AttemptVerdict::Continue {
                    if stop {
                        self.finish()
                    } else {
                        self.phase = BatchPhase::Rendering;
                        BatchAction::WaitRender { idx: self.idx }
                    }
                } else {
                    self.verdict(v, stop)
                }
            },
            (BatchPhase::Rendering, BatchEvent::Rendered(done)) => {
                let v = after_render(stop, done, self.attempt, self.max_retries);
                self.verdict(v, stop)
            },
            (BatchPhase::AfterProject, BatchEvent::Done) => if self.idx + 1 < self.total {
                self.phase = BatchPhase::CleaningUp;
                BatchAction::Cleanup
            } else {
                self.idx = self.idx + 1;
                self.project_top(stop)
            },
            (BatchPhase::CleaningUp, BatchEvent::Step(r)) => if r == StepResult::StopAll {
                self.idx = self.idx + 1;
                self.phase = BatchPhase::Halted;
                BatchAction::Halt { restore: true }
            } else {
                self.idx = self.idx + 1;
                self.phase = BatchPhase::Starting;
                self.project_top(stop)
            },
            _ => BatchAction::Halt { restore: false },
        }
    }
}

/// Law (the batch invariant): every report the batch waits for keeps every counted
/// project rendered or failed, and attempts within the retries allowed.
pub proof fn law_batch_wf_preserved(s: BatchRun, e: BatchEvent, stop: bool)
    requires
        batch_wf(s),
        batch_accepts(s, e),
    ensures
        batch_wf(spec_batch_next(s, e, stop).0),
{
}

/// Law (retries are bounded): a project is opened at most `max_retries + 1` times,
/// and a retry is announced at most `max_retries` times.
pub proof fn law_attempts_bounded(s: BatchRun, e: BatchEvent, stop: bool)
    requires
        batch_wf(s),
        batch_accepts(s, e),
    ensures
        match spec_batch_next(s, e, stop).1 {
            BatchAction::OpenProject { attempt, .. } => 1 <= attempt <= s.max_retries + 1,
            BatchAction::Recover { retry, .. } => 1 <= retry <= s.max_retries,
            _ => true,
        },
{
}

/// Law (a stop request is honoured): once a stop is requested, no project is begun,
/// no attempt is begun or recovered for, and no render is waited for.
pub proof fn law_stop_starts_nothing(s: BatchRun, e: BatchEvent)
    requires
        batch_wf(s),
        batch_accepts(s, e),
    ensures
        !(spec_batch_next(s, e, true).1 is BeginProject),
        !(spec_batch_next(s, e, true).1 is Recover),
        !(spec_batch_next(s, e, true).1 is OpenProject),
        !(spec_batch_next(s, e, true).1 is WaitRender),
{
}

/// Law (every project is counted once): a finished project adds one to exactly one of
/// the counts, and the summary never counts more projects than the batch holds; a
/// batch that was not stopped counts every project in its summary.
pub proof fn law_projects_counted(s: BatchRun, e: BatchEvent, stop: bool)
    requires
        batch_wf(s),
        batch_accepts(s, e),
    ensures
        match spec_batch_next(s, e, stop).1 {
            BatchAction::ProjectFinished { rendered, success, failed, .. } => {
                &&& success + failed == s.success + s.failed + 1
                &&& rendered ==> success == s.success + 1
                &&& !rendered ==> failed == s.failed + 1
            },
            BatchAction::Finish { success, failed } => {
                &&& success + failed <= s.total
                &&& !stop && (s.phase == BatchPhase::AfterProject || s.phase == BatchPhase::CleaningUp)
                    ==> success + failed == s.total
            },
            _ => true,
        },
{
}

/// The steps left within the current project: an attempt counts four (recovery,
/// opening, export, render), and more attempts left count more.
pub open spec fn steps_in_project(s: BatchRun) -> int {
    let r = s.max_retries + 1;
    match s.phase {
        BatchPhase::Starting => 4 * r + 2,
        BatchPhase::Recovering => 4 * (r - s.attempt) + 6,
        BatchPhase::Opening => 4 * (r - s.attempt) + 5,
        BatchPhase::Exporting => 4 * (r - s.attempt) + 4,
        BatchPhase::Rendering => 4 * (r - s.attempt) + 3,
        BatchPhase::AfterProject => 1,
        _ => 0,
    }
}

/// A bound on the reports a batch still waits for.
pub open spec fn batch_measure(s: BatchRun) -> int {
    let block = 4 * (s.max_retries + 1) + 3;
    match s.phase {
        BatchPhase::Finished | BatchPhase::Halted => 0,
        BatchPhase::Setup => (s.total + 1) * block,
        _ => (s.total - s.idx) * block + steps_in_project(s),
    }
}

proof fn lemma_next_block(k: int, block: int, x: int, y: int)
    requires
        k >= 1,
        x < block + y,
    ensures
        (k - 1) * block + x < k * block + y,
{
    assert((k - 1) * block == k * block - block) by (nonlinear_arith);
}

proof fn lemma_block_positive(k: int, block: int)
    requires
        k >= 1,
        block >= 1,
    ensures
        k * block >= block,
{
    assert(k * block >= block) by (nonlinear_arith)
        requires
            k >= 1,
            block >= 1,
    ;
}

/// Law (every batch ends): each report the batch waits for brings it strictly closer
/// to its end, so it asks for outside work only finitely often.
pub proof fn law_batch_progress(s: BatchRun, e: BatchEvent, stop: bool)
    requires
        batch_wf(s),
        batch_accepts(s, e),
    ensures
        0 <= batch_measure(spec_batch_next(s, e, stop).0) < batch_measure(s),
{
    let block = 4 * (s.max_retries + 1) + 3;
    let n = spec_batch_next(s, e, stop).0;
    if s.phase != BatchPhase::Setup {
        lemma_block_positive(s.total - s.idx, block);
    } else {
        lemma_block_positive(s.total + 1, block);
        lemma_next_block(s.total + 1, block, 4 * (s.max_retries + 1) + 2, 0);
    }
    if n.phase != BatchPhase::Finished && n.phase != BatchPhase::Halted && n.phase != BatchPhase::Setup {
        lemma_block_positive(n.total - n.idx, block);
        if n.idx == s.idx + 1 {
            lemma_next_block(s.total - s.idx, block, steps_in_project(n), steps_in_project(s));
        }
    }
}

/// Law (a batch that cannot run leaves CapCut alone): with no project chosen, or an
/// export folder that failed its check, the batch ends at once; CapCut is neither
/// set up (killed and launched) nor is any project begun, and no report is awaited.
pub proof fn law_refused_batch_touches_nothing(total: u32, max_retries: u32, export_path_ok: bool, e: BatchEvent)
    requires
        total == 0 || !export_path_ok,
    ensures
        spec_batch_start(total, max_retries, export_path_ok).1 != BatchAction::Setup,
        spec_batch_start(total, max_retries, export_path_ok).0.phase == BatchPhase::Halted,
        !batch_accepts(spec_batch_start(total, max_retries, export_path_ok).0, e),
{
}

/// A project whose retries are used up is counted as failed and the batch goes on:
/// when opening it, starting its export or rendering it fails on the last allowed
/// attempt and no stop is requested, the next work is to report it failed, with
/// one more failure and the same successes.
pub proof fn law_exhausted_project_counts_as_failed(s: BatchRun, e: BatchEvent)
    requires
        batch_wf(s),
        batch_accepts(s, e),
        s.attempt > s.max_retries,
        (s.phase == BatchPhase::Opening || s.phase == BatchPhase::Exporting) && e == BatchEvent::Step(StepResult::SkipProject)
            || s.phase == BatchPhase::Rendering && e == BatchEvent::Rendered(false),
    ensures
        spec_batch_next(s, e, false).1 == (BatchAction::ProjectFinished {
            idx: s.idx,
            rendered: false,
            success: s.success,
            failed: (s.failed + 1) as u32,
        }),
        spec_batch_next(s, e, false).0.phase == BatchPhase::AfterProject,
{
}

/// A batch ends with its summary only once every project is counted, unless a stop
/// was requested, a step asked to stop everything, or CapCut could not be recovered:
/// a `Finish` reached otherwise has `success + failed == total`.
pub proof fn law_finish_counts_every_project(s: BatchRun, e: BatchEvent)
    requires
        batch_wf(s),
        batch_accepts(s, e),
        e != BatchEvent::Recovered(false),
        e != BatchEvent::Step(StepResult::StopAll),
    ensures
        spec_batch_next(s, e, false).1 matches BatchAction::Finish { success, failed } ==> success + failed == s.total,
{
}

} // verus!
