//! The batch render automation: its state, its configuration, and the decisions
//! of the render loop.

pub mod logger;
pub mod runner;
pub mod steps;
pub mod window;
pub mod helpers;
pub mod scanner;
pub mod waits;

use vstd::prelude::*;

verus! {

/// Where the automation stands.
#[derive(Clone, Copy, Debug, PartialEq, Eq, Structural)]
pub enum AutomationStatus {
    Idle,
    Running,
    Stopping,
    Stopped,
}

/// The automation state: the status, the stop request that every wait checks, and
/// whether a screen position is being picked.
pub struct AutomationState {
    pub status: AutomationStatus,
    pub should_stop: bool,
    pub is_picking: bool,
}

/// A key pressed while a position may be picked.
#[derive(Clone, Copy, Debug, PartialEq, Eq, Structural)]
pub enum InputKey {
    Space,
    Return,
    Escape,
    Other,
}

/// What a key press while picking asks for.
#[derive(Clone, Copy, Debug, PartialEq, Eq, Structural)]
pub enum PickAction {
    /// Nothing.
    Ignore,
    /// Report the mouse position as the picked coordinate.
    ReportPosition,
    /// Report that picking was cancelled.
    ReportCancel,
}

impl AutomationState {
    /// Idle, with no stop request and no picking.
    pub fn new() -> (r: Self)
        ensures
            r.status == AutomationStatus::Idle,
            !r.should_stop,
            !r.is_picking,
    {
        AutomationState { status: AutomationStatus::Idle, should_stop: false, is_picking: false }
    }

    /// Starts a batch: refused while one is running; otherwise the status becomes
    /// running and any earlier stop request is dropped.
    pub fn start_automation(&mut self) -> (r: Result<(), String>)
        ensures
            old(self).status == AutomationStatus::Running ==> (r matches Err(e) && e@ == "Automation đang chạy"@
                && final(self).status == old(self).status && final(self).should_stop == old(self).should_stop
                && final(self).is_picking == old(self).is_picking),
            old(self).status != AutomationStatus::Running ==> (r is Ok && final(self).status == AutomationStatus::Running
                && !final(self).should_stop && final(self).is_picking == old(self).is_picking),
    {
        if self.status == AutomationStatus::Running {
            return Err(String::from_str("Automation đang chạy"));
        }
        self.status = AutomationStatus::Running;
        self.should_stop = false;
        Ok(())
    }

    /// Asks the running batch to stop.
    pub fn stop_automation(&mut self)
        ensures
            final(self).should_stop,
            final(self).status == AutomationStatus::Stopping,
            final(self).is_picking == old(self).is_picking,
    {
        self.should_stop = true;
        self.status = AutomationStatus::Stopping;
    }

    /// Records that the batch loop has ended.
    pub fn finish_automation(&mut self)
        ensures
            final(self).status == AutomationStatus::Stopped,
            final(self).should_stop == old(self).should_stop,
            final(self).is_picking == old(self).is_picking,
    {
        self.status = AutomationStatus::Stopped;
    }

    /// Starts picking a screen position.
    pub fn start_picking_coords(&mut self)
        ensures
            final(self).is_picking,
            final(self).status == old(self).status,
            final(self).should_stop == old(self).should_stop,
    {
        self.is_picking = true;
    }

    /// Stops picking a screen position.
    pub fn cancel_picking_coords(&mut self)
        ensures
            !final(self).is_picking,
            final(self).status == old(self).status,
            final(self).should_stop == old(self).should_stop,
    {
        self.is_picking = false;
    }

    /// A key press: while picking, Space or Return reports the position and Escape
    /// cancels, both ending the picking; other keys, and any key when not picking,
    /// change nothing.
    pub fn handle_input_key(&mut self, key: InputKey) -> (r: PickAction)
        ensures
            final(self).status == old(self).status,
            final(self).should_stop == old(self).should_stop,
            !old(self).is_picking ==> r == PickAction::Ignore && final(self).is_picking == old(self).is_picking,
            old(self).is_picking ==> match key {
                InputKey::Space | InputKey::Return => r == PickAction::ReportPosition && !final(self).is_picking,
                InputKey::Escape => r == PickAction::ReportCancel && !final(self).is_picking,
                InputKey::Other => r == PickAction::Ignore && final(self).is_picking,
            },
    {
        if !self.is_picking {
            return PickAction::Ignore;
        }
        match key {
            InputKey::Space | InputKey::Return => {
                self.is_picking = false;
                PickAction::ReportPosition
            },
            InputKey::Escape => {
                self.is_picking = false;
                PickAction::ReportCancel
            },
            InputKey::Other => PickAction::Ignore,
        }
    }
}

/// The batch configuration sent by the front end when a batch starts.
#[derive(Debug)]
pub struct AutoConfig {
    pub project_path: String,
    pub export_path: String,
    pub project_names: Vec<String>,
    pub first_project_coords: (i32, i32),
    pub export_input_coords: (i32, i32),
    pub search_button_coords: (i32, i32),
    /// Seconds to wait for CapCut to load.
    pub render_delay: u64,
    pub render_timeout_minutes: u64,
    pub shutdown: bool,
    /// Retries per project (0 = none).
    pub max_retries: u32,
    pub notify_on_done: bool,
    pub notify_per_project: bool,
}

/// The retries per project when the configuration names none.
pub fn default_max_retries() -> (r: u32)
    ensures
        r == 2,
{
    2
}

/// Whether to notify at the end of a batch when the configuration does not say.
pub fn default_notify_on_done() -> (r: bool)
    ensures
        r,
{
    true
}

} // verus!
