//! The settings stored on disk between sessions.

use vstd::prelude::*;

verus! {

/// All settings. Positions are absolute screen pixels; `[0, 0]` means not calibrated.
#[derive(Debug)]
pub struct AppConfig {
    pub project_folder: String,
    pub export_folder: String,
    /// The first project on CapCut's home screen.
    pub first_project_coords: [i32; 2],
    /// The export path button in the export dialog.
    pub export_box_coords: [i32; 2],
    /// The search box on CapCut's home screen (`[0, 0]` = not used).
    pub search_button_coords: [i32; 2],
    /// Seconds to wait for CapCut to load.
    pub render_delay: u64,
    /// Minutes allowed per project.
    pub render_timeout: u64,
    /// Shut the machine down after the batch.
    pub shutdown: bool,
    /// Retries per failed project.
    pub max_retries: u32,
    /// The first-run wizard was completed.
    pub wizard_completed: bool,
    pub sync_video_audio: bool,
    pub sync_image_duration: bool,
    pub sync_subtitles: bool,
    pub notify_on_done: bool,
    pub notify_per_project: bool,
    pub notify_sound: bool,
}

/// The retries per project stored when the settings file names none.
pub fn default_max_retries() -> (r: u32)
    ensures
        r == 2,
{
    2
}

/// Whether to notify at the end of a batch when the settings file does not say.
pub fn default_notify_on_done() -> (r: bool)
    ensures
        r,
{
    true
}

/// Whether to play a sound when the settings file does not say.
pub fn default_notify_sound() -> (r: bool)
    ensures
        r,
{
    true
}

impl Default for AppConfig {
    /// Every field empty, zero or false (the defaults of missing fields in a stored
    /// file are the functions above, not these).
    fn default() -> (r: Self)
        ensures
            r.project_folder@ == Seq::<char>::empty(),
            r.export_folder@ == Seq::<char>::empty(),
            r.first_project_coords == [0i32, 0i32],
            r.export_box_coords == [0i32, 0i32],
            r.search_button_coords == [0i32, 0i32],
            r.render_delay == 0,
            r.render_timeout == 0,
            !r.shutdown,
            r.max_retries == 0,
            !r.wizard_completed,
            !r.sync_video_audio,
            !r.sync_image_duration,
            !r.sync_subtitles,
            !r.notify_on_done,
            !r.notify_per_project,
            !r.notify_sound,
    {
        AppConfig {
            project_folder: String::new(),
            export_folder: String::new(),
            first_project_coords: [0, 0],
            export_box_coords: [0, 0],
            search_button_coords: [0, 0],
            render_delay: 0,
            render_timeout: 0,
            shutdown: false,
            max_retries: 0,
            wizard_completed: false,
            sync_video_audio: false,
            sync_image_duration: false,
            sync_subtitles: false,
            notify_on_done: false,
            notify_per_project: false,
            notify_sound: false,
        }
    }
}

} // verus!
