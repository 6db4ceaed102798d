use autocapcut::automation::waits::{
    close_wait, keep_sleeping, recovery_failure_text, CloseWait, RecoveryAction, RecoveryFailure, RecoveryFlow,
    WaitAction, WaitEvent, WindowWait,
};
use autocapcut::automation::helpers::{
    extension, file_ready, is_render_output, is_video_candidate, name_listed, poll_step, validate_export_path, PollStep,
};
use autocapcut::automation::logger::{format_clock, timestamp};
use autocapcut::automation::runner::{
    after_render, after_step, compute_eta, final_progress, progress_report, AttemptVerdict, BatchAction, BatchEvent,
    BatchPhase, BatchRun,
};
use autocapcut::automation::scanner::{scan_projects, FolderEntry};
use autocapcut::automation::steps::{
    close_poll, foreground_is_capcut, is_window_maximized, open_gesture, render_timeout_secs, search_offset,
    sets_export_path, title_bar_point, uses_search, ClosePoll, MaximizeAction, MaximizeEvent, MaximizeFlow, OpenAction,
    OpenEvent, OpenFlow, OpenGesture, StepResult,
};
use autocapcut::automation::window::{
    diagnostic_snapshot, extra_window_indices, get_window_rect_by_any_title, focus_capcut, get_capcut_extra_window, get_capcut_main_hwnd,
    get_capcut_title, get_capcut_window_count, get_capcut_window_rect, is_capcut_exe_path, is_capcut_not_responding,
    list_capcut_windows, main_window_index, WindowProbe,
};
use autocapcut::automation::{
    default_max_retries, default_notify_on_done, AutomationState, AutomationStatus, InputKey, PickAction,
};

fn names(v: &[&str]) -> Vec<String> {
    v.iter().map(|s| s.to_string()).collect()
}

#[test]
fn automation_state_runs_one_batch_at_a_time() {
    let mut st = AutomationState::new();
    assert_eq!(st.status, AutomationStatus::Idle);
    assert!(!st.should_stop && !st.is_picking);
    assert!(st.start_automation().is_ok());
    assert_eq!(st.status, AutomationStatus::Running);
    assert_eq!(st.start_automation().unwrap_err(), "Automation đang chạy");
    st.stop_automation();
    assert!(st.should_stop);
    assert_eq!(st.status, AutomationStatus::Stopping);
    st.finish_automation();
    assert_eq!(st.status, AutomationStatus::Stopped);
    assert!(st.start_automation().is_ok());
    assert!(!st.should_stop);
}

#[test]
fn picking_ends_on_space_return_or_escape() {
    let mut st = AutomationState::new();
    assert_eq!(st.handle_input_key(InputKey::Space), PickAction::Ignore);
    st.start_picking_coords();
    assert_eq!(st.handle_input_key(InputKey::Other), PickAction::Ignore);
    assert!(st.is_picking);
    assert_eq!(st.handle_input_key(InputKey::Return), PickAction::ReportPosition);
    assert!(!st.is_picking);
    st.start_picking_coords();
    assert_eq!(st.handle_input_key(InputKey::Escape), PickAction::ReportCancel);
    assert!(!st.is_picking);
    st.start_picking_coords();
    st.cancel_picking_coords();
    assert_eq!(st.handle_input_key(InputKey::Space), PickAction::Ignore);
}

#[test]
fn defaults_of_the_batch_configuration() {
    assert_eq!(default_max_retries(), 2);
    assert!(default_notify_on_done());
}

#[test]
fn eta_is_the_average_times_the_projects_left() {
    assert_eq!(compute_eta(100, 0, 5), None);
    assert_eq!(compute_eta(100, 2, 5), Some(150));
    assert_eq!(compute_eta(101, 2, 5), Some(150));
    assert_eq!(compute_eta(7, 2, 2), Some(0));
}

#[test]
fn progress_reports() {
    let p = progress_report(2, 5, 1, 1, "P3".to_string(), 100);
    assert_eq!((p.done, p.total, p.success, p.failed), (2, 5, 1, 1));
    assert_eq!(p.current, "P3");
    assert_eq!(p.elapsed_secs, 100);
    assert_eq!(p.eta_secs, Some(150));
    let f = final_progress(5, 4, 1, 900);
    assert_eq!((f.done, f.total, f.success, f.failed), (5, 5, 4, 1));
    assert_eq!(f.current, "");
    assert_eq!(f.eta_secs, Some(0));
}

#[test]
fn attempt_verdicts() {
    assert_eq!(after_step(&StepResult::Continue, 1, 2), AttemptVerdict::Continue);
    assert_eq!(after_step(&StepResult::StopAll, 1, 2), AttemptVerdict::Abort);
    assert_eq!(after_step(&StepResult::SkipProject, 2, 2), AttemptVerdict::Retry);
    assert_eq!(after_step(&StepResult::SkipProject, 3, 2), AttemptVerdict::Failed);
    assert_eq!(after_render(true, true, 1, 2), AttemptVerdict::Abort);
    assert_eq!(after_render(false, true, 3, 2), AttemptVerdict::Succeeded);
    assert_eq!(after_render(false, false, 2, 2), AttemptVerdict::Retry);
    assert_eq!(after_render(false, false, 3, 2), AttemptVerdict::Failed);
    assert_eq!(after_render(false, false, 1, 0), AttemptVerdict::Failed);
}

#[test]
fn empty_batch_does_nothing() {
    let (run, action) = BatchRun::start(0, 2, true);
    assert_eq!(action, BatchAction::NothingToRender);
    assert_eq!(run.phase, BatchPhase::Halted);
    assert!(!run.accepts(&BatchEvent::Step(StepResult::Continue)));
}

#[test]
fn a_bad_export_folder_ends_the_batch_before_setup() {
    let (run, action) = BatchRun::start(3, 2, false);
    assert_eq!(action, BatchAction::BadExportPath);
    assert_eq!(run.phase, BatchPhase::Halted);
    assert!(!run.accepts(&BatchEvent::Step(StepResult::Continue)));
    assert!(!run.accepts(&BatchEvent::Done));
    // an empty batch is reported as such, whatever the folder
    let (_, action) = BatchRun::start(0, 2, false);
    assert_eq!(action, BatchAction::NothingToRender);
}

#[test]
fn batch_retries_then_counts_each_project() {
    let (mut run, a) = BatchRun::start(2, 1, true);
    assert_eq!(a, BatchAction::Setup);
    let step = |r: StepResult| BatchEvent::Step(r);
    assert_eq!(run.next(step(StepResult::Continue), false), BatchAction::BeginProject { idx: 0, success: 0, failed: 0 });
    assert_eq!(run.next(BatchEvent::Done, false), BatchAction::OpenProject { idx: 0, attempt: 1 });
    assert_eq!(run.next(step(StepResult::Continue), false), BatchAction::Export { idx: 0 });
    assert_eq!(run.next(step(StepResult::Continue), false), BatchAction::WaitRender { idx: 0 });
    assert_eq!(
        run.next(BatchEvent::Rendered(true), false),
        BatchAction::ProjectFinished { idx: 0, rendered: true, success: 1, failed: 0 }
    );
    assert_eq!(run.next(BatchEvent::Done, false), BatchAction::Cleanup);
    assert_eq!(run.next(step(StepResult::Continue), false), BatchAction::BeginProject { idx: 1, success: 1, failed: 0 });
    assert_eq!(run.next(BatchEvent::Done, false), BatchAction::OpenProject { idx: 1, attempt: 1 });
    assert_eq!(run.next(step(StepResult::SkipProject), false), BatchAction::Recover { idx: 1, retry: 1 });
    assert_eq!(run.next(BatchEvent::Recovered(true), false), BatchAction::OpenProject { idx: 1, attempt: 2 });
    assert_eq!(run.next(step(StepResult::Continue), false), BatchAction::Export { idx: 1 });
    assert_eq!(run.next(step(StepResult::Continue), false), BatchAction::WaitRender { idx: 1 });
    assert_eq!(
        run.next(BatchEvent::Rendered(false), false),
        BatchAction::ProjectFinished { idx: 1, rendered: false, success: 1, failed: 1 }
    );
    // the last project is not cleaned up
    assert_eq!(run.next(BatchEvent::Done, false), BatchAction::Finish { success: 1, failed: 1 });
    assert_eq!(run.phase, BatchPhase::Finished);
    assert!(!run.accepts(&BatchEvent::Done));
}

#[test]
fn a_stop_ends_the_batch_without_counting_the_project() {
    let (mut run, _) = BatchRun::start(3, 2, true);
    run.next(BatchEvent::Step(StepResult::Continue), false);
    run.next(BatchEvent::Done, false);
    run.next(BatchEvent::Step(StepResult::Continue), false);
    // no stop check between opening and exporting
    assert_eq!(run.next(BatchEvent::Step(StepResult::Continue), true), BatchAction::Finish { success: 0, failed: 0 });
    let (mut run, _) = BatchRun::start(3, 2, true);
    assert_eq!(run.next(BatchEvent::Step(StepResult::Continue), true), BatchAction::Finish { success: 0, failed: 0 });
}

#[test]
fn setup_and_cleanup_failures_abandon_the_batch() {
    let (mut run, _) = BatchRun::start(2, 0, true);
    assert_eq!(run.next(BatchEvent::Step(StepResult::SkipProject), false), BatchAction::Halt { restore: false });
    let (mut run, _) = BatchRun::start(2, 0, true);
    run.next(BatchEvent::Step(StepResult::Continue), false);
    run.next(BatchEvent::Done, false);
    run.next(BatchEvent::Step(StepResult::Continue), false);
    run.next(BatchEvent::Step(StepResult::Continue), false);
    run.next(BatchEvent::Rendered(true), false);
    assert_eq!(run.next(BatchEvent::Done, false), BatchAction::Cleanup);
    assert_eq!(run.next(BatchEvent::Step(StepResult::StopAll), false), BatchAction::Halt { restore: true });
}

#[test]
fn a_failed_recovery_ends_the_batch() {
    let (mut run, _) = BatchRun::start(1, 3, true);
    run.next(BatchEvent::Step(StepResult::Continue), false);
    run.next(BatchEvent::Done, false);
    run.next(BatchEvent::Step(StepResult::Continue), false);
    run.next(BatchEvent::Step(StepResult::Continue), false);
    assert_eq!(run.next(BatchEvent::Rendered(false), false), BatchAction::Recover { idx: 0, retry: 1 });
    assert!(run.accepts(&BatchEvent::Recovered(false)));
    assert!(!run.accepts(&BatchEvent::Done));
    assert_eq!(run.next(BatchEvent::Recovered(false), false), BatchAction::Finish { success: 0, failed: 0 });
}

#[test]
fn maximize_tries_the_api_then_win_up() {
    let (mut flow, a) = MaximizeFlow::start();
    assert_eq!(a, MaximizeAction::Focus);
    assert_eq!(flow.next(MaximizeEvent::Focused(true)), MaximizeAction::CheckResponding);
    assert_eq!(
        flow.next(MaximizeEvent::Responding { not_responding: false, waited_secs: 0 }),
        MaximizeAction::Measure
    );
    let small = MaximizeEvent::Measured { screen: Some((1920, 1080)), rect: Some((0, 0, 1280, 720)) };
    assert_eq!(flow.next(small), MaximizeAction::CallMaximize);
    assert_eq!(flow.next(MaximizeEvent::Maximized(true)), MaximizeAction::Measure);
    assert_eq!(flow.next(small), MaximizeAction::PressWinUp);
    assert_eq!(flow.next(MaximizeEvent::Pressed), MaximizeAction::Measure);
    let full = MaximizeEvent::Measured { screen: Some((1920, 1080)), rect: Some((0, 0, 1910, 960)) };
    assert_eq!(flow.next(full), MaximizeAction::Finish(true));
}

#[test]
fn maximize_gives_up() {
    let (mut flow, _) = MaximizeFlow::start();
    assert_eq!(flow.next(MaximizeEvent::Focused(false)), MaximizeAction::Finish(false));
    let (mut flow, _) = MaximizeFlow::start();
    flow.next(MaximizeEvent::Focused(true));
    assert_eq!(
        flow.next(MaximizeEvent::Responding { not_responding: true, waited_secs: 0 }),
        MaximizeAction::WaitAndCheckResponding
    );
    assert_eq!(
        flow.next(MaximizeEvent::Responding { not_responding: true, waited_secs: 58 }),
        MaximizeAction::WaitAndCheckResponding
    );
    assert_eq!(
        flow.next(MaximizeEvent::Responding { not_responding: true, waited_secs: 60 }),
        MaximizeAction::Finish(false)
    );
    let (mut flow, _) = MaximizeFlow::start();
    flow.next(MaximizeEvent::Focused(true));
    flow.next(MaximizeEvent::Responding { not_responding: true, waited_secs: 0 });
    assert_eq!(flow.next(MaximizeEvent::Responding { not_responding: false, waited_secs: 4 }), MaximizeAction::Focus);
    assert_eq!(flow.next(MaximizeEvent::Focused(true)), MaximizeAction::Measure);
    assert_eq!(flow.next(MaximizeEvent::Measured { screen: None, rect: Some((0, 0, 5000, 5000)) }), MaximizeAction::CallMaximize);
    assert_eq!(flow.next(MaximizeEvent::Maximized(false)), MaximizeAction::Finish(false));
}

#[test]
fn opening_a_project_is_watched_and_retried_once() {
    let mut flow = OpenFlow::start(OpenGesture::Navigate { arrows: 2 }, 3, 15);
    assert_eq!(flow.next(OpenEvent::Observed { windows: 3, elapsed_secs: 0, stop: false }), OpenAction::WaitAndObserve);
    assert_eq!(
        flow.next(OpenEvent::Observed { windows: 3, elapsed_secs: 15, stop: false }),
        OpenAction::Retry(OpenGesture::Navigate { arrows: 2 })
    );
    assert_eq!(flow.next(OpenEvent::Observed { windows: 4, elapsed_secs: 1, stop: true }), OpenAction::SettleAndCheck);
    assert_eq!(
        flow.next(OpenEvent::Responding { not_responding: true, waited_secs: 5, stop: false }),
        OpenAction::WaitAndCheck
    );
    assert_eq!(
        flow.next(OpenEvent::Responding { not_responding: true, waited_secs: 30, stop: false }),
        OpenAction::DismissAndMaximize
    );
    assert_eq!(flow.next(OpenEvent::Done), OpenAction::Finish(StepResult::Continue));
}

#[test]
fn opening_a_project_skips_or_stops() {
    let mut flow = OpenFlow::start(OpenGesture::DoubleClick, 3, 15);
    flow.next(OpenEvent::Observed { windows: 2, elapsed_secs: 20, stop: false });
    assert_eq!(flow.next(OpenEvent::Observed { windows: 3, elapsed_secs: 9, stop: false }), OpenAction::WaitAndObserve);
    assert_eq!(
        flow.next(OpenEvent::Observed { windows: 3, elapsed_secs: 10, stop: false }),
        OpenAction::Finish(StepResult::SkipProject)
    );
    let mut flow = OpenFlow::start(OpenGesture::DoubleClick, 3, 15);
    assert_eq!(
        flow.next(OpenEvent::Observed { windows: 3, elapsed_secs: 2, stop: true }),
        OpenAction::Finish(StepResult::StopAll)
    );
    let mut flow = OpenFlow::start(OpenGesture::DoubleClick, 3, 15);
    flow.next(OpenEvent::Observed { windows: 5, elapsed_secs: 2, stop: false });
    assert_eq!(
        flow.next(OpenEvent::Responding { not_responding: true, waited_secs: 3, stop: true }),
        OpenAction::Finish(StepResult::StopAll)
    );
}

#[test]
fn closing_a_project_is_watched() {
    assert_eq!(close_poll(2, 3, 0, true), ClosePoll::BackHome);
    assert_eq!(close_poll(3, 3, 10, true), ClosePoll::TimedOut);
    assert_eq!(close_poll(3, 3, 5, true), ClosePoll::Stopped);
    assert_eq!(close_poll(4, 3, 5, false), ClosePoll::Wait);
}

#[test]
fn search_offset_counts_earlier_names_containing_the_project() {
    let all = names(&["0325 (1)", "Other", "0325", "0325 (2)"]);
    assert_eq!(search_offset(100, &all, "0325"), 1);
    assert_eq!(search_offset(100, &names(&["ABC x", "abc"]), "abc"), 1);
    assert_eq!(search_offset(100, &names(&["a", "b"]), "zz"), 0);
    assert_eq!(search_offset(0, &all, "0325"), 0);
    assert_eq!(search_offset(100, &Vec::new(), "0325"), 0);
    assert_eq!(search_offset(100, &names(&["x0325", "y0325", "0325"]), "0325"), 2);
}

#[test]
fn calibrated_positions() {
    assert!(uses_search((10, 20)));
    assert!(!uses_search((10, 0)));
    assert!(sets_export_path(0, (5, 5)));
    assert!(!sets_export_path(1, (5, 5)));
    assert!(!sets_export_path(0, (0, 5)));
}

#[test]
fn window_geometry() {
    assert!(is_window_maximized((1920, 1080), (0, 0, 1910, 960)));
    assert!(!is_window_maximized((1920, 1080), (0, 0, 1909, 960)));
    assert!(!is_window_maximized((1920, 1080), (0, 0, 1920, 959)));
    assert_eq!(title_bar_point((100, 50, 301, 400)), (200, 65));
    assert_eq!(title_bar_point((10, 0, 5, 0)), (8, 15));
}

#[test]
fn small_step_decisions() {
    assert!(foreground_is_capcut("Untitled - CapCut"));
    assert!(!foreground_is_capcut("AutoCapCut Tool"));
    assert!(!foreground_is_capcut("Notepad"));
    assert_eq!(render_timeout_secs(30), 1800);
    assert_eq!(open_gesture(0), OpenGesture::DoubleClick);
    assert_eq!(open_gesture(3), OpenGesture::Navigate { arrows: 3 });
}

#[test]
fn rendered_videos_are_recognised() {
    assert_eq!(extension("video.final.MP4"), "MP4");
    assert_eq!(extension("noext"), "noext");
    assert_eq!(extension("trailing."), "");
    assert!(is_video_candidate("Project.MP4"));
    assert!(is_video_candidate("clip.webm"));
    assert!(is_video_candidate("mp4"));
    assert!(!is_video_candidate(".hidden.mp4"));
    assert!(!is_video_candidate("x.tmp.mp4"));
    assert!(!is_video_candidate("x~.mp4"));
    assert!(!is_video_candidate("notes.txt"));
    assert!(file_ready(10, 10));
    assert!(!file_ready(0, 0));
    assert!(!file_ready(10, 11));
}

#[test]
fn render_output_is_new_or_freshly_written() {
    let before = names(&["a.mp4", "b.mov"]);
    assert!(name_listed(&before, "b.mov"));
    assert!(!name_listed(&before, "B.mov"));
    assert!(!is_render_output("a.mp4", &before, false));
    assert!(is_render_output("a.mp4", &before, true));
    assert!(is_render_output("c.mp4", &before, false));
    assert!(!is_render_output("c.txt", &before, true));
}

#[test]
fn render_poll_rounds() {
    assert_eq!(poll_step(true, 0, 100, 0), PollStep::Stopped);
    assert_eq!(poll_step(false, 100, 100, 0), PollStep::TimedOut);
    assert_eq!(poll_step(false, 30, 100, 0), PollStep::Poll { heartbeat: true });
    assert_eq!(poll_step(false, 29, 100, 0), PollStep::Poll { heartbeat: false });
    assert_eq!(poll_step(false, 60, 100, 30), PollStep::Poll { heartbeat: true });
    assert_eq!(poll_step(false, 59, 100, 30), PollStep::Poll { heartbeat: false });
}

#[test]
fn export_path_checks() {
    assert_eq!(validate_export_path("C:/out", false, false, &None).unwrap_err(), "Export folder không tồn tại: C:/out");
    assert_eq!(validate_export_path("C:/out", true, false, &None).unwrap_err(), "Export path không phải thư mục: C:/out");
    assert_eq!(
        validate_export_path("C:/out", true, true, &Some("denied".to_string())).unwrap_err(),
        "Không có quyền đọc export folder: denied"
    );
    assert!(validate_export_path("C:/out", true, true, &None).is_ok());
}

#[test]
fn projects_are_listed_newest_first() {
    let e = |name: Option<&str>, is_dir: bool, modified: i128| FolderEntry { name: name.map(|s| s.to_string()), is_dir, modified };
    let entries = vec![
        e(Some("old"), true, 100),
        e(Some(".git"), true, 500),
        e(Some("new"), true, 300),
        e(Some("file.txt"), false, 999),
        e(None, true, 1000),
        e(Some("same"), true, 300),
    ];
    let got = scan_projects(&entries);
    let listed: Vec<&str> = got.iter().map(|p| p.name.as_str()).collect();
    assert_eq!(listed, vec!["new", "same", "old"]);
    for p in &got {
        assert_eq!(p.id, p.name);
        assert_eq!(p.status, "Pending");
    }
    assert!(scan_projects(&Vec::new()).is_empty());
}

#[test]
fn log_time_of_day() {
    assert_eq!(format_clock(3661, 5), "01:01:01.005");
    assert_eq!(format_clock(86400 + 59, 999), "00:00:59.999");
    assert_eq!(format_clock(0, 0), "00:00:00.000");
    let t = timestamp();
    let b = t.as_bytes();
    assert_eq!(b.len(), 12);
    assert_eq!((b[2], b[5], b[8]), (b':', b':', b'.'));
}

fn probe(handle: isize, visible: bool, title: &str, exe: Option<&str>, rect: Option<(i32, i32, i32, i32)>) -> WindowProbe {
    WindowProbe { handle, visible, title: title.to_string(), exe_path: exe.map(|s| s.to_string()), rect }
}

fn desktop() -> Vec<WindowProbe> {
    let capcut = "C:\\Users\\u\\AppData\\Local\\CapCut\\Apps\\CapCut.exe";
    vec![
        probe(11, true, "CapCut", Some(capcut), Some((0, 0, 1920, 1040))),
        probe(12, true, "CapCut", Some(capcut), Some((100, 100, 500, 400))),
        probe(13, true, "AutoCapCut Tool", Some("C:\\tool\\render-tool.exe"), Some((0, 0, 1900, 1000))),
        probe(14, true, "CapCut - Chrome", Some("C:\\chrome.exe"), Some((0, 0, 1920, 1080))),
        probe(15, false, "CapCut", Some(capcut), Some((0, 0, 3000, 3000))),
    ]
}

#[test]
fn capcut_main_window_is_the_largest_of_its_own() {
    let ws = desktop();
    assert_eq!(main_window_index(&ws), Some(0));
    assert_eq!(focus_capcut(&ws), Some(11));
    assert_eq!(get_capcut_main_hwnd(&ws), Some(11));
    assert_eq!(get_capcut_title(&ws), Some("CapCut".to_string()));
    assert_eq!(get_capcut_window_rect(&ws), Some((0, 0, 1920, 1040)));
    assert_eq!(get_capcut_window_count(&ws), 4);
    assert_eq!(list_capcut_windows(&ws), names(&["CapCut", "CapCut", "AutoCapCut Tool", "CapCut - Chrome"]));
    assert_eq!(extra_window_indices(&ws), vec![1]);
    assert_eq!(get_capcut_extra_window(&ws), Some(12));
    let none: Vec<WindowProbe> = vec![probe(1, true, "Notepad", None, Some((0, 0, 10, 10)))];
    assert_eq!(focus_capcut(&none), None);
    assert_eq!(get_capcut_title(&none), None);
    assert_eq!(extra_window_indices(&none), Vec::<usize>::new());
    assert_eq!(get_capcut_extra_window(&none), None);
}

#[test]
fn equally_large_process_windows_keep_the_last() {
    let exe = "D:\\CapCut\\CapCut.exe";
    let ws = vec![
        probe(1, true, "a", Some(exe), Some((0, 0, 10, 10))),
        probe(2, true, "b", Some(exe), Some((0, 0, 10, 10))),
        probe(3, true, "c", Some(exe), Some((0, 0, 5, 5))),
    ];
    assert_eq!(extra_window_indices(&ws), vec![0, 2]);
}

#[test]
fn capcut_executable_and_responsiveness() {
    assert!(is_capcut_exe_path(&Some("C:\\Program Files\\CapCut\\x.exe".to_string())));
    assert!(is_capcut_exe_path(&Some("D:\\APPS\\CAPCUT.EXE".to_string())));
    assert!(!is_capcut_exe_path(&Some("C:\\chrome.exe".to_string())));
    assert!(!is_capcut_exe_path(&None));
    assert!(is_capcut_not_responding(&Some("CapCut (Not Responding)".to_string())));
    assert!(!is_capcut_not_responding(&Some("CapCut".to_string())));
    assert!(!is_capcut_not_responding(&None));
}

#[test]
fn diagnostic_line() {
    assert_eq!(
        diagnostic_snapshot("CapCut", true, Some((0, 0, 1920, 1040)), true, 2),
        "FG='CapCut' | CapCut=1920×1040 @(0,0) max=true fg=true | wins=2"
    );
    assert_eq!(
        diagnostic_snapshot("", false, None, false, 0),
        "FG='' | CapCut=NOT_FOUND max=false fg=false | wins=0"
    );
    assert_eq!(
        diagnostic_snapshot("x", false, Some((-10, -5, 90, 45)), false, 1),
        "FG='x' | CapCut=100×50 @(-10,-5) max=false fg=false | wins=1"
    );
}

#[test]
fn dialog_rectangle_comes_from_the_first_title_found() {
    let titles = ["Select exporting path", "Chọn đường dẫn khi xuất"];
    let found = get_window_rect_by_any_title(&titles, |t: &str| {
        if t == "Chọn đường dẫn khi xuất" { Some((10, 20, 410, 320)) } else { None }
    });
    assert_eq!(found, Some((10, 20, 410, 320)));
    let first = get_window_rect_by_any_title(&titles, |_t: &str| Some((1, 2, 3, 4)));
    assert_eq!(first, Some((1, 2, 3, 4)));
    assert_eq!(get_window_rect_by_any_title(&titles, |_t: &str| None), None);
    assert_eq!(get_window_rect_by_any_title(&[], |_t: &str| Some((1, 2, 3, 4))), None);
}

#[test]
fn interruptible_sleeps_count_whole_ticks() {
    assert!(keep_sleeping(0, 250, false));
    assert!(keep_sleeping(1, 250, false));
    assert!(!keep_sleeping(2, 250, false));
    assert!(!keep_sleeping(0, 99, false));
    assert!(!keep_sleeping(0, 1000, true));
}

#[test]
fn closing_windows_win_over_the_time_limit() {
    assert_eq!(close_wait(false, 10_000, 4000), CloseWait::Closed);
    assert_eq!(close_wait(true, 4000, 4000), CloseWait::TimedOut);
    assert_eq!(close_wait(true, 3999, 4000), CloseWait::Wait);
}

#[test]
fn the_window_wait_logs_progress_every_two_seconds() {
    let (mut w, a) = WindowWait::start(30);
    assert_eq!(a, WaitAction::ReadClock);
    assert_eq!(w.next(WaitEvent::Clock(0)), WaitAction::ReadStop);
    assert_eq!(w.next(WaitEvent::Stop(false)), WaitAction::Look);
    assert_eq!(w.next(WaitEvent::Look(false)), WaitAction::ReadClock);
    assert_eq!(w.next(WaitEvent::Clock(1)), WaitAction::Sleep);
    assert_eq!(w.next(WaitEvent::Clock(2)), WaitAction::ReadStop);
    assert_eq!(w.next(WaitEvent::Stop(false)), WaitAction::Look);
    assert_eq!(w.next(WaitEvent::Look(false)), WaitAction::ReadClock);
    assert_eq!(w.next(WaitEvent::Clock(2)), WaitAction::Progress(2));
    assert_eq!(w.last_log_sec, 2);
    assert_eq!(w.next(WaitEvent::Clock(3)), WaitAction::ReadStop);
    assert_eq!(w.next(WaitEvent::Stop(false)), WaitAction::Look);
    assert_eq!(w.next(WaitEvent::Look(false)), WaitAction::ReadClock);
    assert_eq!(w.next(WaitEvent::Clock(3)), WaitAction::Sleep);
    assert_eq!(w.next(WaitEvent::Clock(30)), WaitAction::TimedOut);
    assert!(!w.accepts(&WaitEvent::Clock(31)));
}

#[test]
fn the_window_wait_ends_on_a_stop_or_a_find() {
    let (mut w, _) = WindowWait::start(30);
    w.next(WaitEvent::Clock(5));
    assert_eq!(w.next(WaitEvent::Stop(true)), WaitAction::Stopped);
    assert!(!w.accepts(&WaitEvent::Look(true)));
    let (mut w, _) = WindowWait::start(30);
    w.next(WaitEvent::Clock(5));
    assert!(!w.accepts(&WaitEvent::Look(true)));
    w.next(WaitEvent::Stop(false));
    assert_eq!(w.next(WaitEvent::Look(true)), WaitAction::Found);
    let (mut w, _) = WindowWait::start(0);
    assert_eq!(w.next(WaitEvent::Clock(0)), WaitAction::TimedOut);
}

#[test]
fn a_recovery_runs_every_step_in_order() {
    let (mut f, a) = RecoveryFlow::start(3);
    assert_eq!(a, RecoveryAction::Kill);
    assert_eq!(f.settle_ms, 3000);
    assert_eq!(f.next(true), RecoveryAction::Launch);
    assert_eq!(f.next(true), RecoveryAction::WaitWindow(30));
    assert_eq!(f.next(true), RecoveryAction::Settle(3000));
    assert_eq!(f.next(true), RecoveryAction::Maximize);
    assert_eq!(f.next(true), RecoveryAction::Recovered);
    assert!(!f.is_running());
}

#[test]
fn a_failed_recovery_step_says_why() {
    let (mut f, _) = RecoveryFlow::start(1);
    f.next(true);
    let a = f.next(false);
    assert_eq!(a, RecoveryAction::Failed(Some(RecoveryFailure::NoExecutable)));
    assert_eq!(recovery_failure_text(RecoveryFailure::NoExecutable), "❌ [recovery] Không tìm thấy CapCut.exe!");
    assert!(!f.is_running());
    let (mut f, _) = RecoveryFlow::start(1);
    f.next(true);
    f.next(true);
    assert_eq!(f.next(false), RecoveryAction::Failed(Some(RecoveryFailure::NoWindow)));
    assert_eq!(recovery_failure_text(RecoveryFailure::NoWindow), "❌ [recovery] CapCut không mở window sau 30s!");
    let (mut f, _) = RecoveryFlow::start(1);
    f.next(true);
    f.next(true);
    f.next(true);
    // a stop during the settling ends the recovery without a reason
    assert_eq!(f.next(false), RecoveryAction::Failed(None));
    let (mut f, _) = RecoveryFlow::start(1);
    for _ in 0..4 {
        f.next(true);
    }
    assert_eq!(f.next(false), RecoveryAction::Failed(Some(RecoveryFailure::NotMaximized)));
    assert_eq!(recovery_failure_text(RecoveryFailure::NotMaximized), "❌ [recovery] Maximize Home thất bại!");
}
