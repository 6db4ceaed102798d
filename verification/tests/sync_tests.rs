use autocapcut::sync::{
    apply_edits, apply_one_edit, collect_durations, differs_by_more_than_ms, draft_processable, failure_result,
    is_image_segment, process_draft, sort_entries_by_start, sum_times, sync_image_duration, sync_subtitles,
    sync_video_audio, written_result, Draft, DraftEdit, DraftFailure, Segment, SyncOptions, SyncOutcome, TimeField,
    Timerange, Track,
};

fn seg(start: i64, dur: i64) -> Segment {
    Segment {
        writable: true,
        timerange: Timerange::Fields { start: Some(start), duration: Some(dur) },
        material_type: None,
        media_type: None,
        is_placeholder: None,
        source_duration: None,
    }
}

fn photo(start: i64, dur: i64) -> Segment {
    let mut s = seg(start, dur);
    s.material_type = Some("photo".to_string());
    s
}

fn track(kind: &str, segs: Vec<Segment>) -> Track {
    Track { kind: kind.to_string(), segments: Some(segs) }
}

fn draft(tracks: Vec<Track>) -> Draft {
    Draft { indexable: true, tracks: Some(tracks) }
}

fn timerange(d: &Draft, t: usize, s: usize) -> Timerange {
    d.tracks.as_ref().unwrap()[t].segments.as_ref().unwrap()[s].timerange
}

fn duration(d: &Draft, t: usize, s: usize) -> Option<i64> {
    match timerange(d, t, s) {
        Timerange::Fields { duration, .. } => duration,
        _ => None,
    }
}

fn edit(track: usize, segment: usize, field: TimeField, value: i64) -> DraftEdit {
    DraftEdit { track, segment, field, value }
}

fn all_options() -> SyncOptions {
    SyncOptions { sync_video_audio: true, sync_image_duration: true, sync_subtitles: true }
}

fn va_draft() -> Draft {
    draft(vec![
        track("video", vec![seg(0, 5_000_000), seg(5_000_000, 2_000_000)]),
        track("audio", vec![seg(0, 3_000_000), seg(3_000_000, 2_000_500)]),
    ])
}

#[test]
fn video_follows_audio_where_they_differ_by_more_than_a_millisecond() {
    let step = sync_video_audio(&va_draft()).unwrap();
    assert_eq!(step.messages, vec!["Sync V/A: segment 0 5000000μs → 3000000μs".to_string()]);
    assert_eq!(step.edits, vec![edit(0, 0, TimeField::Duration, 3_000_000)]);
}

#[test]
fn video_audio_reports_missing_audio_and_agreement() {
    let d = draft(vec![track("video", vec![seg(0, 1)])]);
    let step = sync_video_audio(&d).unwrap();
    assert_eq!(step.messages, vec!["Sync V/A: Không có audio track".to_string()]);
    assert!(step.edits.is_empty());
    let d = draft(vec![track("video", vec![seg(0, 1_000)]), track("audio", vec![seg(0, 2_000)])]);
    let step = sync_video_audio(&d).unwrap();
    assert_eq!(step.messages, vec!["Sync V/A: Đã đồng bộ (không cần thay đổi)".to_string()]);
    assert!(step.edits.is_empty());
}

#[test]
fn video_audio_pairs_by_position_across_tracks() {
    // two video tracks: each is matched against the audio from its first segment
    let d = draft(vec![
        track("audio", vec![seg(0, 10_000), seg(0, 20_000)]),
        track("video", vec![seg(0, 1)]),
        track("video", vec![seg(0, 10_000), seg(0, 5)]),
    ]);
    let step = sync_video_audio(&d).unwrap();
    assert_eq!(
        step.messages,
        vec![
            "Sync V/A: segment 0 1μs → 10000μs".to_string(),
            "Sync V/A: segment 1 5μs → 20000μs".to_string(),
        ]
    );
    assert_eq!(step.edits, vec![edit(1, 0, TimeField::Duration, 10_000), edit(2, 1, TimeField::Duration, 20_000)]);
}

#[test]
fn rules_need_tracks() {
    let d = Draft { indexable: true, tracks: None };
    assert_eq!(sync_video_audio(&d).err().unwrap(), "Không tìm thấy tracks");
    assert_eq!(sync_image_duration(&d).err().unwrap(), "Không tìm thấy tracks");
    assert_eq!(sync_subtitles(&d).err().unwrap(), "Không tìm thấy tracks");
}

#[test]
fn images_share_the_audio_length_first_taking_the_remainder() {
    let d = draft(vec![
        track("video", vec![photo(0, 1_000_000), photo(1_000_000, 1_000_000), seg(2_000_000, 4_000_000)]),
        track("audio", vec![seg(0, 10_000_001)]),
    ]);
    let step = sync_image_duration(&d).unwrap();
    assert_eq!(
        step.messages,
        vec!["Sync Img #0: 1000000μs → 5000001μs".to_string(), "Sync Img #1: 1000000μs → 5000000μs".to_string()]
    );
    assert_eq!(step.edits, vec![edit(0, 0, TimeField::Duration, 5_000_001), edit(0, 1, TimeField::Duration, 5_000_000)]);
    let total: i64 = step.edits.iter().map(|e| e.value).sum();
    assert_eq!(total, 10_000_001);
}

#[test]
fn image_rule_reports_when_nothing_is_to_do() {
    let no_audio = draft(vec![track("video", vec![photo(0, 5)])]);
    assert_eq!(sync_image_duration(&no_audio).unwrap().messages, vec!["Sync Img Duration: Không có audio".to_string()]);
    let no_images = draft(vec![track("video", vec![seg(0, 5)]), track("audio", vec![seg(0, 9)])]);
    assert_eq!(
        sync_image_duration(&no_images).unwrap().messages,
        vec!["Sync Img Duration: Không có ảnh trong timeline".to_string()]
    );
    let matched = draft(vec![
        track("video", vec![photo(0, 5_000_000), photo(0, 5_000_500)]),
        track("audio", vec![seg(0, 10_000_001)]),
    ]);
    assert_eq!(sync_image_duration(&matched).unwrap().messages, vec!["Sync Img Duration: Đã khớp".to_string()]);
    // each image already within a millisecond of its share
    let close = draft(vec![
        track("video", vec![photo(0, 3_000_000), photo(0, 2_000_900)]),
        track("audio", vec![seg(0, 4_000_000)]),
        track("video", vec![photo(0, 1_900_000)]),
    ]);
    let step = sync_image_duration(&close).unwrap();
    assert_eq!(step.messages, vec!["Sync Img #0: 3000000μs → 1333334μs".to_string(), "Sync Img #1: 2000900μs → 1333333μs".to_string(), "Sync Img #2: 1900000μs → 1333333μs".to_string()]);
}

#[test]
fn still_images_are_recognised() {
    assert!(is_image_segment(&photo(0, 1)));
    let mut s = seg(0, 1);
    s.media_type = Some("photo".to_string());
    assert!(is_image_segment(&s));
    let mut s = seg(0, 1);
    s.is_placeholder = Some(false);
    s.source_duration = Some(0);
    assert!(is_image_segment(&s));
    let mut s = seg(0, 1);
    s.is_placeholder = Some(false);
    assert!(!is_image_segment(&s));
    let mut s = seg(0, 1);
    s.is_placeholder = Some(true);
    s.source_duration = Some(0);
    assert!(!is_image_segment(&s));
    let mut s = seg(0, 1);
    s.material_type = Some("video".to_string());
    assert!(!is_image_segment(&s));
}

#[test]
fn video_follows_subtitles_in_time_order() {
    let d = draft(vec![
        track("text", vec![seg(4_000_000, 2_000_000), seg(0, 3_000_000), seg(9_000_000, 0)]),
        track("video", vec![seg(0, 1_000_000), seg(1_000_000, 1_000_000), seg(2_000_000, 500_000)]),
    ]);
    let step = sync_subtitles(&d).unwrap();
    assert_eq!(
        step.messages,
        vec![
            "Sync Sub #0: start 0→0 dur 1000000→3000000".to_string(),
            "Sync Sub #1: start 1000000→4000000 dur 1000000→2000000".to_string(),
        ]
    );
    assert_eq!(
        step.edits,
        vec![
            edit(1, 0, TimeField::Start, 0),
            edit(1, 0, TimeField::Duration, 3_000_000),
            edit(1, 1, TimeField::Start, 4_000_000),
            edit(1, 1, TimeField::Duration, 2_000_000),
        ]
    );
}

#[test]
fn subtitle_rule_reports_when_nothing_is_to_do() {
    let none = draft(vec![track("video", vec![seg(0, 1)]), track("subtitle", vec![seg(0, 0)])]);
    assert_eq!(sync_subtitles(&none).unwrap().messages, vec!["Sync Subtitles: Không có subtitle track".to_string()]);
    let aligned = draft(vec![track("subtitle", vec![seg(0, 1_000_000)]), track("video", vec![seg(500, 1_000_800)])]);
    let step = sync_subtitles(&aligned).unwrap();
    assert_eq!(step.messages, vec!["Sync Subtitles: Đã đồng bộ".to_string()]);
    assert!(step.edits.is_empty());
}

#[test]
fn subtitle_entries_sort_stably_by_start() {
    let v = vec![(5, 1), (3, 2), (5, 0), (1, 9)];
    assert_eq!(sort_entries_by_start(&v), vec![(1, 9), (3, 2), (5, 1), (5, 0)]);
    assert_eq!(sort_entries_by_start(&Vec::new()), Vec::<(i64, i64)>::new());
}

#[test]
fn edits_write_the_draft_model() {
    let mut d = draft(vec![
        track("video", vec![seg(0, 1)]),
        Track { kind: "video".to_string(), segments: Some(vec![Segment { timerange: Timerange::Absent, ..seg(0, 0) }]) },
    ]);
    apply_one_edit(&mut d, edit(0, 0, TimeField::Duration, 42));
    assert_eq!(duration(&d, 0, 0), Some(42));
    // a start is written into a missing timerange, a duration is not
    apply_edits(&mut d, &vec![edit(1, 0, TimeField::Duration, 7), edit(1, 0, TimeField::Start, 9)]);
    assert_eq!(timerange(&d, 1, 0), Timerange::Fields { start: Some(9), duration: None });
}

#[test]
fn a_project_with_changes_is_rewritten() {
    let mut d = va_draft();
    let opts = SyncOptions { sync_video_audio: true, sync_image_duration: false, sync_subtitles: false };
    assert!(draft_processable(&d, &opts));
    match process_draft("P1", &mut d, &opts) {
        SyncOutcome::Write { step, .. } => {
            assert_eq!(step.messages, vec!["Sync V/A: segment 0 5000000μs → 3000000μs".to_string()]);
            assert_eq!(step.edits, vec![edit(0, 0, TimeField::Duration, 3_000_000)]);
        },
        SyncOutcome::Finished(r) => panic!("finished: {}", r.message),
    }
    assert_eq!(duration(&d, 0, 0), Some(3_000_000));
}

#[test]
fn later_rules_see_the_edits_of_earlier_ones() {
    let mut d = draft(vec![
        track("video", vec![photo(0, 1_000_000), photo(0, 1_000_000)]),
        track("audio", vec![seg(0, 3_000_000), seg(0, 1_000_000)]),
    ]);
    match process_draft("P", &mut d, &all_options()) {
        SyncOutcome::Write { step, .. } => {
            assert_eq!(
                step.messages,
                vec![
                    "Sync V/A: segment 0 1000000μs → 3000000μs".to_string(),
                    "Sync Img Duration: Đã khớp".to_string(),
                    "Sync Subtitles: Không có subtitle track".to_string(),
                ]
            );
            assert_eq!(step.edits, vec![edit(0, 0, TimeField::Duration, 3_000_000)]);
        },
        SyncOutcome::Finished(r) => panic!("finished: {}", r.message),
    }
}

#[test]
fn a_project_without_rules_is_unchanged() {
    let mut d = va_draft();
    let opts = SyncOptions { sync_video_audio: false, sync_image_duration: false, sync_subtitles: false };
    match process_draft("P2", &mut d, &opts) {
        SyncOutcome::Finished(r) => {
            assert_eq!(r.project, "P2");
            assert!(r.success);
            assert_eq!(r.message, "Không có thay đổi");
            assert!(r.changes.is_empty());
        },
        SyncOutcome::Write { .. } => panic!("rewritten"),
    }
    assert_eq!(duration(&d, 0, 0), Some(5_000_000));
}

#[test]
fn a_rule_error_names_the_rule_and_keeps_earlier_changes() {
    let mut d = Draft { indexable: true, tracks: None };
    match process_draft("P3", &mut d, &all_options()) {
        SyncOutcome::Finished(r) => {
            assert!(!r.success);
            assert_eq!(r.message, "Sync Video/Audio lỗi: Không tìm thấy tracks");
            assert!(r.changes.is_empty());
        },
        SyncOutcome::Write { .. } => panic!("rewritten"),
    }
    let opts = SyncOptions { sync_video_audio: false, sync_image_duration: false, sync_subtitles: true };
    match process_draft("P4", &mut d, &opts) {
        SyncOutcome::Finished(r) => assert_eq!(r.message, "Sync Subtitles lỗi: Không tìm thấy tracks"),
        SyncOutcome::Write { .. } => panic!("rewritten"),
    }
}

#[test]
fn drafts_the_rules_cannot_run_on_are_detected() {
    let opts = all_options();
    let not_indexable = Draft { indexable: false, tracks: Some(vec![]) };
    assert!(!draft_processable(&not_indexable, &opts));
    let none = SyncOptions { sync_video_audio: false, sync_image_duration: false, sync_subtitles: false };
    assert!(draft_processable(&not_indexable, &none));
    let mut locked = va_draft();
    locked.tracks.as_mut().unwrap()[0].segments.as_mut().unwrap()[0].writable = false;
    assert!(!draft_processable(&locked, &opts));
    let overflow = draft(vec![track("video", vec![seg(0, i64::MIN)]), track("audio", vec![seg(0, 1)])]);
    assert!(!draft_processable(&overflow, &opts));
    let huge = draft(vec![track("audio", vec![seg(0, i64::MAX), seg(0, 1)])]);
    assert!(!draft_processable(&huge, &opts));
    assert!(draft_processable(&va_draft(), &opts));
    assert!(draft_processable(&Draft { indexable: true, tracks: None }, &opts));
}

#[test]
fn failed_and_written_reports() {
    let r = failure_result("P", DraftFailure::Missing, vec![]);
    assert!(!r.success);
    assert_eq!(r.message, "Không tìm thấy draft_content.json");
    let r = failure_result("P", DraftFailure::Read("denied".to_string()), vec![]);
    assert_eq!(r.message, "Lỗi đọc file: denied");
    let r = failure_result("P", DraftFailure::Parse("eof".to_string()), vec![]);
    assert_eq!(r.message, "Lỗi parse JSON: eof");
    let r = failure_result("P", DraftFailure::Serialize("x".to_string()), vec!["a".to_string()]);
    assert_eq!(r.message, "Lỗi serialize JSON: x");
    assert_eq!(r.changes, vec!["a".to_string()]);
    let r = failure_result("P", DraftFailure::Write("disk full".to_string()), vec![]);
    assert_eq!(r.message, "Lỗi ghi file: disk full");
    let r = written_result("Q", vec!["a".to_string(), "b".to_string()]);
    assert!(r.success);
    assert_eq!(r.project, "Q");
    assert_eq!(r.message, "2 thay đổi đã áp dụng");
}

#[test]
fn helpers_on_times() {
    assert!(differs_by_more_than_ms(0, 1001));
    assert!(!differs_by_more_than_ms(0, 1000));
    assert!(differs_by_more_than_ms(i64::MIN, i64::MAX));
    assert_eq!(sum_times(&vec![1, -2, 30]), 29);
    let d = va_draft();
    assert_eq!(collect_durations(d.tracks.as_ref().unwrap(), "audio"), vec![3_000_000, 2_000_500]);
}
