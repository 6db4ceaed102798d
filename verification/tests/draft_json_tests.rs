use autocapcut::draft_json::{draft_of, sync_draft_text, write_edits};
use autocapcut::sync::{DraftEdit, SyncOptions, TimeField, Timerange};
use serde_json::Value;

fn only(va: bool, img: bool, sub: bool) -> SyncOptions {
    SyncOptions { sync_video_audio: va, sync_image_duration: img, sync_subtitles: sub }
}

const DRAFT: &str = r#"{
  "canvas": {"width": 1920},
  "tracks": [
    {"type": "video", "id": "v", "segments": [
      {"id": "a", "target_timerange": {"start": 0, "duration": 5000000}, "speed": 1.5},
      {"id": "b", "target_timerange": {"start": 5000000, "duration": 2000000}}
    ]},
    {"type": "audio", "segments": [
      {"target_timerange": {"start": 0, "duration": 3000000}},
      {"target_timerange": {"start": 3000000, "duration": 2000500}}
    ]}
  ]
}"#;

fn parse(s: &str) -> Value {
    serde_json::from_str(s).unwrap()
}

#[test]
fn a_draft_is_read_into_the_rules_model() {
    let v = parse(DRAFT);
    let d = draft_of(&v);
    assert!(d.indexable);
    let tracks = d.tracks.unwrap();
    assert_eq!(tracks.len(), 2);
    assert_eq!(tracks[0].kind, "video");
    assert_eq!(tracks[1].kind, "audio");
    let segs = tracks[0].segments.as_ref().unwrap();
    assert_eq!(segs.len(), 2);
    assert_eq!(segs[1].timerange, Timerange::Fields { start: Some(5000000), duration: Some(2000000) });
    assert!(segs[0].writable);
    assert_eq!(segs[0].material_type, None);
}

#[test]
fn odd_values_read_as_the_rules_expect() {
    let v = parse(r#"{"tracks": [{"type": 3, "segments": [null, 7, {"target_timerange": "x",
        "material_type": "photo", "is_placeholder": false, "source_timerange": {"duration": 0}}]}, {"type": "text"}]}"#);
    let tracks = draft_of(&v).tracks.unwrap();
    assert_eq!(tracks[0].kind, "");
    assert!(tracks[1].segments.is_none());
    let segs = tracks[0].segments.as_ref().unwrap();
    assert!(segs[0].writable);
    assert_eq!(segs[0].timerange, Timerange::Absent);
    assert!(!segs[1].writable);
    assert_eq!(segs[2].timerange, Timerange::Unusable);
    assert_eq!(segs[2].material_type, Some("photo".to_string()));
    assert_eq!(segs[2].is_placeholder, Some(false));
    assert_eq!(segs[2].source_duration, Some(0));
    let root = draft_of(&parse("[1, 2]"));
    assert!(!root.indexable);
    assert!(root.tracks.is_none());
}

#[test]
fn written_edits_land_in_the_timerange() {
    let mut v = parse(r#"{"tracks": [{"type": "video", "segments": [
        {"target_timerange": {"start": 1, "duration": 2}}, {}, null]}]}"#);
    let edits = vec![
        DraftEdit { track: 0, segment: 0, field: TimeField::Duration, value: 99 },
        DraftEdit { track: 0, segment: 1, field: TimeField::Duration, value: 5 },
        DraftEdit { track: 0, segment: 1, field: TimeField::Start, value: 7 },
        DraftEdit { track: 0, segment: 2, field: TimeField::Start, value: 8 },
        DraftEdit { track: 0, segment: 2, field: TimeField::Duration, value: 9 },
    ];
    write_edits(&mut v, &edits);
    let segs = &v["tracks"][0]["segments"];
    assert_eq!(segs[0]["target_timerange"]["duration"], 99);
    assert_eq!(segs[0]["target_timerange"]["start"], 1);
    // a duration goes only into an existing timerange object
    assert_eq!(segs[1]["target_timerange"]["start"], 7);
    assert!(segs[1]["target_timerange"].get("duration").is_none());
    assert_eq!(segs[2]["target_timerange"]["start"], 8);
    assert_eq!(segs[2]["target_timerange"]["duration"], 9);
}

#[test]
fn a_draft_text_is_rewritten_with_the_audio_durations() {
    let run = sync_draft_text("P", DRAFT, &only(true, false, false)).unwrap();
    assert!(run.parsed);
    assert!(run.result.success);
    assert_eq!(run.result.project, "P");
    assert_eq!(run.result.message, "1 thay đổi đã áp dụng");
    assert_eq!(run.result.changes, vec!["Sync V/A: segment 0 5000000μs → 3000000μs".to_string()]);
    let out = parse(&run.text.unwrap());
    let mut expected = parse(DRAFT);
    expected["tracks"][0]["segments"][0]["target_timerange"]["duration"] = Value::from(3000000);
    assert_eq!(out, expected);
    // what the rules read of the stored text is what they left
    let again = sync_draft_text("P", &out.to_string(), &only(true, false, false)).unwrap();
    assert_eq!(again.result.changes, vec!["Sync V/A: Đã đồng bộ (không cần thay đổi)".to_string()]);
}

#[test]
fn text_that_is_not_json_is_reported() {
    let run = sync_draft_text("Q", "{not json", &only(true, true, true)).unwrap();
    assert!(!run.parsed);
    assert!(run.text.is_none());
    assert!(!run.result.success);
    assert!(run.result.message.starts_with("Lỗi parse JSON: "));
    assert!(run.result.message.len() > "Lỗi parse JSON: ".len());
    assert!(run.result.changes.is_empty());
}

#[test]
fn a_failing_rule_leaves_the_file_alone() {
    let run = sync_draft_text("R", r#"{"name": "x"}"#, &only(true, true, true)).unwrap();
    assert!(run.parsed);
    assert!(run.text.is_none());
    assert!(!run.result.success);
    assert_eq!(run.result.message, "Sync Video/Audio lỗi: Không tìm thấy tracks");
}

#[test]
fn no_rule_chosen_means_nothing_to_store() {
    let run = sync_draft_text("S", DRAFT, &only(false, false, false)).unwrap();
    assert!(run.parsed);
    assert!(run.text.is_none());
    assert!(run.result.success);
    assert_eq!(run.result.message, "Không có thay đổi");
}

#[test]
fn subtitles_set_start_and_duration_in_the_stored_text() {
    let text = r#"{"tracks": [
        {"type": "video", "segments": [{"id": 1}]},
        {"type": "text", "segments": [{"target_timerange": {"start": 400000, "duration": 900000}}]}
    ]}"#;
    let run = sync_draft_text("T", text, &only(false, false, true)).unwrap();
    assert!(run.result.success);
    let out = parse(&run.text.unwrap());
    let seg = &out["tracks"][0]["segments"][0];
    assert_eq!(seg["id"], 1);
    assert_eq!(seg["target_timerange"]["start"], 400000);
    assert_eq!(seg["target_timerange"]["duration"], 900000);
}

#[test]
fn a_draft_the_rules_cannot_run_on_is_refused() {
    // the root is an array: the rules cannot index it for writing
    assert!(sync_draft_text("U", "[1, 2]", &only(true, false, false)).is_none());
    // with no rule chosen nothing is indexed
    let run = sync_draft_text("U", "[1, 2]", &only(false, false, false)).unwrap();
    assert_eq!(run.result.message, "Không có thay đổi");
}

#[test]
fn a_rule_going_through_video_tracks_gives_them_segments() {
    let text = r#"{"tracks": [
        {"type": "video"},
        {"type": "video", "segments": [{"target_timerange": {"start": 0, "duration": 5000000}}]},
        {"type": "audio", "segments": [{"target_timerange": {"start": 0, "duration": 3000000}}]}
    ]}"#;
    let run = sync_draft_text("V", text, &only(true, false, false)).unwrap();
    let out = parse(&run.text.unwrap());
    assert!(out["tracks"][0].as_object().unwrap().contains_key("segments"));
    assert!(out["tracks"][0]["segments"].is_null());
    assert_eq!(out["tracks"][1]["segments"][0]["target_timerange"]["duration"], 3000000);
    assert!(!out["tracks"][2].as_object().unwrap().contains_key("x"));
    // without audio the rule stops before the video tracks
    let run = sync_draft_text("V", r#"{"tracks": [{"type": "video"}]}"#, &only(true, false, false)).unwrap();
    assert_eq!(run.result.changes, vec!["Sync V/A: Không có audio track".to_string()]);
    let out = parse(&run.text.unwrap());
    assert!(!out["tracks"][0].as_object().unwrap().contains_key("segments"));
}

#[test]
fn text_nested_deeper_than_the_parser_allows_is_refused() {
    let deep = format!("{{\"tracks\": [], \"x\": {}{}}}", "[".repeat(200), "]".repeat(200));
    let run = sync_draft_text("W", &deep, &only(true, false, false)).unwrap();
    assert!(!run.parsed);
    assert!(run.text.is_none());
    assert!(run.result.message.starts_with("Lỗi parse JSON: "));
    let ok = format!("{{\"tracks\": [], \"x\": {}{}}}", "[".repeat(100), "]".repeat(100));
    let run = sync_draft_text("W", &ok, &only(true, false, false)).unwrap();
    assert!(run.parsed);
    assert!(run.result.success);
    assert_eq!(parse(&run.text.unwrap()), parse(&ok));
}
