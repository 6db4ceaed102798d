//! Batch pre-processing of CapCut drafts: aligning video segments with audio,
//! spreading the audio length over still images, and following subtitle timing.
//!
//! A draft is read as [`Draft`]: the tracks, and per segment only what the
//! rules read. The rules do not change the draft themselves; each returns the
//! [`DraftEdit`]s it makes, which [`apply_edits`] performs on the model and
//! `draft_json::write_edits` on the stored draft. Times are in microseconds.

use vstd::prelude::*;
use crate::text::{text_eq, push_char, push_decimal, push_signed, dec_digits, signed_digits};

verus! {

/// How the `target_timerange` entry of a segment stands.
#[derive(Clone, Copy, PartialEq, Eq, Debug)]
pub enum Timerange {
    /// The entry is missing or null.
    Absent,
    /// The entry is an object; `start` and `duration` as signed integers where they are.
    Fields { start: Option<i64>, duration: Option<i64> },
    /// The entry holds another kind of value.
    Unusable,
}

/// What the rules read of one segment.
pub struct Segment {
    /// The segment is an object or null, so its fields can be written.
    pub writable: bool,
    pub timerange: Timerange,
    pub material_type: Option<String>,
    pub media_type: Option<String>,
    pub is_placeholder: Option<bool>,
    /// `source_timerange.duration` as a signed integer, where it is one.
    pub source_duration: Option<i64>,
}

pub struct SegmentView {
    pub writable: bool,
    pub timerange: Timerange,
    pub material_type: Option<Seq<char>>,
    pub media_type: Option<Seq<char>>,
    pub is_placeholder: Option<bool>,
    pub source_duration: Option<i64>,
}

pub open spec fn opt_text(o: Option<String>) -> Option<Seq<char>> {
    match o {
        Some(s) => Some(s@),
        None => None,
    }
}

impl View for Segment {
    type V = SegmentView;

    open spec fn view(&self) -> SegmentView {
        SegmentView {
            writable: self.writable,
            timerange: self.timerange,
            material_type: opt_text(self.material_type),
            media_type: opt_text(self.media_type),
            is_placeholder: self.is_placeholder,
            source_duration: self.source_duration,
        }
    }
}

/// One track: its `type` (empty where it is not a string) and its segments
/// (`None` where `segments` is not an array).
pub struct Track {
    pub kind: String,
    pub segments: Option<Vec<Segment>>,
}

pub struct TrackView {
    pub kind: Seq<char>,
    pub segments: Option<Seq<SegmentView>>,
}

pub open spec fn segments_view(v: Seq<Segment>) -> Seq<SegmentView> {
    v.map_values(|s: Segment| s@)
}

impl View for Track {
    type V = TrackView;

    open spec fn view(&self) -> TrackView {
        TrackView {
            kind: self.kind@,
            segments: match self.segments {
                Some(v) => Some(segments_view(v@)),
                None => None,
            },
        }
    }
}

/// A draft: whether its root can be indexed for writing (an object or null),
/// and its tracks (`None` where `tracks` is not an array).
pub struct Draft {
    pub indexable: bool,
    pub tracks: Option<Vec<Track>>,
}

pub struct DraftView {
    pub indexable: bool,
    pub tracks: Option<Seq<TrackView>>,
}

pub open spec fn tracks_view(v: Seq<Track>) -> Seq<TrackView> {
    v.map_values(|t: Track| t@)
}

impl View for Draft {
    type V = DraftView;

    open spec fn view(&self) -> DraftView {
        DraftView {
            indexable: self.indexable,
            tracks: match self.tracks {
                Some(v) => Some(tracks_view(v@)),
                None => None,
            },
        }
    }
}

/// Which time of a segment an edit writes.
#[derive(Clone, Copy, PartialEq, Eq, Debug)]
pub enum TimeField {
    Start,
    Duration,
}

/// Writes `value` into `target_timerange.<field>` of segment `segment` of track `track`.
#[derive(Clone, Copy, PartialEq, Eq, Debug)]
pub struct DraftEdit {
    pub track: usize,
    pub segment: usize,
    pub field: TimeField,
    pub value: i64,
}

/// What one rule reports: its messages and the edits it makes.
pub struct SyncStep {
    pub messages: Vec<String>,
    pub edits: Vec<DraftEdit>,
}

pub struct SyncStepView {
    pub messages: Seq<Seq<char>>,
    pub edits: Seq<DraftEdit>,
}

pub open spec fn texts_view(v: Seq<String>) -> Seq<Seq<char>> {
    v.map_values(|s: String| s@)
}

impl View for SyncStep {
    type V = SyncStepView;

    open spec fn view(&self) -> SyncStepView {
        SyncStepView { messages: texts_view(self.messages@), edits: self.edits@ }
    }
}

pub open spec fn step_result_view(r: Result<SyncStep, String>) -> Result<SyncStepView, Seq<char>> {
    match r {
        Ok(s) => Ok(s@),
        Err(e) => Err(e@),
    }
}

// ─── Reading segments ────────────────────────────────────────────────────────

/// `target_timerange.duration`, or 0.
pub open spec fn seg_duration(s: SegmentView) -> i64 {
    match s.timerange {
        Timerange::Fields { duration: Some(d), .. } => d,
        _ => 0,
    }
}

/// `target_timerange.start`, or 0.
pub open spec fn seg_start(s: SegmentView) -> i64 {
    match s.timerange {
        Timerange::Fields { start: Some(v), .. } => v,
        _ => 0,
    }
}

/// A still image: marked as a photo, or a non-placeholder whose source lasts 0.
pub open spec fn is_image(s: SegmentView) -> bool {
    s.material_type == Some("photo"@) || s.media_type == Some("photo"@) || (s.is_placeholder
        == Some(false) && (match s.source_duration {
        Some(d) => d,
        None => 1,
    }) == 0)
}

/// Two times differ by more than a millisecond.
pub open spec fn differs(a: int, b: int) -> bool {
    a - b > 1000 || b - a > 1000
}

/// `a - b` neither overflows nor is the one value whose absolute value does.
pub open spec fn diff_fits(a: i64, b: i64) -> bool {
    i64::MIN < a - b <= i64::MAX
}

pub open spec fn seg_list(t: TrackView) -> Seq<SegmentView> {
    match t.segments {
        Some(s) => s,
        None => seq![],
    }
}

pub open spec fn durations(segs: Seq<SegmentView>) -> Seq<i64> {
    segs.map_values(|s: SegmentView| seg_duration(s))
}

/// The durations of all segments of the tracks of type `kind`, in order.
pub open spec fn kind_durations(tracks: Seq<TrackView>, kind: Seq<char>) -> Seq<i64>
    decreases tracks.len(),
{
    if tracks.len() == 0 {
        seq![]
    } else {
        kind_durations(tracks.drop_last(), kind) + if tracks.last().kind == kind {
            durations(seg_list(tracks.last()))
        } else {
            seq![]
        }
    }
}

pub fn seg_duration_of(s: &Segment) -> (d: i64)
    ensures
        d == seg_duration(s@),
{
    match s.timerange {
        Timerange::Fields { duration: Some(d), .. } => d,
        _ => 0,
    }
}

pub fn seg_start_of(s: &Segment) -> (v: i64)
    ensures
        v == seg_start(s@),
{
    match s.timerange {
        Timerange::Fields { start: Some(v), .. } => v,
        _ => 0,
    }
}

fn is_photo(o: &Option<String>) -> (r: bool)
    ensures
        r == (opt_text(*o) == Some("photo"@)),
{
    match o {
        Some(m) => text_eq(m.as_str(), "photo"),
        None => false,
    }
}

/// Whether a segment is a still image.
pub fn is_image_segment(s: &Segment) -> (r: bool)
    ensures
        r == is_image(s@),
{
    is_photo(&s.material_type) || is_photo(&s.media_type) || (match s.is_placeholder {
        Some(b) => !b,
        None => false,
    } && match s.source_duration {
        Some(d) => d,
        None => 1,
    } == 0)
}

pub fn differs_by_more_than_ms(a: i64, b: i64) -> (r: bool)
    ensures
        r == differs(a as int, b as int),
{
    let d = (a as i128) - (b as i128);
    d > 1000 || d < -1000
}

/// The durations of all segments of the tracks of type `kind`.
pub fn collect_durations(tracks: &Vec<Track>, kind: &str) -> (r: Vec<i64>)
    ensures
        r@ == kind_durations(tracks_view(tracks@), kind@),
{
    let mut out: Vec<i64> = Vec::new();
    let mut ti: usize = 0;
    while ti < tracks.len()
        invariant
            ti <= tracks@.len(),
            out@ == kind_durations(tracks_view(tracks@).take(ti as int), kind@),
        decreases tracks@.len() - ti,
    {
        let t = &tracks[ti];
        let ghost before = out@;
        if text_eq(t.kind.as_str(), kind) {
            match &t.segments {
                Some(segs) => {
                    let mut i: usize = 0;
                    while i < segs.len()
                        invariant
                            i <= segs@.len(),
                            out@ == before + durations(segments_view(segs@)).take(i as int),
                        decreases segs@.len() - i,
                    {
                        out.push(seg_duration_of(&segs[i]));
                        i = i + 1;
                        assert(out@ =~= before + durations(segments_view(segs@)).take(i as int));
                    }
                    assert(durations(segments_view(segs@)).take(i as int) =~= durations(segments_view(segs@)));
                },
                None => {
                    assert(out@ =~= before + seq![]);
                },
            }
        }
        proof {
            let tv = tracks_view(tracks@);
            assert(tv.take(ti + 1).drop_last() =~= tv.take(ti as int));
        }
        ti = ti + 1;
    }
    assert(tracks_view(tracks@).take(ti as int) =~= tracks_view(tracks@));
    out
}

// ─── Video/audio: each video segment takes the length of the audio segment at its position ─

pub open spec fn duration_edit(ti: int, i: int, v: i64) -> DraftEdit {
    DraftEdit { track: ti as usize, segment: i as usize, field: TimeField::Duration, value: v }
}

pub open spec fn min_int(a: int, b: int) -> int {
    if a < b { a } else { b }
}

/// Retimings among the first `n` segments of video track `ti`: (edit, old duration).
pub open spec fn va_seg_changes(ti: int, segs: Seq<SegmentView>, audio: Seq<i64>, n: int) -> Seq<(DraftEdit, i64)>
    decreases n,
{
    if n <= 0 {
        seq![]
    } else {
        let prev = va_seg_changes(ti, segs, audio, n - 1);
        let cur = seg_duration(segs[n - 1]);
        if differs(cur as int, audio[n - 1] as int) {
            prev.push((duration_edit(ti, n - 1, audio[n - 1]), cur))
        } else {
            prev
        }
    }
}

pub open spec fn va_limit(t: TrackView, min_count: int) -> int {
    min_int(min_count, seg_list(t).len() as int)
}

pub open spec fn va_track_changes(ts: Seq<TrackView>, ti: int, audio: Seq<i64>, min_count: int) -> Seq<(DraftEdit, i64)> {
    if ts[ti].kind == "video"@ && ts[ti].segments is Some {
        va_seg_changes(ti, seg_list(ts[ti]), audio, va_limit(ts[ti], min_count))
    } else {
        seq![]
    }
}

/// Retimings made in the first `k` tracks.
pub open spec fn va_changes(ts: Seq<TrackView>, k: int, audio: Seq<i64>, min_count: int) -> Seq<(DraftEdit, i64)>
    decreases k,
{
    if k <= 0 {
        seq![]
    } else {
        va_changes(ts, k - 1, audio, min_count) + va_track_changes(ts, k - 1, audio, min_count)
    }
}

pub open spec fn va_text(i: nat, old: int, new: int) -> Seq<char> {
    "Sync V/A: segment "@ + dec_digits(i) + " "@ + signed_digits(old) + "μs → "@ + signed_digits(new) + "μs"@
}

pub open spec fn va_message(c: (DraftEdit, i64)) -> Seq<char> {
    va_text(c.0.segment as nat, c.1 as int, c.0.value as int)
}

pub open spec fn edits_of<T>(ch: Seq<(DraftEdit, T)>) -> Seq<DraftEdit> {
    ch.map_values(|c: (DraftEdit, T)| c.0)
}

/// The video/audio rule: with audio present, the `i`-th segment of every video track
/// (for `i` below the smaller of the number of video and of audio segments) takes the
/// duration of the `i`-th audio segment when the two differ by more than 1 ms.
pub open spec fn spec_sync_video_audio(d: DraftView) -> Result<SyncStepView, Seq<char>> {
    match d.tracks {
        None => Err("Không tìm thấy tracks"@),
        Some(ts) => {
            let video = kind_durations(ts, "video"@);
            let audio = kind_durations(ts, "audio"@);
            if audio.len() == 0 {
                Ok(SyncStepView { messages: seq!["Sync V/A: Không có audio track"@], edits: seq![] })
            } else {
                let ch = va_changes(ts, ts.len() as int, audio, min_int(video.len() as int, audio.len() as int));
                Ok(
                    SyncStepView {
                        messages: if ch.len() == 0 {
                            seq!["Sync V/A: Đã đồng bộ (không cần thay đổi)"@]
                        } else {
                            ch.map_values(|c: (DraftEdit, i64)| va_message(c))
                        },
                        edits: edits_of(ch),
                    },
                )
            }
        },
    }
}

/// The video/audio rule's comparisons stay within `i64`.
pub open spec fn va_arith_ok(d: DraftView) -> bool {
    match d.tracks {
        None => true,
        Some(ts) => {
            let audio = kind_durations(ts, "audio"@);
            let mc = min_int(kind_durations(ts, "video"@).len() as int, audio.len() as int);
            forall|ti: int, i: int|
                0 <= ti < ts.len() && ts[ti].kind == "video"@ && 0 <= i < va_limit(ts[ti], mc)
                    ==> diff_fits(#[trigger] seg_list(ts[ti])[i].timerange_duration(), audio[i])
        },
    }
}

impl SegmentView {
    pub open spec fn timerange_duration(self) -> i64 {
        seg_duration(self)
    }
}

fn va_text_of(i: usize, old: i64, new: i64) -> (m: String)
    ensures
        m@ == va_text(i as nat, old as int, new as int),
{
    let mut m = String::from_str("Sync V/A: segment ");
    push_decimal(&mut m, i as u64);
    m.append(" ");
    push_signed(&mut m, old);
    m.append("μs → ");
    push_signed(&mut m, new);
    m.append("μs");
    m
}

/// Aligns video segments with audio segments one to one.
pub fn sync_video_audio(draft: &Draft) -> (r: Result<SyncStep, String>)
    requires
        va_arith_ok(draft@),
    ensures
        step_result_view(r) == spec_sync_video_audio(draft@),
{
    match &draft.tracks {
        None => Err(String::from_str("Không tìm thấy tracks")),
        Some(tracks) => {
            let ghost ts = tracks_view(tracks@);
            let video = collect_durations(tracks, "video");
            let audio = collect_durations(tracks, "audio");
            if audio.len() == 0 {
                let mut messages: Vec<String> = Vec::new();
                messages.push(String::from_str("Sync V/A: Không có audio track"));
                let r = SyncStep { messages, edits: Vec::new() };
                assert(r@.messages =~= seq!["Sync V/A: Không có audio track"@]);
                assert(r@.edits =~= seq![]);
                return Ok(r);
            }
            let min_count = if video.len() < audio.len() { video.len() } else { audio.len() };
            let mut messages: Vec<String> = Vec::new();
            let mut edits: Vec<DraftEdit> = Vec::new();
            let mut ti: usize = 0;
            while ti < tracks.len()
                invariant
                    ts == tracks_view(tracks@),
                    audio@ == kind_durations(ts, "audio"@),
                    min_count == min_int(kind_durations(ts, "video"@).len() as int, audio@.len() as int),
                    va_arith_ok(DraftView { indexable: draft.indexable, tracks: Some(ts) }),
                    ti <= tracks@.len(),
                    texts_view(messages@) == va_changes(ts, ti as int, audio@, min_count as int).map_values(|c: (DraftEdit, i64)| va_message(c)),
                    edits@ == edits_of(va_changes(ts, ti as int, audio@, min_count as int)),
                decreases tracks@.len() - ti,
            {
                let t = &tracks[ti];
                let ghost ch0 = va_changes(ts, ti as int, audio@, min_count as int);
                if text_eq(t.kind.as_str(), "video") {
                    match &t.segments {
                        Some(segs) => {
                            let ghost sv = segments_view(segs@);
                            let limit = if min_count < segs.len() { min_count } else { segs.len() };
                            let mut i: usize = 0;
                            while i < limit
                                invariant
                                    ts == tracks_view(tracks@),
                                    0 <= ti < ts.len(),
                                    ts[ti as int].kind == "video"@,
                                    sv == seg_list(ts[ti as int]),
                                    sv == segments_view(segs@),
                                    audio@ == kind_durations(ts, "audio"@),
                                    min_count == min_int(kind_durations(ts, "video"@).len() as int, audio@.len() as int),
                                    limit == va_limit(ts[ti as int], min_count as int),
                                    va_arith_ok(DraftView { indexable: draft.indexable, tracks: Some(ts) }),
                                    i <= limit,
                                    texts_view(messages@) == (ch0 + va_seg_changes(ti as int, sv, audio@, i as int)).map_values(|c: (DraftEdit, i64)| va_message(c)),
                                    edits@ == edits_of(ch0 + va_seg_changes(ti as int, sv, audio@, i as int)),
                                decreases limit - i,
                            {
                                let cur = seg_duration_of(&segs[i]);
                                let want = audio[i];
                                let ghost prev = ch0 + va_seg_changes(ti as int, sv, audio@, i as int);
                                if differs_by_more_than_ms(cur, want) {
                                    let e = DraftEdit { track: ti, segment: i, field: TimeField::Duration, value: want };
                                    let m = va_text_of(i, cur, want);
                                    let ghost old_msgs = messages@;
                                    messages.push(m);
                                    edits.push(e);
                                    proof {
                                        let c = (duration_edit(ti as int, i as int, want), cur);
                                        assert(ch0 + va_seg_changes(ti as int, sv, audio@, i + 1) =~= prev.push(c));
                                        assert(va_message(c) == m@);
                                        assert(texts_view(messages@) =~= texts_view(old_msgs).push(m@));
                                        assert(texts_view(messages@) =~= prev.push(c).map_values(|c: (DraftEdit, i64)| va_message(c)));
                                        assert(edits@ =~= edits_of(prev.push(c)));
                                    }
                                } else {
                                    assert(ch0 + va_seg_changes(ti as int, sv, audio@, i + 1) =~= prev);
                                }
                                i = i + 1;
                            }
                        },
                        None => {},
                    }
                }
                proof {
                    assert(va_changes(ts, ti + 1, audio@, min_count as int) == ch0 + va_track_changes(ts, ti as int, audio@, min_count as int));
                    if !(ts[ti as int].kind == "video"@ && ts[ti as int].segments is Some) {
                        assert(ch0 + va_track_changes(ts, ti as int, audio@, min_count as int) =~= ch0);
                    }
                }
                ti = ti + 1;
            }
            let ghost ch = va_changes(ts, ts.len() as int, audio@, min_count as int);
            if messages.len() == 0 {
                messages.push(String::from_str("Sync V/A: Đã đồng bộ (không cần thay đổi)"));
                assert(texts_view(messages@) =~= seq!["Sync V/A: Đã đồng bộ (không cần thay đổi)"@]);
            }
            Ok(SyncStep { messages, edits })
        },
    }
}

// ─── Image duration: the audio length is spread over the still images ────────

/// The sum of a sequence of times.
pub open spec fn seq_sum(s: Seq<i64>) -> int
    decreases s.len(),
{
    if s.len() == 0 {
        0
    } else {
        seq_sum(s.drop_last()) + s.last()
    }
}

/// Every running sum, taken left to right, fits in `i64`.
pub open spec fn prefix_sums_fit(s: Seq<i64>) -> bool {
    forall|k: int| 0 <= k <= s.len() ==> i64::MIN <= #[trigger] seq_sum(s.take(k)) <= i64::MAX
}

/// The durations of the still images among `segs`, in order.
pub open spec fn image_durations(segs: Seq<SegmentView>) -> Seq<i64>
    decreases segs.len(),
{
    if segs.len() == 0 {
        seq![]
    } else {
        image_durations(segs.drop_last()) + if is_image(segs.last()) {
            seq![seg_duration(segs.last())]
        } else {
            seq![]
        }
    }
}

/// The durations of the still images of all video tracks, in order.
pub open spec fn video_image_durations(ts: Seq<TrackView>) -> Seq<i64>
    decreases ts.len(),
{
    if ts.len() == 0 {
        seq![]
    } else {
        video_image_durations(ts.drop_last()) + if ts.last().kind == "video"@ {
            image_durations(seg_list(ts.last()))
        } else {
            seq![]
        }
    }
}

/// Division of Rust's signed integers (rounding toward zero), for a positive divisor.
pub open spec fn trunc_div(a: int, b: int) -> int {
    if a >= 0 { a / b } else { -((-a) / b) }
}

/// Remainder of Rust's signed integers (sign of the dividend), for a positive divisor.
pub open spec fn trunc_rem(a: int, b: int) -> int {
    if a >= 0 { a % b } else { -((-a) % b) }
}

/// The position, among all still images of the video tracks, of segment `i` of track `ti`.
pub open spec fn image_index(ts: Seq<TrackView>, ti: int, i: int) -> int {
    (video_image_durations(ts.take(ti)).len() + image_durations(seg_list(ts[ti]).take(i)).len()) as int
}

/// The duration the image at position `idx` is given: an equal share, the first
/// image also taking the remainder.
pub open spec fn image_share(idx: int, per: int, rem: int) -> int {
    per + if idx == 0 { rem } else { 0 }
}

/// Retimings among the first `n` segments of video track `ti`: (edit, old duration, image position).
pub open spec fn img_seg_changes(ts: Seq<TrackView>, ti: int, n: int, per: int, rem: int) -> Seq<(DraftEdit, i64, int)>
    decreases n,
{
    if n <= 0 {
        seq![]
    } else {
        let prev = img_seg_changes(ts, ti, n - 1, per, rem);
        let s = seg_list(ts[ti])[n - 1];
        let idx = image_index(ts, ti, n - 1);
        let new = image_share(idx, per, rem);
        if is_image(s) && differs(seg_duration(s) as int, new) {
            prev.push((duration_edit(ti, n - 1, new as i64), seg_duration(s), idx))
        } else {
            prev
        }
    }
}

pub open spec fn img_track_changes(ts: Seq<TrackView>, ti: int, per: int, rem: int) -> Seq<(DraftEdit, i64, int)> {
    if ts[ti].kind == "video"@ && ts[ti].segments is Some {
        img_seg_changes(ts, ti, seg_list(ts[ti]).len() as int, per, rem)
    } else {
        seq![]
    }
}

pub open spec fn img_changes(ts: Seq<TrackView>, k: int, per: int, rem: int) -> Seq<(DraftEdit, i64, int)>
    decreases k,
{
    if k <= 0 {
        seq![]
    } else {
        img_changes(ts, k - 1, per, rem) + img_track_changes(ts, k - 1, per, rem)
    }
}

pub open spec fn img_text(idx: nat, old: int, new: int) -> Seq<char> {
    "Sync Img #"@ + dec_digits(idx) + ": "@ + signed_digits(old) + "μs → "@ + signed_digits(new) + "μs"@
}

pub open spec fn img_message(c: (DraftEdit, i64, int)) -> Seq<char> {
    img_text(c.2 as nat, c.1 as int, c.0.value as int)
}

pub open spec fn edits_of3<T, U>(ch: Seq<(DraftEdit, T, U)>) -> Seq<DraftEdit> {
    ch.map_values(|c: (DraftEdit, T, U)| c.0)
}

pub open spec fn single_step(m: Seq<char>) -> SyncStepView {
    SyncStepView { messages: seq![m], edits: seq![] }
}

/// The image rule: the total audio length is divided evenly (rounding toward zero)
/// over the still images of the video tracks, the first image taking the remainder;
/// an image is retimed when its duration differs from its share by more than 1 ms.
pub open spec fn spec_sync_image_duration(d: DraftView) -> Result<SyncStepView, Seq<char>> {
    match d.tracks {
        None => Err("Không tìm thấy tracks"@),
        Some(ts) => {
            let total_audio = seq_sum(kind_durations(ts, "audio"@));
            let images = video_image_durations(ts);
            let total_image = seq_sum(images);
            if total_audio == 0 {
                Ok(single_step("Sync Img Duration: Không có audio"@))
            } else if images.len() == 0 {
                Ok(single_step("Sync Img Duration: Không có ảnh trong timeline"@))
            } else if !differs(total_image, total_audio) {
                Ok(single_step("Sync Img Duration: Đã khớp"@))
            } else {
                let per = trunc_div(total_audio, images.len() as int);
                let rem = trunc_rem(total_audio, images.len() as int);
                let ch = img_changes(ts, ts.len() as int, per, rem);
                Ok(
                    SyncStepView {
                        messages: if ch.len() == 0 {
                            seq!["Sync Img Duration: Không cần thay đổi"@]
                        } else {
                            ch.map_values(|c: (DraftEdit, i64, int)| img_message(c))
                        },
                        edits: edits_of3(ch),
                    },
                )
            }
        },
    }
}

/// The image rule's sums and comparisons stay within `i64`.
pub open spec fn img_arith_ok(d: DraftView) -> bool {
    match d.tracks {
        None => true,
        Some(ts) => {
            let audio = kind_durations(ts, "audio"@);
            let images = video_image_durations(ts);
            let per = trunc_div(seq_sum(audio), images.len() as int);
            let rem = trunc_rem(seq_sum(audio), images.len() as int);
            &&& prefix_sums_fit(audio)
            &&& seq_sum(audio) != 0 ==> prefix_sums_fit(images)
            &&& seq_sum(audio) != 0 && images.len() > 0 ==> diff_fits(seq_sum(images) as i64, seq_sum(audio) as i64)
            &&& seq_sum(audio) != 0 && images.len() > 0 && differs(seq_sum(images), seq_sum(audio)) ==> forall|ti: int, i: int|
                0 <= ti < ts.len() && ts[ti].kind == "video"@ && 0 <= i < seg_list(ts[ti]).len() && is_image(seg_list(ts[ti])[i])
                    ==> diff_fits(#[trigger] seg_list(ts[ti])[i].timerange_duration(), image_share(image_index(ts, ti, i), per, rem) as i64)
        },
    }
}

/// Sums times left to right.
pub fn sum_times(v: &Vec<i64>) -> (r: i64)
    requires
        prefix_sums_fit(v@),
    ensures
        r == seq_sum(v@),
{
    let mut total: i64 = 0;
    let mut i: usize = 0;
    while i < v.len()
        invariant
            i <= v@.len(),
            prefix_sums_fit(v@),
            total == seq_sum(v@.take(i as int)),
        decreases v@.len() - i,
    {
        assert(v@.take(i + 1).drop_last() =~= v@.take(i as int));
        assert(i64::MIN <= seq_sum(v@.take(i + 1)) <= i64::MAX);
        total = total + v[i];
        i = i + 1;
    }
    assert(v@.take(i as int) =~= v@);
    total
}

/// The durations of the still images of all video tracks.
pub fn collect_image_durations(tracks: &Vec<Track>) -> (r: Vec<i64>)
    ensures
        r@ == video_image_durations(tracks_view(tracks@)),
{
    let ghost ts = tracks_view(tracks@);
    let mut out: Vec<i64> = Vec::new();
    let mut ti: usize = 0;
    while ti < tracks.len()
        invariant
            ts == tracks_view(tracks@),
            ti <= tracks@.len(),
            out@ == video_image_durations(ts.take(ti as int)),
        decreases tracks@.len() - ti,
    {
        let t = &tracks[ti];
        let ghost before = out@;
        if text_eq(t.kind.as_str(), "video") {
            match &t.segments {
                Some(segs) => {
                    let ghost sv = segments_view(segs@);
                    let mut i: usize = 0;
                    while i < segs.len()
                        invariant
                            sv == segments_view(segs@),
                            i <= segs@.len(),
                            out@ == before + image_durations(sv.take(i as int)),
                        decreases segs@.len() - i,
                    {
                        assert(sv.take(i + 1).drop_last() =~= sv.take(i as int));
                        if is_image_segment(&segs[i]) {
                            out.push(seg_duration_of(&segs[i]));
                        }
                        i = i + 1;
                        assert(out@ =~= before + image_durations(sv.take(i as int)));
                    }
                    assert(sv.take(i as int) =~= sv);
                },
                None => {
                    assert(out@ =~= before + image_durations(seq![]));
                },
            }
        }
        assert(ts.take(ti + 1).drop_last() =~= ts.take(ti as int));
        ti = ti + 1;
    }
    assert(ts.take(ti as int) =~= ts);
    out
}

proof fn lemma_share_bounds(t: int, c: int)
    requires
        c >= 1,
        i64::MIN <= t <= i64::MAX,
    ensures
        i64::MIN <= trunc_div(t, c) <= i64::MAX,
        i64::MIN <= trunc_rem(t, c) <= i64::MAX,
        i64::MIN <= trunc_div(t, c) + trunc_rem(t, c) <= i64::MAX,
{
    if t >= 0 {
        let q = t / c;
        let r = t % c;
        assert(t == c * q + r && 0 <= r < c) by (nonlinear_arith)
            requires c >= 1, t >= 0, q == t / c, r == t % c;
        assert(0 <= q <= t) by (nonlinear_arith)
            requires c >= 1, t >= 0, t == c * q + r, 0 <= r < c;
        assert(q + r <= t) by (nonlinear_arith)
            requires c >= 1, q >= 0, t == c * q + r;
    } else {
        let u = -t;
        let q = u / c;
        let r = u % c;
        assert(u == c * q + r && 0 <= r < c) by (nonlinear_arith)
            requires c >= 1, u >= 0, q == u / c, r == u % c;
        assert(0 <= q <= u) by (nonlinear_arith)
            requires c >= 1, u >= 0, u == c * q + r, 0 <= r < c;
        assert(q + r <= u) by (nonlinear_arith)
            requires c >= 1, q >= 0, u == c * q + r;
    }
}


proof fn lemma_image_durations_prefix(segs: Seq<SegmentView>, j: int)
    requires
        0 <= j <= segs.len(),
    ensures
        image_durations(segs.take(j)).len() <= image_durations(segs).len(),
    decreases segs.len() - j,
{
    if j < segs.len() {
        lemma_image_durations_prefix(segs, j + 1);
        assert(segs.take(j + 1).drop_last() =~= segs.take(j));
    } else {
        assert(segs.take(j) =~= segs);
    }
}

proof fn lemma_video_images_prefix(ts: Seq<TrackView>, k: int)
    requires
        0 <= k <= ts.len(),
    ensures
        video_image_durations(ts.take(k)).len() <= video_image_durations(ts).len(),
    decreases ts.len() - k,
{
    if k < ts.len() {
        lemma_video_images_prefix(ts, k + 1);
        assert(ts.take(k + 1).drop_last() =~= ts.take(k));
    } else {
        assert(ts.take(k) =~= ts);
    }
}

proof fn lemma_image_prefix_bound(ts: Seq<TrackView>, ti: int, i: int)
    requires
        0 <= ti < ts.len(),
        ts[ti].kind == "video"@,
        0 <= i < seg_list(ts[ti]).len(),
        is_image(seg_list(ts[ti])[i]),
    ensures
        video_image_durations(ts.take(ti)).len() + image_durations(seg_list(ts[ti]).take(i)).len()
            < video_image_durations(ts).len(),
{
    let segs = seg_list(ts[ti]);
    assert(segs.take(i + 1).drop_last() =~= segs.take(i));
    lemma_image_durations_prefix(segs, i + 1);
    assert(ts.take(ti + 1).drop_last() =~= ts.take(ti));
    lemma_video_images_prefix(ts, ti + 1);
}

fn img_text_of(idx: usize, old: i64, new: i64) -> (m: String)
    ensures
        m@ == img_text(idx as nat, old as int, new as int),
{
    let mut m = String::from_str("Sync Img #");
    push_decimal(&mut m, idx as u64);
    m.append(": ");
    push_signed(&mut m, old);
    m.append("μs → ");
    push_signed(&mut m, new);
    m.append("μs");
    m
}

fn one_message(text: &str) -> (r: SyncStep)
    ensures
        r@ == single_step(text@),
{
    let mut messages: Vec<String> = Vec::new();
    messages.push(String::from_str(text));
    let r = SyncStep { messages, edits: Vec::new() };
    assert(r@.messages =~= seq![text@]);
    assert(r@.edits =~= seq![]);
    r
}

/// Stretches the still images so that together they last as long as the audio.
pub fn sync_image_duration(draft: &Draft) -> (r: Result<SyncStep, String>)
    requires
        img_arith_ok(draft@),
    ensures
        step_result_view(r) == spec_sync_image_duration(draft@),
{
    match &draft.tracks {
        None => Err(String::from_str("Không tìm thấy tracks")),
        Some(tracks) => {
            let ghost ts = tracks_view(tracks@);
            let audio = collect_durations(tracks, "audio");
            let total_audio = sum_times(&audio);
            if total_audio == 0 {
                return Ok(one_message("Sync Img Duration: Không có audio"));
            }
            let images = collect_image_durations(tracks);
            let total_image = sum_times(&images);
            let image_count = images.len();
            if image_count == 0 {
                return Ok(one_message("Sync Img Duration: Không có ảnh trong timeline"));
            }
            if !differs_by_more_than_ms(total_image, total_audio) {
                return Ok(one_message("Sync Img Duration: Đã khớp"));
            }
            proof {
                lemma_share_bounds(total_audio as int, image_count as int);
            }
            let t = total_audio as i128;
            let c = image_count as i128;
            let per128: i128 = if t >= 0 { t / c } else { -((-t) / c) };
            let rem128: i128 = if t >= 0 { t % c } else { -((-t) % c) };
            let per = per128 as i64;
            let rem = rem128 as i64;
            let ghost gper = trunc_div(total_audio as int, image_count as int);
            let ghost grem = trunc_rem(total_audio as int, image_count as int);
            assert(per == gper && rem == grem);
            let mut messages: Vec<String> = Vec::new();
            let mut edits: Vec<DraftEdit> = Vec::new();
            let mut idx: usize = 0;
            let mut ti: usize = 0;
            while ti < tracks.len()
                invariant
                    ts == tracks_view(tracks@),
                    img_arith_ok(DraftView { indexable: draft.indexable, tracks: Some(ts) }),
                    seq_sum(kind_durations(ts, "audio"@)) == total_audio,
                    total_audio != 0,
                    image_count == video_image_durations(ts).len(),
                    image_count > 0,
                    differs(seq_sum(video_image_durations(ts)), total_audio as int),
                    per == gper,
                    rem == grem,
                    gper == trunc_div(total_audio as int, image_count as int),
                    grem == trunc_rem(total_audio as int, image_count as int),
                    i64::MIN <= gper + grem <= i64::MAX,
                    ti <= tracks@.len(),
                    idx == video_image_durations(ts.take(ti as int)).len(),
                    texts_view(messages@) == img_changes(ts, ti as int, gper, grem).map_values(|c: (DraftEdit, i64, int)| img_message(c)),
                    edits@ == edits_of3(img_changes(ts, ti as int, gper, grem)),
                decreases tracks@.len() - ti,
            {
                let t = &tracks[ti];
                let ghost ch0 = img_changes(ts, ti as int, gper, grem);
                let ghost idx0 = idx as int;
                assert(ts.take(ti + 1).drop_last() =~= ts.take(ti as int));
                if text_eq(t.kind.as_str(), "video") {
                    match &t.segments {
                        Some(segs) => {
                            let ghost sv = segments_view(segs@);
                            let mut i: usize = 0;
                            while i < segs.len()
                                invariant
                                    ts == tracks_view(tracks@),
                                    0 <= ti < ts.len(),
                                    ts[ti as int].kind == "video"@,
                                    ts[ti as int].segments is Some,
                                    sv == seg_list(ts[ti as int]),
                                    sv == segments_view(segs@),
                                    img_arith_ok(DraftView { indexable: draft.indexable, tracks: Some(ts) }),
                                    seq_sum(kind_durations(ts, "audio"@)) == total_audio,
                                    total_audio != 0,
                                    image_count == video_image_durations(ts).len(),
                                    image_count > 0,
                                    differs(seq_sum(video_image_durations(ts)), total_audio as int),
                                    per == gper,
                                    rem == grem,
                                    gper == trunc_div(total_audio as int, image_count as int),
                                    grem == trunc_rem(total_audio as int, image_count as int),
                                    i64::MIN <= gper + grem <= i64::MAX,
                                    i <= segs@.len(),
                                    idx0 == video_image_durations(ts.take(ti as int)).len(),
                                    idx == idx0 + image_durations(sv.take(i as int)).len(),
                                    texts_view(messages@) == (ch0 + img_seg_changes(ts, ti as int, i as int, gper, grem)).map_values(|c: (DraftEdit, i64, int)| img_message(c)),
                                    edits@ == edits_of3(ch0 + img_seg_changes(ts, ti as int, i as int, gper, grem)),
                                decreases segs@.len() - i,
                            {
                                let ghost prev = ch0 + img_seg_changes(ts, ti as int, i as int, gper, grem);
                                assert(sv.take(i + 1).drop_last() =~= sv.take(i as int));
                                assert(image_index(ts, ti as int, i as int) == idx);
                                if is_image_segment(&segs[i]) {
                                    let new: i64 = if idx == 0 { per + rem } else { per };
                                    let old = seg_duration_of(&segs[i]);
                                    assert(image_count <= usize::MAX);
                                    if differs_by_more_than_ms(old, new) {
                                        let m = img_text_of(idx, old, new);
                                        let ghost old_msgs = messages@;
                                        messages.push(m);
                                        edits.push(DraftEdit { track: ti, segment: i, field: TimeField::Duration, value: new });
                                        proof {
                                            let c = (duration_edit(ti as int, i as int, new), old, idx as int);
                                            assert(ch0 + img_seg_changes(ts, ti as int, i + 1, gper, grem) =~= prev.push(c));
                                            assert(img_message(c) == m@);
                                            assert(texts_view(messages@) =~= texts_view(old_msgs).push(m@));
                                            assert(texts_view(messages@) =~= prev.push(c).map_values(|c: (DraftEdit, i64, int)| img_message(c)));
                                            assert(edits@ =~= edits_of3(prev.push(c)));
                                        }
                                    } else {
                                        assert(ch0 + img_seg_changes(ts, ti as int, i + 1, gper, grem) =~= prev);
                                    }
                                    assert(video_image_durations(ts.take(ti as int)).len() + image_durations(sv.take(i as int)).len() < image_count) by {
                                        lemma_image_prefix_bound(ts, ti as int, i as int);
                                    }
                                    idx = idx + 1;
                                } else {
                                    assert(ch0 + img_seg_changes(ts, ti as int, i + 1, gper, grem) =~= prev);
                                }
                                i = i + 1;
                            }
                            assert(sv.take(i as int) =~= sv);
                        },
                        None => {},
                    }
                }
                proof {
                    if !(ts[ti as int].kind == "video"@ && ts[ti as int].segments is Some) {
                        assert(ch0 + img_track_changes(ts, ti as int, gper, grem) =~= ch0);
                    }
                }
                ti = ti + 1;
            }
            if messages.len() == 0 {
                messages.push(String::from_str("Sync Img Duration: Không cần thay đổi"));
                assert(texts_view(messages@) =~= seq!["Sync Img Duration: Không cần thay đổi"@]);
            }
            Ok(SyncStep { messages, edits })
        },
    }
}

// ─── Subtitles: video segments follow the subtitle timing ────────────────────

/// (start, duration) of the segments with a positive duration.
pub open spec fn timed_entries(segs: Seq<SegmentView>) -> Seq<(i64, i64)>
    decreases segs.len(),
{
    if segs.len() == 0 {
        seq![]
    } else {
        timed_entries(segs.drop_last()) + if seg_duration(segs.last()) > 0 {
            seq![(seg_start(segs.last()), seg_duration(segs.last()))]
        } else {
            seq![]
        }
    }
}

pub open spec fn is_subtitle_kind(k: Seq<char>) -> bool {
    k == "text"@ || k == "subtitle"@
}

/// The timed entries of all text and subtitle tracks, in track order.
pub open spec fn subtitle_entries(ts: Seq<TrackView>) -> Seq<(i64, i64)>
    decreases ts.len(),
{
    if ts.len() == 0 {
        seq![]
    } else {
        subtitle_entries(ts.drop_last()) + if is_subtitle_kind(ts.last().kind) {
            timed_entries(seg_list(ts.last()))
        } else {
            seq![]
        }
    }
}

/// Places `x` after every entry whose start is not later than its own.
pub open spec fn insert_by_start(s: Seq<(i64, i64)>, x: (i64, i64)) -> Seq<(i64, i64)>
    decreases s.len(),
{
    if s.len() == 0 {
        seq![x]
    } else if s.last().0 <= x.0 {
        s.push(x)
    } else {
        insert_by_start(s.drop_last(), x).push(s.last())
    }
}

/// Stable sort by start time.
pub open spec fn sort_by_start(s: Seq<(i64, i64)>) -> Seq<(i64, i64)>
    decreases s.len(),
{
    if s.len() == 0 {
        seq![]
    } else {
        insert_by_start(sort_by_start(s.drop_last()), s.last())
    }
}

/// The number of segments in the video tracks.
pub open spec fn video_segment_total(ts: Seq<TrackView>) -> int
    decreases ts.len(),
{
    if ts.len() == 0 {
        0
    } else {
        video_segment_total(ts.drop_last()) + if ts.last().kind == "video"@ {
            seg_list(ts.last()).len() as int
        } else {
            0
        }
    }
}

/// A subtitle alignment: track, segment, subtitle position, old and new start, old and new duration.
pub type SubChange = (int, int, int, i64, i64, i64, i64);

/// Alignments among the first `n` segments of video track `ti`.
pub open spec fn sub_seg_changes(ts: Seq<TrackView>, ti: int, n: int, subs: Seq<(i64, i64)>) -> Seq<SubChange>
    decreases n,
{
    if n <= 0 {
        seq![]
    } else {
        let prev = sub_seg_changes(ts, ti, n - 1, subs);
        let s = seg_list(ts[ti])[n - 1];
        let j = video_segment_total(ts.take(ti)) + n - 1;
        if j < subs.len() && (differs(seg_start(s) as int, subs[j].0 as int) || differs(
            seg_duration(s) as int,
            subs[j].1 as int,
        )) {
            prev.push((ti, n - 1, j, seg_start(s), subs[j].0, seg_duration(s), subs[j].1))
        } else {
            prev
        }
    }
}

pub open spec fn sub_track_changes(ts: Seq<TrackView>, ti: int, subs: Seq<(i64, i64)>) -> Seq<SubChange> {
    if ts[ti].kind == "video"@ && ts[ti].segments is Some {
        sub_seg_changes(ts, ti, seg_list(ts[ti]).len() as int, subs)
    } else {
        seq![]
    }
}

pub open spec fn sub_changes(ts: Seq<TrackView>, k: int, subs: Seq<(i64, i64)>) -> Seq<SubChange>
    decreases k,
{
    if k <= 0 {
        seq![]
    } else {
        sub_changes(ts, k - 1, subs) + sub_track_changes(ts, k - 1, subs)
    }
}

pub open spec fn sub_text(j: nat, cs: int, ss: int, cd: int, sd: int) -> Seq<char> {
    "Sync Sub #"@ + dec_digits(j) + ": start "@ + signed_digits(cs) + "→"@ + signed_digits(ss) + " dur "@
        + signed_digits(cd) + "→"@ + signed_digits(sd)
}

pub open spec fn sub_message(c: SubChange) -> Seq<char> {
    sub_text(c.2 as nat, c.3 as int, c.4 as int, c.5 as int, c.6 as int)
}

/// Each alignment writes the start, then the duration.
pub open spec fn sub_edits(ch: Seq<SubChange>) -> Seq<DraftEdit>
    decreases ch.len(),
{
    if ch.len() == 0 {
        seq![]
    } else {
        let c = ch.last();
        sub_edits(ch.drop_last()) + seq![
            DraftEdit { track: c.0 as usize, segment: c.1 as usize, field: TimeField::Start, value: c.4 },
            DraftEdit { track: c.0 as usize, segment: c.1 as usize, field: TimeField::Duration, value: c.6 },
        ]
    }
}

/// The subtitle rule: the timed subtitle entries, sorted by start (stably), are laid
/// over the video segments in order; the `j`-th video segment takes the start and
/// duration of the `j`-th entry when either differs by more than 1 ms.
pub open spec fn spec_sync_subtitles(d: DraftView) -> Result<SyncStepView, Seq<char>> {
    match d.tracks {
        None => Err("Không tìm thấy tracks"@),
        Some(ts) => {
            let subs = sort_by_start(subtitle_entries(ts));
            if subs.len() == 0 {
                Ok(single_step("Sync Subtitles: Không có subtitle track"@))
            } else {
                let ch = sub_changes(ts, ts.len() as int, subs);
                Ok(
                    SyncStepView {
                        messages: if ch.len() == 0 {
                            seq!["Sync Subtitles: Đã đồng bộ"@]
                        } else {
                            ch.map_values(|c: SubChange| sub_message(c))
                        },
                        edits: sub_edits(ch),
                    },
                )
            }
        },
    }
}

/// The subtitle rule's comparisons stay within `i64` (the duration is compared
/// only when the starts are within 1 ms).
pub open spec fn sub_arith_ok(d: DraftView) -> bool {
    match d.tracks {
        None => true,
        Some(ts) => {
            let subs = sort_by_start(subtitle_entries(ts));
            forall|ti: int, i: int|
                0 <= ti < ts.len() && ts[ti].kind == "video"@ && 0 <= i < seg_list(ts[ti]).len()
                    && video_segment_total(ts.take(ti)) + i < subs.len() ==> {
                    let s = #[trigger] seg_list(ts[ti])[i];
                    let e = subs[video_segment_total(ts.take(ti)) + i];
                    diff_fits(seg_start(s), e.0) && (!differs(seg_start(s) as int, e.0 as int) ==> diff_fits(
                        seg_duration(s),
                        e.1,
                    ))
                }
        },
    }
}

/// The timed entries of all text and subtitle tracks.
pub fn collect_subtitle_entries(tracks: &Vec<Track>) -> (r: Vec<(i64, i64)>)
    ensures
        r@ == subtitle_entries(tracks_view(tracks@)),
{
    let ghost ts = tracks_view(tracks@);
    let mut out: Vec<(i64, i64)> = Vec::new();
    let mut ti: usize = 0;
    while ti < tracks.len()
        invariant
            ts == tracks_view(tracks@),
            ti <= tracks@.len(),
            out@ == subtitle_entries(ts.take(ti as int)),
        decreases tracks@.len() - ti,
    {
        let t = &tracks[ti];
        let ghost before = out@;
        if text_eq(t.kind.as_str(), "text") || text_eq(t.kind.as_str(), "subtitle") {
            match &t.segments {
                Some(segs) => {
                    let ghost sv = segments_view(segs@);
                    let mut i: usize = 0;
                    while i < segs.len()
                        invariant
                            sv == segments_view(segs@),
                            i <= segs@.len(),
                            out@ == before + timed_entries(sv.take(i as int)),
                        decreases segs@.len() - i,
                    {
                        assert(sv.take(i + 1).drop_last() =~= sv.take(i as int));
                        let start = seg_start_of(&segs[i]);
                        let dur = seg_duration_of(&segs[i]);
                        if dur > 0 {
                            out.push((start, dur));
                        }
                        i = i + 1;
                        assert(out@ =~= before + timed_entries(sv.take(i as int)));
                    }
                    assert(sv.take(i as int) =~= sv);
                },
                None => {
                    assert(out@ =~= before + timed_entries(seq![]));
                },
            }
        }
        assert(ts.take(ti + 1).drop_last() =~= ts.take(ti as int));
        ti = ti + 1;
    }
    assert(ts.take(ti as int) =~= ts);
    out
}

proof fn lemma_insert_at(s: Seq<(i64, i64)>, x: (i64, i64), p: int)
    requires
        0 <= p <= s.len(),
        forall|j: int| p <= j < s.len() ==> #[trigger] s[j].0 > x.0,
        p == 0 || s[p - 1].0 <= x.0,
    ensures
        insert_by_start(s, x) == s.take(p).push(x) + s.skip(p),
    decreases s.len(),
{
    if s.len() == 0 {
        assert(s.take(p).push(x) + s.skip(p) =~= seq![x]);
    } else if p == s.len() {
        assert(s.take(p).push(x) + s.skip(p) =~= s.push(x));
    } else {
        lemma_insert_at(s.drop_last(), x, p);
        assert(s.drop_last().take(p).push(x) + s.drop_last().skip(p) + seq![s.last()] =~= s.take(p).push(x)
            + s.skip(p));
    }
}

/// Sorts entries by start time, keeping the order of entries that start together.
pub fn sort_entries_by_start(v: &Vec<(i64, i64)>) -> (r: Vec<(i64, i64)>)
    ensures
        r@ == sort_by_start(v@),
{
    let mut out: Vec<(i64, i64)> = Vec::new();
    let mut k: usize = 0;
    while k < v.len()
        invariant
            k <= v@.len(),
            out@ == sort_by_start(v@.take(k as int)),
        decreases v@.len() - k,
    {
        let x = v[k];
        let mut p: usize = out.len();
        while p > 0 && out[p - 1].0 > x.0
            invariant
                p <= out@.len(),
                forall|j: int| p <= j < out@.len() ==> #[trigger] out@[j].0 > x.0,
            decreases p,
        {
            p = p - 1;
        }
        proof {
            lemma_insert_at(out@, x, p as int);
            assert(v@.take(k + 1).drop_last() =~= v@.take(k as int));
        }
        let ghost before = out@;
        out.insert(p, x);
        assert(out@ =~= before.take(p as int).push(x) + before.skip(p as int));
        k = k + 1;
    }
    assert(v@.take(k as int) =~= v@);
    out
}

fn sub_text_of(j: usize, cs: i64, ss: i64, cd: i64, sd: i64) -> (m: String)
    ensures
        m@ == sub_text(j as nat, cs as int, ss as int, cd as int, sd as int),
{
    let mut m = String::from_str("Sync Sub #");
    push_decimal(&mut m, j as u64);
    m.append(": start ");
    push_signed(&mut m, cs);
    m.append("→");
    push_signed(&mut m, ss);
    m.append(" dur ");
    push_signed(&mut m, cd);
    m.append("→");
    push_signed(&mut m, sd);
    m
}

/// Aligns video segments with the subtitle timing.
pub fn sync_subtitles(draft: &Draft) -> (r: Result<SyncStep, String>)
    requires
        sub_arith_ok(draft@),
    ensures
        step_result_view(r) == spec_sync_subtitles(draft@),
{
    match &draft.tracks {
        None => Err(String::from_str("Không tìm thấy tracks")),
        Some(tracks) => {
            let ghost ts = tracks_view(tracks@);
            let entries = collect_subtitle_entries(tracks);
            let subs = sort_entries_by_start(&entries);
            if subs.len() == 0 {
                return Ok(one_message("Sync Subtitles: Không có subtitle track"));
            }
            let mut messages: Vec<String> = Vec::new();
            let mut edits: Vec<DraftEdit> = Vec::new();
            let mut base: usize = 0;
            let mut ti: usize = 0;
            while ti < tracks.len()
                invariant
                    ts == tracks_view(tracks@),
                    subs@ == sort_by_start(subtitle_entries(ts)),
                    sub_arith_ok(DraftView { indexable: draft.indexable, tracks: Some(ts) }),
                    ti <= tracks@.len(),
                    base == video_segment_total(ts.take(ti as int)) || (base >= subs@.len() && video_segment_total(ts.take(ti as int)) >= subs@.len()),
                    texts_view(messages@) == sub_changes(ts, ti as int, subs@).map_values(|c: SubChange| sub_message(c)),
                    edits@ == sub_edits(sub_changes(ts, ti as int, subs@)),
                decreases tracks@.len() - ti,
            {
                let t = &tracks[ti];
                let ghost ch0 = sub_changes(ts, ti as int, subs@);
                let ghost gbase = video_segment_total(ts.take(ti as int));
                assert(ts.take(ti + 1).drop_last() =~= ts.take(ti as int));
                if text_eq(t.kind.as_str(), "video") {
                    match &t.segments {
                        Some(segs) => {
                            let ghost sv = segments_view(segs@);
                            let mut i: usize = 0;
                            while i < segs.len()
                                invariant
                                    ts == tracks_view(tracks@),
                                    0 <= ti < ts.len(),
                                    ts[ti as int].kind == "video"@,
                                    ts[ti as int].segments is Some,
                                    sv == seg_list(ts[ti as int]),
                                    sv == segments_view(segs@),
                                    subs@ == sort_by_start(subtitle_entries(ts)),
                                    sub_arith_ok(DraftView { indexable: draft.indexable, tracks: Some(ts) }),
                                    gbase == video_segment_total(ts.take(ti as int)),
                                    i <= segs@.len(),
                                    base == gbase + i || (base >= subs@.len() && gbase + i >= subs@.len()),
                                    texts_view(messages@) == (ch0 + sub_seg_changes(ts, ti as int, i as int, subs@)).map_values(|c: SubChange| sub_message(c)),
                                    edits@ == sub_edits(ch0 + sub_seg_changes(ts, ti as int, i as int, subs@)),
                                decreases segs@.len() - i,
                            {
                                let ghost prev = ch0 + sub_seg_changes(ts, ti as int, i as int, subs@);
                                if base < subs.len() {
                                    let (ss, sd) = subs[base];
                                    let cs = seg_start_of(&segs[i]);
                                    let cd = seg_duration_of(&segs[i]);
                                    if differs_by_more_than_ms(cs, ss) || differs_by_more_than_ms(cd, sd) {
                                        let m = sub_text_of(base, cs, ss, cd, sd);
                                        let ghost old_msgs = messages@;
                                        let ghost old_edits = edits@;
                                        messages.push(m);
                                        edits.push(DraftEdit { track: ti, segment: i, field: TimeField::Start, value: ss });
                                        edits.push(DraftEdit { track: ti, segment: i, field: TimeField::Duration, value: sd });
                                        proof {
                                            let c: SubChange = (ti as int, i as int, base as int, cs, ss, cd, sd);
                                            assert(ch0 + sub_seg_changes(ts, ti as int, i + 1, subs@) =~= prev.push(c));
                                            assert(sub_message(c) == m@);
                                            assert(texts_view(messages@) =~= texts_view(old_msgs).push(m@));
                                            assert(texts_view(messages@) =~= prev.push(c).map_values(|c: SubChange| sub_message(c)));
                                            assert(prev.push(c).drop_last() =~= prev);
                                            assert(edits@ =~= sub_edits(prev.push(c)));
                                        }
                                    } else {
                                        assert(ch0 + sub_seg_changes(ts, ti as int, i + 1, subs@) =~= prev);
                                    }
                                    base = base + 1;
                                } else {
                                    assert(ch0 + sub_seg_changes(ts, ti as int, i + 1, subs@) =~= prev);
                                }
                                i = i + 1;
                            }
                        },
                        None => {},
                    }
                }
                proof {
                    if !(ts[ti as int].kind == "video"@ && ts[ti as int].segments is Some) {
                        assert(ch0 + sub_track_changes(ts, ti as int, subs@) =~= ch0);
                    }
                }
                ti = ti + 1;
            }
            if messages.len() == 0 {
                messages.push(String::from_str("Sync Subtitles: Đã đồng bộ"));
                assert(texts_view(messages@) =~= seq!["Sync Subtitles: Đã đồng bộ"@]);
            }
            Ok(SyncStep { messages, edits })
        },
    }
}

// ─── Applying edits to the model ─────────────────────────────────────────────

/// The segment after writing `v` into its `target_timerange.<f>`: a duration is
/// stored only into an existing timerange object; a start turns a missing or null
/// timerange into an object.
pub open spec fn set_time(s: SegmentView, f: TimeField, v: i64) -> SegmentView {
    let tr = match f {
        TimeField::Duration => match s.timerange {
            Timerange::Fields { start, duration } => Timerange::Fields { start, duration: Some(v) },
            other => other,
        },
        TimeField::Start => match s.timerange {
            Timerange::Fields { start, duration } => Timerange::Fields { start: Some(v), duration },
            Timerange::Absent => Timerange::Fields { start: Some(v), duration: None },
            Timerange::Unusable => Timerange::Unusable,
        },
    };
    SegmentView {
        writable: s.writable,
        timerange: tr,
        material_type: s.material_type,
        media_type: s.media_type,
        is_placeholder: s.is_placeholder,
        source_duration: s.source_duration,
    }
}

/// The edit names a segment of the draft.
pub open spec fn edit_in_range(d: DraftView, e: DraftEdit) -> bool {
    &&& d.tracks is Some
    &&& e.track < d.tracks->0.len()
    &&& d.tracks->0[e.track as int].segments is Some
    &&& e.segment < seg_list(d.tracks->0[e.track as int]).len()
}

pub open spec fn edit_target(d: DraftView, e: DraftEdit) -> SegmentView {
    seg_list(d.tracks->0[e.track as int])[e.segment as int]
}

pub open spec fn apply_edit(d: DraftView, e: DraftEdit) -> DraftView {
    if edit_in_range(d, e) {
        let ts = d.tracks->0;
        let t = ts[e.track as int];
        let segs = seg_list(t);
        DraftView {
            indexable: d.indexable,
            tracks: Some(
                ts.update(
                    e.track as int,
                    TrackView {
                        kind: t.kind,
                        segments: Some(segs.update(e.segment as int, set_time(segs[e.segment as int], e.field, e.value))),
                    },
                ),
            ),
        }
    } else {
        d
    }
}

/// The draft after the edits, in order.
pub open spec fn apply_all(d: DraftView, es: Seq<DraftEdit>) -> DraftView
    decreases es.len(),
{
    if es.len() == 0 {
        d
    } else {
        apply_edit(apply_all(d, es.drop_last()), es.last())
    }
}

/// The edit can be written: its segment exists and is an object or null, and a
/// start is not written into a timerange that is neither an object nor null.
pub open spec fn edit_ok(d: DraftView, e: DraftEdit) -> bool {
    &&& edit_in_range(d, e)
    &&& edit_target(d, e).writable
    &&& (e.field == TimeField::Start ==> edit_target(d, e).timerange != Timerange::Unusable)
}

pub open spec fn edits_ok(d: DraftView, es: Seq<DraftEdit>) -> bool
    decreases es.len(),
{
    if es.len() == 0 {
        true
    } else {
        edits_ok(d, es.drop_last()) && edit_ok(apply_all(d, es.drop_last()), es.last())
    }
}

fn time_written(t: Timerange, f: TimeField, v: i64) -> (r: Timerange)
    ensures
        r == set_time(
            SegmentView {
                writable: true,
                timerange: t,
                material_type: None,
                media_type: None,
                is_placeholder: None,
                source_duration: None,
            },
            f,
            v,
        ).timerange,
{
    match f {
        TimeField::Duration => match t {
            Timerange::Fields { start, duration: _ } => Timerange::Fields { start, duration: Some(v) },
            other => other,
        },
        TimeField::Start => match t {
            Timerange::Fields { start: _, duration } => Timerange::Fields { start: Some(v), duration },
            Timerange::Absent => Timerange::Fields { start: Some(v), duration: None },
            Timerange::Unusable => Timerange::Unusable,
        },
    }
}

/// Performs one edit on the model.
pub fn apply_one_edit(draft: &mut Draft, e: DraftEdit)
    requires
        edit_ok(old(draft)@, e),
    ensures
        final(draft)@ == apply_edit(old(draft)@, e),
{
    let ghost d0 = draft@;
    let taken = draft.tracks.take();
    match taken {
        Some(mut tracks) => {
            let ghost tv0 = tracks_view(tracks@);
            let mut t = tracks.remove(e.track);
            let ghost tk = t@;
            let segs_opt = t.segments.take();
            match segs_opt {
                Some(mut segs) => {
                    let ghost sv0 = segments_view(segs@);
                    let mut sg = segs.remove(e.segment);
                    let ghost sg0 = sg@;
                    sg.timerange = time_written(sg.timerange, e.field, e.value);
                    assert(sg@ == set_time(sg0, e.field, e.value));
                    segs.insert(e.segment, sg);
                    assert(segments_view(segs@) =~= sv0.update(e.segment as int, set_time(sv0[e.segment as int], e.field, e.value)));
                    t.segments = Some(segs);
                },
                None => {},
            }
            tracks.insert(e.track, t);
            assert(tracks_view(tracks@) =~= tv0.update(e.track as int, TrackView {
                kind: tv0[e.track as int].kind,
                segments: Some(seg_list(tv0[e.track as int]).update(e.segment as int, set_time(seg_list(tv0[e.track as int])[e.segment as int], e.field, e.value))),
            }));
            draft.tracks = Some(tracks);
        },
        None => {},
    }
}

/// Performs the edits on the model, in order.
pub fn apply_edits(draft: &mut Draft, edits: &Vec<DraftEdit>)
    requires
        edits_ok(old(draft)@, edits@),
    ensures
        final(draft)@ == apply_all(old(draft)@, edits@),
{
    let ghost d0 = draft@;
    let mut k: usize = 0;
    while k < edits.len()
        invariant
            k <= edits@.len(),
            edits_ok(d0, edits@),
            draft@ == apply_all(d0, edits@.take(k as int)),
        decreases edits@.len() - k,
    {
        proof {
            lemma_edits_ok_prefix(d0, edits@, k + 1);
            assert(edits@.take(k + 1).drop_last() =~= edits@.take(k as int));
        }
        apply_one_edit(draft, edits[k]);
        k = k + 1;
    }
    assert(edits@.take(k as int) =~= edits@);
}

pub proof fn lemma_edits_ok_prefix(d: DraftView, es: Seq<DraftEdit>, k: int)
    requires
        0 <= k <= es.len(),
        edits_ok(d, es),
    ensures
        edits_ok(d, es.take(k)),
    decreases es.len() - k,
{
    if k < es.len() {
        lemma_edits_ok_prefix(d, es, k + 1);
        assert(es.take(k + 1).drop_last() =~= es.take(k));
    } else {
        assert(es.take(k) =~= es);
    }
}

// ─── One project ─────────────────────────────────────────────────────────────

/// Which rules to run on each project.
#[derive(Clone, Copy, Debug)]
pub struct SyncOptions {
    pub sync_video_audio: bool,
    pub sync_image_duration: bool,
    pub sync_subtitles: bool,
}

/// The report for one project.
pub struct SyncResult {
    pub project: String,
    pub success: bool,
    pub message: String,
    pub changes: Vec<String>,
}

pub struct SyncResultView {
    pub project: Seq<char>,
    pub success: bool,
    pub message: Seq<char>,
    pub changes: Seq<Seq<char>>,
}

impl View for SyncResult {
    type V = SyncResultView;

    open spec fn view(&self) -> SyncResultView {
        SyncResultView {
            project: self.project@,
            success: self.success,
            message: self.message@,
            changes: texts_view(self.changes@),
        }
    }
}

/// What running the rules on a draft leads to.
pub enum SyncOutcome {
    /// The project is done; the draft file is left as it was.
    Finished(SyncResult),
    /// The draft file is to be rewritten with these edits; `messages` are the changes.
    /// `touches_video`: a rule went through the video tracks for writing, which puts
    /// a null `segments` into each video track that has none.
    Write { step: SyncStep, touches_video: bool },
}

pub struct ProcessView {
    pub finished: Option<SyncResultView>,
    pub changes: Seq<Seq<char>>,
    pub edits: Seq<DraftEdit>,
    pub touches_video: bool,
}

pub open spec fn outcome_view(o: SyncOutcome) -> ProcessView {
    match o {
        SyncOutcome::Finished(r) => ProcessView { finished: Some(r@), changes: seq![], edits: seq![], touches_video: false },
        SyncOutcome::Write { step, touches_video } => ProcessView {
            finished: None,
            changes: step@.messages,
            edits: step@.edits,
            touches_video,
        },
    }
}

pub open spec fn failed_view(name: Seq<char>, message: Seq<char>, changes: Seq<Seq<char>>) -> SyncResultView {
    SyncResultView { project: name, success: false, message, changes }
}

pub open spec fn no_step() -> SyncStepView {
    SyncStepView { messages: seq![], edits: seq![] }
}

pub open spec fn stage_va(d: DraftView, o: SyncOptions) -> Result<SyncStepView, Seq<char>> {
    if o.sync_video_audio { spec_sync_video_audio(d) } else { Ok(no_step()) }
}

pub open spec fn stage_img(d: DraftView, o: SyncOptions) -> Result<SyncStepView, Seq<char>> {
    if o.sync_image_duration { spec_sync_image_duration(d) } else { Ok(no_step()) }
}

pub open spec fn stage_sub(d: DraftView, o: SyncOptions) -> Result<SyncStepView, Seq<char>> {
    if o.sync_subtitles { spec_sync_subtitles(d) } else { Ok(no_step()) }
}

/// The video/audio rule goes through the video tracks for writing: there is audio.
pub open spec fn va_reaches(d: DraftView) -> bool {
    d.tracks matches Some(ts) && kind_durations(ts, "audio"@).len() > 0
}

/// The image rule goes through the video tracks for writing: there is audio, there
/// are images, and their totals differ by more than 1 ms.
pub open spec fn img_reaches(d: DraftView) -> bool {
    d.tracks matches Some(ts) && {
        let total_audio = seq_sum(kind_durations(ts, "audio"@));
        let images = video_image_durations(ts);
        total_audio != 0 && images.len() > 0 && differs(seq_sum(images), total_audio)
    }
}

/// The subtitle rule goes through the video tracks for writing: there are timed
/// subtitle entries.
pub open spec fn sub_reaches(d: DraftView) -> bool {
    d.tracks matches Some(ts) && sort_by_start(subtitle_entries(ts)).len() > 0
}

/// The rules run in order (video/audio, images, subtitles), each on the draft as the
/// earlier ones left it; the first failing rule ends the project with the changes
/// gathered so far; with no change at all the project succeeds untouched; otherwise
/// the draft is to be rewritten.
pub open spec fn spec_process(name: Seq<char>, d: DraftView, o: SyncOptions) -> ProcessView {
    match stage_va(d, o) {
        Err(e) => ProcessView {
            finished: Some(failed_view(name, "Sync Video/Audio lỗi: "@ + e, seq![])),
            changes: seq![],
            edits: seq![],
            touches_video: false,
        },
        Ok(s1) => {
            let d1 = apply_all(d, s1.edits);
            match stage_img(d1, o) {
                Err(e) => ProcessView {
                    finished: Some(failed_view(name, "Sync Image Duration lỗi: "@ + e, s1.messages)),
                    changes: seq![],
                    edits: seq![],
                    touches_video: false,
                },
                Ok(s2) => {
                    let d2 = apply_all(d1, s2.edits);
                    match stage_sub(d2, o) {
                        Err(e) => ProcessView {
                            finished: Some(
                                failed_view(name, "Sync Subtitles lỗi: "@ + e, s1.messages + s2.messages),
                            ),
                            changes: seq![],
                            edits: seq![],
                            touches_video: false,
                        },
                        Ok(s3) => {
                            let changes = s1.messages + s2.messages + s3.messages;
                            if changes.len() == 0 {
                                ProcessView {
                                    finished: Some(
                                        SyncResultView {
                                            project: name,
                                            success: true,
                                            message: "Không có thay đổi"@,
                                            changes,
                                        },
                                    ),
                                    changes: seq![],
                                    edits: seq![],
                                    touches_video: false,
                                }
                            } else {
                                ProcessView {
                                    finished: None,
                                    changes,
                                    edits: s1.edits + s2.edits + s3.edits,
                                    touches_video: (o.sync_video_audio && va_reaches(d)) || (o.sync_image_duration
                                        && img_reaches(d1)) || (o.sync_subtitles && sub_reaches(d2)),
                                }
                            }
                        },
                    }
                },
            }
        },
    }
}

/// The model after the rules that ran.
pub open spec fn spec_processed_draft(d: DraftView, o: SyncOptions) -> DraftView {
    match stage_va(d, o) {
        Err(_) => d,
        Ok(s1) => {
            let d1 = apply_all(d, s1.edits);
            match stage_img(d1, o) {
                Err(_) => d1,
                Ok(s2) => {
                    let d2 = apply_all(d1, s2.edits);
                    match stage_sub(d2, o) {
                        Err(_) => d2,
                        Ok(s3) => apply_all(d2, s3.edits),
                    }
                },
            }
        },
    }
}

/// The rules can run on the draft without an arithmetic overflow or a write into
/// a value that cannot take it.
pub open spec fn process_ok(d: DraftView, o: SyncOptions) -> bool {
    &&& (o.sync_video_audio || o.sync_image_duration || o.sync_subtitles) ==> d.indexable
    &&& o.sync_video_audio ==> va_arith_ok(d)
    &&& match stage_va(d, o) {
        Err(_) => true,
        Ok(s1) => {
            let d1 = apply_all(d, s1.edits);
            &&& edits_ok(d, s1.edits)
            &&& o.sync_image_duration ==> img_arith_ok(d1)
            &&& match stage_img(d1, o) {
                Err(_) => true,
                Ok(s2) => {
                    let d2 = apply_all(d1, s2.edits);
                    &&& edits_ok(d1, s2.edits)
                    &&& o.sync_subtitles ==> sub_arith_ok(d2)
                    &&& match stage_sub(d2, o) {
                        Err(_) => true,
                        Ok(s3) => edits_ok(d2, s3.edits),
                    }
                },
            }
        },
    }
}

fn empty_step() -> (r: SyncStep)
    ensures
        r@ == no_step(),
{
    let r = SyncStep { messages: Vec::new(), edits: Vec::new() };
    assert(r@.messages =~= seq![]);
    r
}

fn prefixed(prefix: &str, e: &String) -> (r: String)
    ensures
        r@ == prefix@ + e@,
{
    let mut m = String::from_str(prefix);
    m.append(e.as_str());
    m
}

fn append_step(changes: &mut Vec<String>, edits: &mut Vec<DraftEdit>, step: SyncStep)
    ensures
        texts_view(final(changes)@) == texts_view(old(changes)@) + step@.messages,
        final(edits)@ == old(edits)@ + step@.edits,
{
    let SyncStep { messages, edits: step_edits } = step;
    let mut msgs = messages;
    let ghost m0 = msgs@;
    changes.append(&mut msgs);
    assert(texts_view(changes@) =~= texts_view(old(changes)@) + texts_view(m0));
    let mut es = step_edits;
    edits.append(&mut es);
}

fn va_reaches_check(draft: &Draft) -> (r: bool)
    ensures
        r == va_reaches(draft@),
{
    match &draft.tracks {
        None => false,
        Some(tracks) => collect_durations(tracks, "audio").len() > 0,
    }
}

fn img_reaches_check(draft: &Draft) -> (r: bool)
    requires
        img_arith_ok(draft@),
    ensures
        r == img_reaches(draft@),
{
    match &draft.tracks {
        None => false,
        Some(tracks) => {
            let audio = collect_durations(tracks, "audio");
            let total_audio = sum_times(&audio);
            if total_audio == 0 {
                return false;
            }
            let images = collect_image_durations(tracks);
            if images.len() == 0 {
                return false;
            }
            let total_image = sum_times(&images);
            differs_by_more_than_ms(total_image, total_audio)
        },
    }
}

fn sub_reaches_check(draft: &Draft) -> (r: bool)
    ensures
        r == sub_reaches(draft@),
{
    match &draft.tracks {
        None => false,
        Some(tracks) => {
            let entries = collect_subtitle_entries(tracks);
            sort_entries_by_start(&entries).len() > 0
        },
    }
}

/// Runs the chosen rules on a draft. The model is left as the rules that ran left it.
pub fn process_draft(name: &str, draft: &mut Draft, opts: &SyncOptions) -> (out: SyncOutcome)
    requires
        process_ok(old(draft)@, *opts),
    ensures
        outcome_view(out) == spec_process(name@, old(draft)@, *opts),
        final(draft)@ == spec_processed_draft(old(draft)@, *opts),
{
    let ghost d0 = draft@;
    let mut changes: Vec<String> = Vec::new();
    let mut edits: Vec<DraftEdit> = Vec::new();
    let touch1 = opts.sync_video_audio && va_reaches_check(draft);
    let s1 = if opts.sync_video_audio { sync_video_audio(draft) } else { Ok(empty_step()) };
    let s1 = match s1 {
        Err(e) => {
            let r = SyncResult {
                project: String::from_str(name),
                success: false,
                message: prefixed("Sync Video/Audio lỗi: ", &e),
                changes: Vec::new(),
            };
            assert(r@.changes =~= seq![]);
            return SyncOutcome::Finished(r);
        },
        Ok(s) => s,
    };
    apply_edits(draft, &s1.edits);
    let ghost d1 = draft@;
    let ghost v1 = s1@;
    append_step(&mut changes, &mut edits, s1);
    let touch2 = opts.sync_image_duration && img_reaches_check(draft);
    let s2 = if opts.sync_image_duration { sync_image_duration(draft) } else { Ok(empty_step()) };
    let s2 = match s2 {
        Err(e) => {
            let r = SyncResult {
                project: String::from_str(name),
                success: false,
                message: prefixed("Sync Image Duration lỗi: ", &e),
                changes,
            };
            assert(r@.changes =~= v1.messages);
            return SyncOutcome::Finished(r);
        },
        Ok(s) => s,
    };
    apply_edits(draft, &s2.edits);
    let ghost v2 = s2@;
    append_step(&mut changes, &mut edits, s2);
    let touch3 = opts.sync_subtitles && sub_reaches_check(draft);
    let s3 = if opts.sync_subtitles { sync_subtitles(draft) } else { Ok(empty_step()) };
    let s3 = match s3 {
        Err(e) => {
            let r = SyncResult {
                project: String::from_str(name),
                success: false,
                message: prefixed("Sync Subtitles lỗi: ", &e),
                changes,
            };
            assert(r@.changes =~= v1.messages + v2.messages);
            return SyncOutcome::Finished(r);
        },
        Ok(s) => s,
    };
    apply_edits(draft, &s3.edits);
    append_step(&mut changes, &mut edits, s3);
    if changes.len() == 0 {
        return SyncOutcome::Finished(
            SyncResult {
                project: String::from_str(name),
                success: true,
                message: String::from_str("Không có thay đổi"),
                changes,
            },
        );
    }
    SyncOutcome::Write { step: SyncStep { messages: changes, edits }, touches_video: touch1 || touch2 || touch3 }
}

/// Why a project could not be processed or its draft not stored.
pub enum DraftFailure {
    /// `draft_content.json` does not exist.
    Missing,
    /// Reading the file failed with this error.
    Read(String),
    /// The file is not JSON; the parser's error.
    Parse(String),
    /// The edited draft could not be rendered; the error.
    Serialize(String),
    /// Writing the file failed with this error.
    Write(String),
}

pub open spec fn failure_message(f: DraftFailure) -> Seq<char> {
    match f {
        DraftFailure::Missing => "Không tìm thấy draft_content.json"@,
        DraftFailure::Read(e) => "Lỗi đọc file: "@ + e@,
        DraftFailure::Parse(e) => "Lỗi parse JSON: "@ + e@,
        DraftFailure::Serialize(e) => "Lỗi serialize JSON: "@ + e@,
        DraftFailure::Write(e) => "Lỗi ghi file: "@ + e@,
    }
}

/// The report for a project that failed on its file, with the changes made so far.
pub fn failure_result(name: &str, failure: DraftFailure, changes: Vec<String>) -> (r: SyncResult)
    ensures
        r@ == failed_view(name@, failure_message(failure), texts_view(changes@)),
{
    let message = match &failure {
        DraftFailure::Missing => String::from_str("Không tìm thấy draft_content.json"),
        DraftFailure::Read(e) => prefixed("Lỗi đọc file: ", e),
        DraftFailure::Parse(e) => prefixed("Lỗi parse JSON: ", e),
        DraftFailure::Serialize(e) => prefixed("Lỗi serialize JSON: ", e),
        DraftFailure::Write(e) => prefixed("Lỗi ghi file: ", e),
    };
    SyncResult { project: String::from_str(name), success: false, message, changes }
}

pub open spec fn applied_text(n: nat) -> Seq<char> {
    dec_digits(n) + " thay đổi đã áp dụng"@
}

/// The report for a project whose rewritten draft was stored.
pub fn written_result(name: &str, changes: Vec<String>) -> (r: SyncResult)
    ensures
        r@ == (SyncResultView {
            project: name@,
            success: true,
            message: applied_text(changes@.len()),
            changes: texts_view(changes@),
        }),
{
    let mut message = String::new();
    push_decimal(&mut message, changes.len() as u64);
    message.append(" thay đổi đã áp dụng");
    SyncResult { project: String::from_str(name), success: true, message, changes }
}

// ─── Which drafts the rules can run on ───────────────────────────────────────

/// Whether every running sum of `v`, taken left to right, fits in `i64`.
pub fn prefix_sums_check(v: &Vec<i64>) -> (r: bool)
    ensures
        r == prefix_sums_fit(v@),
{
    let mut total: i128 = 0;
    let mut i: usize = 0;
    assert(seq_sum(v@.take(0)) == 0) by {
        assert(v@.take(0) =~= Seq::<i64>::empty());
    }
    while i < v.len()
        invariant
            i <= v@.len(),
            total == seq_sum(v@.take(i as int)),
            forall|k: int| 0 <= k <= i ==> i64::MIN <= #[trigger] seq_sum(v@.take(k)) <= i64::MAX,
        decreases v@.len() - i,
    {
        assert(v@.take(i + 1).drop_last() =~= v@.take(i as int));
        let next = total + v[i] as i128;
        assert(next == seq_sum(v@.take(i + 1)));
        if next < i64::MIN as i128 || next > i64::MAX as i128 {
            assert(!(i64::MIN <= seq_sum(v@.take(i + 1)) <= i64::MAX));
            return false;
        }
        total = next;
        i = i + 1;
    }
    assert(v@.take(i as int) =~= v@);
    true
}

/// Whether `a - b` fits in `i64` with an absolute value that does too.
fn diff_fits_check(a: i64, b: i64) -> (r: bool)
    ensures
        r == diff_fits(a, b),
{
    let d = (a as i128) - (b as i128);
    d > (i64::MIN as i128) && d <= (i64::MAX as i128)
}

/// Whether the video/audio rule can compare every pair of durations it reaches.
pub fn va_arith_check(draft: &Draft) -> (r: bool)
    ensures
        r == va_arith_ok(draft@),
{
    match &draft.tracks {
        None => true,
        Some(tracks) => {
            let ghost ts = tracks_view(tracks@);
            let audio = collect_durations(tracks, "audio");
            let video = collect_durations(tracks, "video");
            let mc: usize = if video.len() < audio.len() { video.len() } else { audio.len() };
            let ghost gmc = min_int(kind_durations(ts, "video"@).len() as int, kind_durations(ts, "audio"@).len() as int);
            assert(mc == gmc);
            let mut ti: usize = 0;
            while ti < tracks.len()
                invariant
                    ts == tracks_view(tracks@),
                    draft@.tracks == Some(ts),
                    ti <= tracks@.len(),
                    audio@ == kind_durations(ts, "audio"@),
                    gmc == min_int(kind_durations(ts, "video"@).len() as int, kind_durations(ts, "audio"@).len() as int),
                    mc == gmc,
                    mc <= audio@.len(),
                    forall|t2: int, i: int|
                        0 <= t2 < ti && ts[t2].kind == "video"@ && 0 <= i < va_limit(ts[t2], gmc) ==> diff_fits(
                            #[trigger] seg_list(ts[t2])[i].timerange_duration(),
                            audio@[i],
                        ),
                decreases tracks@.len() - ti,
            {
                let t = &tracks[ti];
                if text_eq(t.kind.as_str(), "video") {
                    match &t.segments {
                        Some(segs) => {
                            let ghost sv = segments_view(segs@);
                            assert(sv == seg_list(ts[ti as int]));
                            let lim: usize = if mc < segs.len() { mc } else { segs.len() };
                            let mut i: usize = 0;
                            while i < lim
                                invariant
                                    ts == tracks_view(tracks@),
                                    0 <= ti < ts.len(),
                                    draft@.tracks == Some(ts),
                                    ts[ti as int].kind == "video"@,
                                    audio@ == kind_durations(ts, "audio"@),
                                    gmc == min_int(kind_durations(ts, "video"@).len() as int, kind_durations(ts, "audio"@).len() as int),
                                    sv == seg_list(ts[ti as int]),
                                    sv == segments_view(segs@),
                                    lim == va_limit(ts[ti as int], gmc),
                                    lim <= segs@.len(),
                                    lim <= audio@.len(),
                                    i <= lim,
                                    forall|i2: int| 0 <= i2 < i ==> diff_fits(
                                        #[trigger] seg_list(ts[ti as int])[i2].timerange_duration(),
                                        audio@[i2],
                                    ),
                                decreases lim - i,
                            {
                                assert(sv[i as int] == segs@[i as int]@);
                                let ok = diff_fits_check(seg_duration_of(&segs[i]), audio[i]);
                                if !ok {
                                    assert(!diff_fits(seg_list(ts[ti as int])[i as int].timerange_duration(), audio@[i as int]));
                                    return false;
                                }
                                i = i + 1;
                            }
                        },
                        None => {
                            assert(seg_list(ts[ti as int]) =~= Seq::<SegmentView>::empty());
                        },
                    }
                }
                ti = ti + 1;
            }
            true
        },
    }
}

proof fn lemma_edits_ok_take(d: DraftView, es: Seq<DraftEdit>, j: int)
    requires
        0 <= j <= es.len(),
        edits_ok(d, es),
    ensures
        edits_ok(d, es.take(j)),
    decreases es.len(),
{
    if j == es.len() {
        assert(es.take(j) =~= es);
    } else {
        lemma_edits_ok_take(d, es.drop_last(), j);
        assert(es.drop_last().take(j) =~= es.take(j));
    }
}

/// Whether an edit can be written into the draft.
fn edit_ok_check(draft: &Draft, e: DraftEdit) -> (r: bool)
    ensures
        r == edit_ok(draft@, e),
{
    match &draft.tracks {
        None => false,
        Some(tracks) => {
            if e.track >= tracks.len() {
                return false;
            }
            match &tracks[e.track].segments {
                None => false,
                Some(segs) => {
                    if e.segment >= segs.len() {
                        return false;
                    }
                    let s = &segs[e.segment];
                    s.writable && (match e.field {
                        TimeField::Start => match s.timerange {
                            Timerange::Unusable => false,
                            _ => true,
                        },
                        TimeField::Duration => true,
                    })
                },
            }
        },
    }
}

/// Writes the edits one by one while each can be written; tells whether all could.
fn apply_edits_checked(draft: &mut Draft, edits: &Vec<DraftEdit>) -> (r: bool)
    ensures
        r == edits_ok(old(draft)@, edits@),
        r ==> final(draft)@ == apply_all(old(draft)@, edits@),
{
    let ghost d0 = draft@;
    let mut k: usize = 0;
    assert(edits@.take(0) =~= Seq::<DraftEdit>::empty());
    while k < edits.len()
        invariant
            d0 == old(draft)@,
            k <= edits@.len(),
            edits_ok(d0, edits@.take(k as int)),
            draft@ == apply_all(d0, edits@.take(k as int)),
        decreases edits@.len() - k,
    {
        assert(edits@.take(k + 1).drop_last() =~= edits@.take(k as int));
        let e = edits[k];
        if !edit_ok_check(draft, e) {
            proof {
                if edits_ok(d0, edits@) {
                    lemma_edits_ok_take(d0, edits@, k + 1);
                    assert(edits@.take(k + 1).last() == e);
                    assert(edit_ok(apply_all(d0, edits@.take(k as int)), e));
                    assert(false);
                }
            }
            return false;
        }
        apply_one_edit(draft, e);
        k = k + 1;
    }
    assert(edits@.take(k as int) =~= edits@);
    true
}

proof fn lemma_segment_total_mono(ts: Seq<TrackView>, a: int, b: int)
    requires
        0 <= a <= b <= ts.len(),
    ensures
        video_segment_total(ts.take(a)) <= video_segment_total(ts.take(b)),
    decreases b - a,
{
    if a < b {
        lemma_segment_total_mono(ts, a, b - 1);
        assert(ts.take(b).drop_last() =~= ts.take(b - 1));
    }
}

/// Whether the subtitle rule can compare every segment with the entry laid over it.
pub fn sub_arith_check(draft: &Draft) -> (r: bool)
    ensures
        r == sub_arith_ok(draft@),
{
    match &draft.tracks {
        None => true,
        Some(tracks) => {
            let ghost ts = tracks_view(tracks@);
            let entries = collect_subtitle_entries(tracks);
            let subs = sort_entries_by_start(&entries);
            let n = subs.len();
            let mut base: usize = 0;
            let mut ti: usize = 0;
            assert(ts.take(0) =~= Seq::<TrackView>::empty());
            while ti < tracks.len()
                invariant
                    ts == tracks_view(tracks@),
                    draft@.tracks == Some(ts),
                    subs@ == sort_by_start(subtitle_entries(ts)),
                    n == subs@.len(),
                    ti <= tracks@.len(),
                    base == video_segment_total(ts.take(ti as int)) || (base == n && video_segment_total(
                        ts.take(ti as int),
                    ) >= n),
                    forall|t2: int, i: int|
                        0 <= t2 < ti && ts[t2].kind == "video"@ && 0 <= i < seg_list(ts[t2]).len()
                            && video_segment_total(ts.take(t2)) + i < subs@.len() ==> {
                            let s = #[trigger] seg_list(ts[t2])[i];
                            let e = subs@[video_segment_total(ts.take(t2)) + i];
                            diff_fits(seg_start(s), e.0) && (!differs(seg_start(s) as int, e.0 as int) ==> diff_fits(
                                seg_duration(s),
                                e.1,
                            ))
                        },
                decreases tracks@.len() - ti,
            {
                if base >= n {
                    proof {
                        assert forall|t2: int, i: int|
                            0 <= t2 < ts.len() && ts[t2].kind == "video"@ && 0 <= i < seg_list(ts[t2]).len()
                                && video_segment_total(ts.take(t2)) + i < subs@.len() implies {
                                let s = #[trigger] seg_list(ts[t2])[i];
                                let e = subs@[video_segment_total(ts.take(t2)) + i];
                                diff_fits(seg_start(s), e.0) && (!differs(seg_start(s) as int, e.0 as int)
                                    ==> diff_fits(seg_duration(s), e.1))
                            } by {
                            if t2 >= ti {
                                lemma_segment_total_mono(ts, ti as int, t2);
                            }
                        }
                    }
                    return true;
                }
                let t = &tracks[ti];
                let ghost gbase = video_segment_total(ts.take(ti as int));
                assert(ts.take(ti + 1).drop_last() =~= ts.take(ti as int));
                if text_eq(t.kind.as_str(), "video") {
                    match &t.segments {
                        Some(segs) => {
                            let ghost sv = segments_view(segs@);
                            let room = n - base;
                            let mut i: usize = 0;
                            while i < segs.len() && i < room
                                invariant
                                    ts == tracks_view(tracks@),
                                    draft@.tracks == Some(ts),
                                    0 <= ti < ts.len(),
                                    ts[ti as int].kind == "video"@,
                                    sv == seg_list(ts[ti as int]),
                                    sv == segments_view(segs@),
                                    subs@ == sort_by_start(subtitle_entries(ts)),
                                    n == subs@.len(),
                                    base == gbase,
                                    gbase == video_segment_total(ts.take(ti as int)),
                                    room == n - base,
                                    i <= segs@.len(),
                                    forall|i2: int|
                                        0 <= i2 < i ==> {
                                            let s = #[trigger] seg_list(ts[ti as int])[i2];
                                            let e = subs@[gbase + i2];
                                            diff_fits(seg_start(s), e.0) && (!differs(seg_start(s) as int, e.0 as int)
                                                ==> diff_fits(seg_duration(s), e.1))
                                        },
                                decreases segs@.len() - i,
                            {
                                assert(sv[i as int] == segs@[i as int]@);
                                let (ss, sd) = subs[base + i];
                                let cs = seg_start_of(&segs[i]);
                                let cd = seg_duration_of(&segs[i]);
                                let start_ok = diff_fits_check(cs, ss);
                                let dur_ok = differs_by_more_than_ms(cs, ss) || diff_fits_check(cd, sd);
                                if !(start_ok && dur_ok) {
                                    let ghost s = seg_list(ts[ti as int])[i as int];
                                    assert(!(diff_fits(seg_start(s), subs@[gbase + i].0) && (!differs(
                                        seg_start(s) as int,
                                        subs@[gbase + i].0 as int,
                                    ) ==> diff_fits(seg_duration(s), subs@[gbase + i].1))));
                                    return false;
                                }
                                i = i + 1;
                            }
                            if segs.len() >= room {
                                base = n;
                            } else {
                                base = base + segs.len();
                            }
                        },
                        None => {
                            assert(seg_list(ts[ti as int]) =~= Seq::<SegmentView>::empty());
                        },
                    }
                }
                ti = ti + 1;
            }
            true
        },
    }
}

/// Whether the image rule can add up the durations and compare each image with its share.
pub fn img_arith_check(draft: &Draft) -> (r: bool)
    ensures
        r == img_arith_ok(draft@),
{
    match &draft.tracks {
        None => true,
        Some(tracks) => {
            let ghost ts = tracks_view(tracks@);
            let audio = collect_durations(tracks, "audio");
            if !prefix_sums_check(&audio) {
                return false;
            }
            let total_audio = sum_times(&audio);
            if total_audio == 0 {
                return true;
            }
            let images = collect_image_durations(tracks);
            if !prefix_sums_check(&images) {
                return false;
            }
            let image_count = images.len();
            if image_count == 0 {
                return true;
            }
            let total_image = sum_times(&images);
            if !diff_fits_check(total_image, total_audio) {
                return false;
            }
            if !differs_by_more_than_ms(total_image, total_audio) {
                return true;
            }
            proof {
                lemma_share_bounds(total_audio as int, image_count as int);
            }
            let t = total_audio as i128;
            let c = image_count as i128;
            let per128: i128 = if t >= 0 { t / c } else { -((-t) / c) };
            let rem128: i128 = if t >= 0 { t % c } else { -((-t) % c) };
            let per = per128 as i64;
            let rem = rem128 as i64;
            let ghost gper = trunc_div(total_audio as int, image_count as int);
            let ghost grem = trunc_rem(total_audio as int, image_count as int);
            assert(per == gper && rem == grem);
            let mut idx: usize = 0;
            let mut ti: usize = 0;
            assert(ts.take(0) =~= Seq::<TrackView>::empty());
            while ti < tracks.len()
                invariant
                    ts == tracks_view(tracks@),
                    draft@.tracks == Some(ts),
                    prefix_sums_fit(kind_durations(ts, "audio"@)),
                    prefix_sums_fit(video_image_durations(ts)),
                    seq_sum(kind_durations(ts, "audio"@)) == total_audio,
                    seq_sum(video_image_durations(ts)) == total_image,
                    diff_fits(total_image, total_audio),
                    total_audio != 0,
                    image_count == video_image_durations(ts).len(),
                    image_count > 0,
                    differs(total_image as int, total_audio as int),
                    per == gper,
                    rem == grem,
                    gper == trunc_div(total_audio as int, image_count as int),
                    grem == trunc_rem(total_audio as int, image_count as int),
                    i64::MIN <= gper + grem <= i64::MAX,
                    i64::MIN <= gper <= i64::MAX,
                    ti <= tracks@.len(),
                    idx == video_image_durations(ts.take(ti as int)).len(),
                    forall|t2: int, i: int|
                        0 <= t2 < ti && ts[t2].kind == "video"@ && 0 <= i < seg_list(ts[t2]).len() && is_image(
                            seg_list(ts[t2])[i],
                        ) ==> diff_fits(
                            #[trigger] seg_list(ts[t2])[i].timerange_duration(),
                            image_share(image_index(ts, t2, i), gper, grem) as i64,
                        ),
                decreases tracks@.len() - ti,
            {
                let t = &tracks[ti];
                let ghost idx0 = idx as int;
                assert(ts.take(ti + 1).drop_last() =~= ts.take(ti as int));
                if text_eq(t.kind.as_str(), "video") {
                    match &t.segments {
                        Some(segs) => {
                            let ghost sv = segments_view(segs@);
                            let mut i: usize = 0;
                            while i < segs.len()
                                invariant
                                    ts == tracks_view(tracks@),
                                    draft@.tracks == Some(ts),
                                    0 <= ti < ts.len(),
                                    ts[ti as int].kind == "video"@,
                                    ts[ti as int].segments is Some,
                                    sv == seg_list(ts[ti as int]),
                                    sv == segments_view(segs@),
                                    image_count == video_image_durations(ts).len(),
                                    prefix_sums_fit(kind_durations(ts, "audio"@)),
                                    prefix_sums_fit(video_image_durations(ts)),
                                    seq_sum(kind_durations(ts, "audio"@)) == total_audio,
                                    seq_sum(video_image_durations(ts)) == total_image,
                                    diff_fits(total_image, total_audio),
                                    total_audio != 0,
                                    image_count > 0,
                                    differs(total_image as int, total_audio as int),
                                    gper == trunc_div(total_audio as int, image_count as int),
                                    grem == trunc_rem(total_audio as int, image_count as int),
                                    per == gper,
                                    rem == grem,
                                    i64::MIN <= gper + grem <= i64::MAX,
                                    i64::MIN <= gper <= i64::MAX,
                                    i <= segs@.len(),
                                    idx0 == video_image_durations(ts.take(ti as int)).len(),
                                    idx == idx0 + image_durations(sv.take(i as int)).len(),
                                    forall|i2: int|
                                        0 <= i2 < i && is_image(seg_list(ts[ti as int])[i2]) ==> diff_fits(
                                            #[trigger] seg_list(ts[ti as int])[i2].timerange_duration(),
                                            image_share(image_index(ts, ti as int, i2), gper, grem) as i64,
                                        ),
                                decreases segs@.len() - i,
                            {
                                assert(sv.take(i + 1).drop_last() =~= sv.take(i as int));
                                assert(image_index(ts, ti as int, i as int) == idx);
                                assert(sv[i as int] == segs@[i as int]@);
                                if is_image_segment(&segs[i]) {
                                    let new: i64 = if idx == 0 { per + rem } else { per };
                                    let old = seg_duration_of(&segs[i]);
                                    if !diff_fits_check(old, new) {
                                        assert(!diff_fits(
                                            seg_list(ts[ti as int])[i as int].timerange_duration(),
                                            image_share(image_index(ts, ti as int, i as int), gper, grem) as i64,
                                        ));
                                        return false;
                                    }
                                    assert(video_image_durations(ts.take(ti as int)).len() + image_durations(
                                        sv.take(i as int),
                                    ).len() < image_count) by {
                                        lemma_image_prefix_bound(ts, ti as int, i as int);
                                    }
                                    idx = idx + 1;
                                }
                                i = i + 1;
                            }
                            assert(sv.take(i as int) =~= sv);
                        },
                        None => {
                            assert(seg_list(ts[ti as int]) =~= Seq::<SegmentView>::empty());
                        },
                    }
                }
                ti = ti + 1;
            }
            true
        },
    }
}

fn copy_text_opt(o: &Option<String>) -> (r: Option<String>)
    ensures
        opt_text(r) == opt_text(*o),
{
    match o {
        Some(s) => Some(s.clone()),
        None => None,
    }
}

fn copy_segment(s: &Segment) -> (r: Segment)
    ensures
        r@ == s@,
{
    Segment {
        writable: s.writable,
        timerange: s.timerange,
        material_type: copy_text_opt(&s.material_type),
        media_type: copy_text_opt(&s.media_type),
        is_placeholder: s.is_placeholder,
        source_duration: s.source_duration,
    }
}

fn copy_track(t: &Track) -> (r: Track)
    ensures
        r@ == t@,
{
    let segments = match &t.segments {
        None => None,
        Some(segs) => {
            let mut out: Vec<Segment> = Vec::new();
            let mut i: usize = 0;
            while i < segs.len()
                invariant
                    i <= segs@.len(),
                    segments_view(out@) == segments_view(segs@).take(i as int),
                decreases segs@.len() - i,
            {
                let c = copy_segment(&segs[i]);
                let ghost prev = out@;
                out.push(c);
                assert(out@ =~= prev.push(c));
                assert(segments_view(out@) =~= segments_view(prev).push(c@));
                assert(segments_view(segs@).take(i + 1) =~= segments_view(segs@).take(i as int).push(segs@[i as int]@));
                i = i + 1;
            }
            assert(segments_view(segs@).take(i as int) =~= segments_view(segs@));
            Some(out)
        },
    };
    Track { kind: t.kind.clone(), segments }
}

fn copy_draft(d: &Draft) -> (r: Draft)
    ensures
        r@ == d@,
{
    let tracks = match &d.tracks {
        None => None,
        Some(ts) => {
            let mut out: Vec<Track> = Vec::new();
            let mut i: usize = 0;
            while i < ts.len()
                invariant
                    i <= ts@.len(),
                    tracks_view(out@) == tracks_view(ts@).take(i as int),
                decreases ts@.len() - i,
            {
                let c = copy_track(&ts[i]);
                let ghost prev = out@;
                out.push(c);
                assert(out@ =~= prev.push(c));
                assert(tracks_view(out@) =~= tracks_view(prev).push(c@));
                assert(tracks_view(ts@).take(i + 1) =~= tracks_view(ts@).take(i as int).push(ts@[i as int]@));
                i = i + 1;
            }
            assert(tracks_view(ts@).take(i as int) =~= tracks_view(ts@));
            Some(out)
        },
    };
    Draft { indexable: d.indexable, tracks }
}

/// Whether the chosen rules can run on the draft: its root can be written, no
/// comparison or sum overflows, and every edit they make can be written (where
/// these fail, storing and comparing the times would not be possible).
pub fn draft_processable(draft: &Draft, opts: &SyncOptions) -> (r: bool)
    ensures
        r == process_ok(draft@, *opts),
{
    if (opts.sync_video_audio || opts.sync_image_duration || opts.sync_subtitles) && !draft.indexable {
        return false;
    }
    let mut d = copy_draft(draft);
    let ghost d0 = d@;
    if opts.sync_video_audio && !va_arith_check(&d) {
        return false;
    }
    let s1 = if opts.sync_video_audio { sync_video_audio(&d) } else { Ok(empty_step()) };
    assert(step_result_view(s1) == stage_va(d0, *opts));
    match s1 {
        Err(_) => {
            return true;
        },
        Ok(s) => {
            if !apply_edits_checked(&mut d, &s.edits) {
                return false;
            }
        },
    }
    let ghost d1 = d@;
    if opts.sync_image_duration && !img_arith_check(&d) {
        return false;
    }
    let s2 = if opts.sync_image_duration { sync_image_duration(&d) } else { Ok(empty_step()) };
    assert(step_result_view(s2) == stage_img(d1, *opts));
    match s2 {
        Err(_) => {
            return true;
        },
        Ok(s) => {
            if !apply_edits_checked(&mut d, &s.edits) {
                return false;
            }
        },
    }
    let ghost d2 = d@;
    if opts.sync_subtitles && !sub_arith_check(&d) {
        return false;
    }
    let s3 = if opts.sync_subtitles { sync_subtitles(&d) } else { Ok(empty_step()) };
    assert(step_result_view(s3) == stage_sub(d2, *opts));
    match s3 {
        Err(_) => true,
        Ok(s) => apply_edits_checked(&mut d, &s.edits),
    }
}

// ─── Laws ────────────────────────────────────────────────────────────────────

/// An edit of the video/audio rule: it sets the duration of a video segment at a
/// position that has an audio segment to the duration of that audio segment, and
/// only where the two differed by more than 1 ms.
pub open spec fn va_edit_matches(ts: Seq<TrackView>, audio: Seq<i64>, mc: int, e: DraftEdit) -> bool {
    &&& e.field == TimeField::Duration
    &&& 0 <= e.track < ts.len()
    &&& ts[e.track as int].kind == "video"@
    &&& 0 <= e.segment < va_limit(ts[e.track as int], mc)
    &&& e.segment < audio.len()
    &&& e.value == audio[e.segment as int]
    &&& differs(seg_duration(seg_list(ts[e.track as int])[e.segment as int]) as int, e.value as int)
}

proof fn lemma_va_seg_changes(ts: Seq<TrackView>, ti: int, audio: Seq<i64>, mc: int, n: int)
    requires
        0 <= ti < ts.len() <= usize::MAX,
        ts[ti].kind == "video"@,
        n <= va_limit(ts[ti], mc),
        va_limit(ts[ti], mc) <= audio.len(),
        seg_list(ts[ti]).len() <= usize::MAX,
    ensures
        forall|k: int| 0 <= k < va_seg_changes(ti, seg_list(ts[ti]), audio, n).len()
            ==> va_edit_matches(ts, audio, mc, #[trigger] va_seg_changes(ti, seg_list(ts[ti]), audio, n)[k].0),
    decreases n,
{
    if n > 0 {
        lemma_va_seg_changes(ts, ti, audio, mc, n - 1);
        let segs = seg_list(ts[ti]);
        let prev = va_seg_changes(ti, segs, audio, n - 1);
        let cur = seg_duration(segs[n - 1]);
        if differs(cur as int, audio[n - 1] as int) {
            let e = duration_edit(ti, n - 1, audio[n - 1]);
            assert(va_edit_matches(ts, audio, mc, e));
            let all = prev.push((e, cur));
            assert(va_seg_changes(ti, segs, audio, n) == all);
            assert forall|k: int| 0 <= k < all.len() implies va_edit_matches(ts, audio, mc, #[trigger] all[k].0) by {
                if k < prev.len() {
                    assert(all[k] == prev[k]);
                }
            }
        }
    }
}

proof fn lemma_va_changes(ts: Seq<TrackView>, k: int, audio: Seq<i64>, mc: int)
    requires
        0 <= k <= ts.len() <= usize::MAX,
        forall|t: int| 0 <= t < ts.len() ==> seg_list(#[trigger] ts[t]).len() <= usize::MAX,
        mc <= audio.len(),
    ensures
        forall|q: int| 0 <= q < va_changes(ts, k, audio, mc).len()
            ==> va_edit_matches(ts, audio, mc, #[trigger] va_changes(ts, k, audio, mc)[q].0),
    decreases k,
{
    if k > 0 {
        lemma_va_changes(ts, k - 1, audio, mc);
        if ts[k - 1].kind == "video"@ && ts[k - 1].segments is Some {
            lemma_va_seg_changes(ts, k - 1, audio, mc, va_limit(ts[k - 1], mc));
        }
        let a = va_changes(ts, k - 1, audio, mc);
        let b = va_track_changes(ts, k - 1, audio, mc);
        assert forall|q: int| 0 <= q < (a + b).len() implies va_edit_matches(ts, audio, mc, #[trigger] (a + b)[q].0) by {
            if q >= a.len() {
                assert((a + b)[q] == b[q - a.len()]);
            }
        }
    }
}

/// Law (video/audio, one to one): every edit the video/audio rule makes sets the
/// duration of the `i`-th segment of a video track to the duration of the `i`-th
/// audio segment, for `i` below the number of video and of audio segments, and only
/// where the two differed by more than 1 ms.
pub proof fn law_video_follows_audio(d: DraftView)
    requires
        d.tracks is Some,
        d.tracks->0.len() <= usize::MAX,
        forall|t: int| 0 <= t < d.tracks->0.len() ==> seg_list(#[trigger] d.tracks->0[t]).len() <= usize::MAX,
        spec_sync_video_audio(d) is Ok,
    ensures
        ({
            let ts = d.tracks->0;
            let audio = kind_durations(ts, "audio"@);
            let mc = min_int(kind_durations(ts, "video"@).len() as int, audio.len() as int);
            let edits = spec_sync_video_audio(d)->Ok_0.edits;
            forall|k: int| 0 <= k < edits.len() ==> va_edit_matches(ts, audio, mc, #[trigger] edits[k])
        }),
{
    let ts = d.tracks->0;
    let audio = kind_durations(ts, "audio"@);
    let mc = min_int(kind_durations(ts, "video"@).len() as int, audio.len() as int);
    if audio.len() > 0 {
        lemma_va_changes(ts, ts.len() as int, audio, mc);
        let ch = va_changes(ts, ts.len() as int, audio, mc);
        assert forall|k: int| 0 <= k < edits_of(ch).len() implies va_edit_matches(ts, audio, mc, #[trigger] edits_of(ch)[k]) by {
            assert(edits_of(ch)[k] == ch[k].0);
        }
    }
}

/// The durations given to the first `n` images.
pub open spec fn shares_total(n: int, per: int, rem: int) -> int
    decreases n,
{
    if n <= 0 {
        0
    } else {
        shares_total(n - 1, per, rem) + image_share(n - 1, per, rem)
    }
}

proof fn lemma_shares_total(n: int, per: int, rem: int)
    requires
        n >= 1,
    ensures
        shares_total(n, per, rem) == per * n + rem,
    decreases n,
{
    if n > 1 {
        lemma_shares_total(n - 1, per, rem);
        assert(per * (n - 1) + per == per * n) by (nonlinear_arith);
    } else {
        assert(shares_total(0, per, rem) == 0);
        assert(per * 1 == per);
    }
}

/// Law (images fill the audio): the shares the image rule gives to the `count`
/// still images add up exactly to the total audio duration.
pub proof fn law_image_shares_fill_audio(total_audio: int, count: int)
    requires
        count >= 1,
    ensures
        shares_total(count, trunc_div(total_audio, count), trunc_rem(total_audio, count)) == total_audio,
{
    lemma_shares_total(count, trunc_div(total_audio, count), trunc_rem(total_audio, count));
    if total_audio >= 0 {
        let q = total_audio / count;
        let r = total_audio % count;
        assert(total_audio == count * q + r) by (nonlinear_arith)
            requires count >= 1, total_audio >= 0, q == total_audio / count, r == total_audio % count;
        assert(q * count == count * q) by (nonlinear_arith);
    } else {
        let u = -total_audio;
        let q = u / count;
        let r = u % count;
        assert(u == count * q + r) by (nonlinear_arith)
            requires count >= 1, u >= 0, q == u / count, r == u % count;
        assert((-q) * count == -(count * q)) by (nonlinear_arith);
    }
}

/// Entries ordered by start time.
pub open spec fn sorted_by_start(s: Seq<(i64, i64)>) -> bool {
    forall|i: int, j: int| 0 <= i < j < s.len() ==> s[i].0 <= s[j].0
}

proof fn lemma_insert_sorted(s: Seq<(i64, i64)>, x: (i64, i64))
    requires
        sorted_by_start(s),
    ensures
        sorted_by_start(insert_by_start(s, x)),
        insert_by_start(s, x).len() == s.len() + 1,
        insert_by_start(s, x).to_multiset() == s.to_multiset().insert(x),
    decreases s.len(),
{
    if s.len() == 0 {
        assert(seq![x].to_multiset() =~= s.to_multiset().insert(x)) by {
            broadcast use vstd::seq_lib::group_seq_properties;
        }
    } else if s.last().0 <= x.0 {
        broadcast use vstd::seq_lib::group_seq_properties;
        assert(s.push(x).to_multiset() =~= s.to_multiset().insert(x));
    } else {
        let t = s.drop_last();
        assert(sorted_by_start(t));
        lemma_insert_sorted(t, x);
        let u = insert_by_start(t, x);
        broadcast use vstd::seq_lib::group_seq_properties;
        assert(s =~= t.push(s.last()));
        assert(u.push(s.last()).to_multiset() =~= s.to_multiset().insert(x));
        assert forall|i: int, j: int| 0 <= i < j < u.push(s.last()).len() implies u.push(s.last())[i].0 <= u.push(
            s.last(),
        )[j].0 by {
            if j == u.len() {
                // every entry of u is an entry of t or x, none later than s.last()
                let e = u[i];
                assert(u.to_multiset().count(e) > 0);
                assert(u.contains(e));
                if e != x {
                    assert(t.to_multiset().count(e) > 0);
                    assert(t.contains(e));
                    let m = choose|m: int| 0 <= m < t.len() && t[m] == e;
                    assert(s[m] == e);
                    assert(s[m].0 <= s[s.len() - 1].0);
                }
            }
        }
    }
}

/// Law (subtitles in time order): the subtitle entries are laid over the video in
/// order of their start times, and every entry is used exactly once.
pub proof fn law_subtitles_sorted(s: Seq<(i64, i64)>)
    ensures
        sorted_by_start(sort_by_start(s)),
        sort_by_start(s).to_multiset() == s.to_multiset(),
    decreases s.len(),
{
    if s.len() > 0 {
        law_subtitles_sorted(s.drop_last());
        lemma_insert_sorted(sort_by_start(s.drop_last()), s.last());
        broadcast use vstd::seq_lib::group_seq_properties;
        assert(s =~= s.drop_last().push(s.last()));
    } else {
        assert(s.to_multiset() =~= vstd::multiset::Multiset::empty()) by {
            broadcast use vstd::seq_lib::group_seq_properties;
        }
        assert(sort_by_start(s).to_multiset() =~= vstd::multiset::Multiset::empty()) by {
            broadcast use vstd::seq_lib::group_seq_properties;
        }
    }
}

// ─── Every image and every paired segment is retimed ─────────────────────────

proof fn lemma_img_seg_member(ts: Seq<TrackView>, ti: int, n: int, per: int, rem: int, i: int)
    requires
        0 <= i < n <= seg_list(ts[ti]).len(),
        is_image(seg_list(ts[ti])[i]),
        differs(seg_duration(seg_list(ts[ti])[i]) as int, image_share(image_index(ts, ti, i), per, rem)),
    ensures
        exists|k: int|
            0 <= k < img_seg_changes(ts, ti, n, per, rem).len() && (#[trigger] img_seg_changes(ts, ti, n, per, rem)[k]).0
                == duration_edit(ti, i, image_share(image_index(ts, ti, i), per, rem) as i64),
    decreases n,
{
    let ch = img_seg_changes(ts, ti, n, per, rem);
    if i == n - 1 {
        assert(ch[ch.len() - 1].0 == duration_edit(ti, i, image_share(image_index(ts, ti, i), per, rem) as i64));
    } else {
        lemma_img_seg_member(ts, ti, n - 1, per, rem, i);
        let prev = img_seg_changes(ts, ti, n - 1, per, rem);
        let k = choose|k: int|
            0 <= k < prev.len() && (#[trigger] prev[k]).0 == duration_edit(
                ti,
                i,
                image_share(image_index(ts, ti, i), per, rem) as i64,
            );
        assert(ch[k] == prev[k]);
    }
}

proof fn lemma_img_changes_member(ts: Seq<TrackView>, k: int, per: int, rem: int, ti: int, e: DraftEdit)
    requires
        0 <= ti < k,
        exists|m: int|
            0 <= m < img_track_changes(ts, ti, per, rem).len() && (#[trigger] img_track_changes(ts, ti, per, rem)[m]).0
                == e,
    ensures
        exists|m: int| 0 <= m < img_changes(ts, k, per, rem).len() && (#[trigger] img_changes(ts, k, per, rem)[m]).0 == e,
    decreases k,
{
    let all = img_changes(ts, k, per, rem);
    let before = img_changes(ts, k - 1, per, rem);
    if ti == k - 1 {
        let t = img_track_changes(ts, ti, per, rem);
        let m = choose|m: int| 0 <= m < t.len() && (#[trigger] t[m]).0 == e;
        assert(all[before.len() + m] == t[m]);
    } else {
        lemma_img_changes_member(ts, k - 1, per, rem, ti, e);
        let m = choose|m: int| 0 <= m < before.len() && (#[trigger] before[m]).0 == e;
        assert(all[m] == before[m]);
    }
}

/// Law (every image is retimed): where the image rule retimes at all (there is
/// audio, there are images, and their totals differ by more than 1 ms), every
/// still image of a video track whose duration differs by more than 1 ms from its
/// share gets an edit setting its duration to that share. The share of the image at
/// position `p` among the images is the total audio length divided by the number of
/// images (rounded toward zero), plus the remainder for the first image.
pub proof fn law_every_differing_image_is_retimed(d: DraftView, ti: int, i: int)
    requires
        d.tracks is Some,
        0 <= ti < d.tracks->0.len(),
        d.tracks->0[ti].kind == "video"@,
        0 <= i < seg_list(d.tracks->0[ti]).len(),
        img_reaches(d),
        is_image(seg_list(d.tracks->0[ti])[i]),
        ({
            let ts = d.tracks->0;
            let total = seq_sum(kind_durations(ts, "audio"@));
            let count = video_image_durations(ts).len() as int;
            let p = video_image_durations(ts.take(ti)).len() + image_durations(seg_list(ts[ti]).take(i)).len();
            let share = trunc_div(total, count) + if p == 0 { trunc_rem(total, count) } else { 0 };
            differs(seg_duration(seg_list(ts[ti])[i]) as int, share)
        }),
    ensures
        ({
            let ts = d.tracks->0;
            let total = seq_sum(kind_durations(ts, "audio"@));
            let count = video_image_durations(ts).len() as int;
            let p = video_image_durations(ts.take(ti)).len() + image_durations(seg_list(ts[ti]).take(i)).len();
            let share = trunc_div(total, count) + if p == 0 { trunc_rem(total, count) } else { 0 };
            spec_sync_image_duration(d) matches Ok(step) && step.edits.contains(
                DraftEdit { track: ti as usize, segment: i as usize, field: TimeField::Duration, value: share as i64 },
            )
        }),
{
    let ts = d.tracks->0;
    let total = seq_sum(kind_durations(ts, "audio"@));
    let count = video_image_durations(ts).len() as int;
    let per = trunc_div(total, count);
    let rem = trunc_rem(total, count);
    let share = image_share(image_index(ts, ti, i), per, rem);
    let e = duration_edit(ti, i, share as i64);
    lemma_img_seg_member(ts, ti, seg_list(ts[ti]).len() as int, per, rem, i);
    lemma_img_changes_member(ts, ts.len() as int, per, rem, ti, e);
    let ch = img_changes(ts, ts.len() as int, per, rem);
    let m = choose|m: int| 0 <= m < ch.len() && (#[trigger] ch[m]).0 == e;
    assert(edits_of3(ch)[m] == e);
}

proof fn lemma_sub_seg_member(ts: Seq<TrackView>, ti: int, n: int, subs: Seq<(i64, i64)>, i: int)
    requires
        0 <= i < n <= seg_list(ts[ti]).len(),
        video_segment_total(ts.take(ti)) + i < subs.len(),
        ({
            let s = seg_list(ts[ti])[i];
            let j = video_segment_total(ts.take(ti)) + i;
            differs(seg_start(s) as int, subs[j].0 as int) || differs(seg_duration(s) as int, subs[j].1 as int)
        }),
    ensures
        ({
            let s = seg_list(ts[ti])[i];
            let j = video_segment_total(ts.take(ti)) + i;
            exists|k: int|
                0 <= k < sub_seg_changes(ts, ti, n, subs).len() && #[trigger] sub_seg_changes(ts, ti, n, subs)[k] == (
                    ti,
                    i,
                    j,
                    seg_start(s),
                    subs[j].0,
                    seg_duration(s),
                    subs[j].1,
                )
        }),
    decreases n,
{
    let ch = sub_seg_changes(ts, ti, n, subs);
    if i == n - 1 {
        assert(ch[ch.len() - 1] == ch.last());
    } else {
        lemma_sub_seg_member(ts, ti, n - 1, subs, i);
        let prev = sub_seg_changes(ts, ti, n - 1, subs);
        let s = seg_list(ts[ti])[i];
        let j = video_segment_total(ts.take(ti)) + i;
        let c = (ti, i, j, seg_start(s), subs[j].0, seg_duration(s), subs[j].1);
        let k = choose|k: int| 0 <= k < prev.len() && #[trigger] prev[k] == c;
        assert(ch[k] == prev[k]);
    }
}

proof fn lemma_sub_changes_member(ts: Seq<TrackView>, k: int, subs: Seq<(i64, i64)>, ti: int, c: SubChange)
    requires
        0 <= ti < k,
        sub_track_changes(ts, ti, subs).contains(c),
    ensures
        sub_changes(ts, k, subs).contains(c),
    decreases k,
{
    let all = sub_changes(ts, k, subs);
    let before = sub_changes(ts, k - 1, subs);
    if ti == k - 1 {
        let t = sub_track_changes(ts, ti, subs);
        let m = choose|m: int| 0 <= m < t.len() && t[m] == c;
        assert(all[before.len() + m] == t[m]);
    } else {
        lemma_sub_changes_member(ts, k - 1, subs, ti, c);
        let m = choose|m: int| 0 <= m < before.len() && before[m] == c;
        assert(all[m] == before[m]);
    }
}

proof fn lemma_sub_edits_member(ch: Seq<SubChange>, k: int)
    requires
        0 <= k < ch.len(),
    ensures
        sub_edits(ch).contains(
            DraftEdit { track: ch[k].0 as usize, segment: ch[k].1 as usize, field: TimeField::Start, value: ch[k].4 },
        ),
        sub_edits(ch).contains(
            DraftEdit { track: ch[k].0 as usize, segment: ch[k].1 as usize, field: TimeField::Duration, value: ch[k].6 },
        ),
    decreases ch.len(),
{
    let c = ch[k];
    let es = sub_edits(ch);
    let before = sub_edits(ch.drop_last());
    let e1 = DraftEdit { track: c.0 as usize, segment: c.1 as usize, field: TimeField::Start, value: c.4 };
    let e2 = DraftEdit { track: c.0 as usize, segment: c.1 as usize, field: TimeField::Duration, value: c.6 };
    if k == ch.len() - 1 {
        assert(es[before.len() as int] == e1);
        assert(es[before.len() as int + 1] == e2);
    } else {
        lemma_sub_edits_member(ch.drop_last(), k);
        assert(ch.drop_last()[k] == c);
        let m1 = choose|m: int| 0 <= m < before.len() && before[m] == e1;
        let m2 = choose|m: int| 0 <= m < before.len() && before[m] == e2;
        assert(es[m1] == before[m1]);
        assert(es[m2] == before[m2]);
    }
}

/// Law (video follows each subtitle): with the timed subtitle entries sorted by
/// start, the video segment at position `j` among all video segments is paired with
/// the `j`-th entry; whenever its start or its duration differs from the entry's by
/// more than 1 ms, the rule sets its start to the entry's start and its duration to
/// the entry's duration.
pub proof fn law_subtitles_move_each_paired_segment(d: DraftView, ti: int, i: int)
    requires
        d.tracks is Some,
        0 <= ti < d.tracks->0.len(),
        d.tracks->0[ti].kind == "video"@,
        0 <= i < seg_list(d.tracks->0[ti]).len(),
        video_segment_total(d.tracks->0.take(ti)) + i < sort_by_start(subtitle_entries(d.tracks->0)).len(),
    ensures
        ({
            let ts = d.tracks->0;
            let subs = sort_by_start(subtitle_entries(ts));
            let j = video_segment_total(ts.take(ti)) + i;
            let s = seg_list(ts[ti])[i];
            &&& spec_sync_subtitles(d) is Ok
            &&& (differs(seg_start(s) as int, subs[j].0 as int) || differs(seg_duration(s) as int, subs[j].1 as int))
                ==> {
                &&& spec_sync_subtitles(d)->Ok_0.edits.contains(
                    DraftEdit { track: ti as usize, segment: i as usize, field: TimeField::Start, value: subs[j].0 },
                )
                &&& spec_sync_subtitles(d)->Ok_0.edits.contains(
                    DraftEdit { track: ti as usize, segment: i as usize, field: TimeField::Duration, value: subs[j].1 },
                )
            }
        }),
{
    let ts = d.tracks->0;
    let subs = sort_by_start(subtitle_entries(ts));
    let j = video_segment_total(ts.take(ti)) + i;
    let s = seg_list(ts[ti])[i];
    lemma_segment_total_mono(ts, 0, ti);
    assert(ts.take(0).len() == 0);
    if differs(seg_start(s) as int, subs[j].0 as int) || differs(seg_duration(s) as int, subs[j].1 as int) {
        lemma_sub_seg_member(ts, ti, seg_list(ts[ti]).len() as int, subs, i);
        let c = (ti, i, j, seg_start(s), subs[j].0, seg_duration(s), subs[j].1);
        let t = sub_track_changes(ts, ti, subs);
        let k0 = choose|k: int| 0 <= k < t.len() && #[trigger] t[k] == c;
        assert(t.contains(c));
        lemma_sub_changes_member(ts, ts.len() as int, subs, ti, c);
        let ch = sub_changes(ts, ts.len() as int, subs);
        assert(ch.contains(c));
        let k = choose|k: int| 0 <= k < ch.len() && ch[k] == c;
        assert(ch[k] == c);
        lemma_sub_edits_member(ch, k);
        assert(spec_sync_subtitles(d)->Ok_0.edits == sub_edits(ch));
    }
}

// ─── The rules edit nothing else ─────────────────────────────────────────────

/// What an image edit must be: a duration edit of an image of video track `ti`
/// that differs from its share by more than 1 ms, setting it to that share.
/// The draft's track and segment counts fit in `usize` (as they do for a draft in memory).
pub open spec fn counts_fit(ts: Seq<TrackView>) -> bool {
    &&& ts.len() <= usize::MAX
    &&& forall|t: int| 0 <= t < ts.len() ==> seg_list(#[trigger] ts[t]).len() <= usize::MAX
}

pub open spec fn image_edit_ok(ts: Seq<TrackView>, e: DraftEdit, per: int, rem: int) -> bool {
    let ti = e.track as int;
    let i = e.segment as int;
    &&& ti < ts.len()
    &&& ts[ti].kind == "video"@
    &&& i < seg_list(ts[ti]).len()
    &&& e.field == TimeField::Duration
    &&& is_image(seg_list(ts[ti])[i])
    &&& e.value as int == image_share(image_index(ts, ti, i), per, rem) as i64
    &&& differs(seg_duration(seg_list(ts[ti])[i]) as int, image_share(image_index(ts, ti, i), per, rem))
}

proof fn lemma_img_seg_only(ts: Seq<TrackView>, ti: int, n: int, per: int, rem: int)
    requires
        counts_fit(ts),
        0 <= ti < ts.len(),
        ts[ti].kind == "video"@,
        0 <= n <= seg_list(ts[ti]).len(),
    ensures
        forall|k: int|
            0 <= k < img_seg_changes(ts, ti, n, per, rem).len() ==> image_edit_ok(
                ts,
                (#[trigger] img_seg_changes(ts, ti, n, per, rem)[k]).0,
                per,
                rem,
            ),
    decreases n,
{
    if n > 0 {
        lemma_img_seg_only(ts, ti, n - 1, per, rem);
        let prev = img_seg_changes(ts, ti, n - 1, per, rem);
        let ch = img_seg_changes(ts, ti, n, per, rem);
        assert forall|k: int| 0 <= k < ch.len() implies image_edit_ok(ts, (#[trigger] ch[k]).0, per, rem) by {
            if k < prev.len() {
                assert(ch[k] == prev[k]);
            }
        }
    }
}

proof fn lemma_img_changes_only(ts: Seq<TrackView>, k: int, per: int, rem: int)
    requires
        counts_fit(ts),
        0 <= k <= ts.len(),
    ensures
        forall|m: int|
            0 <= m < img_changes(ts, k, per, rem).len() ==> image_edit_ok(
                ts,
                (#[trigger] img_changes(ts, k, per, rem)[m]).0,
                per,
                rem,
            ),
    decreases k,
{
    if k > 0 {
        lemma_img_changes_only(ts, k - 1, per, rem);
        let before = img_changes(ts, k - 1, per, rem);
        let t = img_track_changes(ts, k - 1, per, rem);
        let all = img_changes(ts, k, per, rem);
        if ts[k - 1].kind == "video"@ && ts[k - 1].segments is Some {
            lemma_img_seg_only(ts, k - 1, seg_list(ts[k - 1]).len() as int, per, rem);
        }
        assert forall|m: int| 0 <= m < all.len() implies image_edit_ok(ts, (#[trigger] all[m]).0, per, rem) by {
            if m < before.len() {
                assert(all[m] == before[m]);
            } else {
                assert(all[m] == t[m - before.len()]);
            }
        }
    }
}

/// Law (the image rule edits only images): every edit of the image rule sets the
/// duration of a still image of a video track, one whose duration differed from its
/// share by more than 1 ms, to that share.
pub proof fn law_image_rule_edits_only_images(d: DraftView)
    requires
        d.tracks is Some,
        counts_fit(d.tracks->0),
        spec_sync_image_duration(d) is Ok,
    ensures
        ({
            let ts = d.tracks->0;
            let total = seq_sum(kind_durations(ts, "audio"@));
            let count = video_image_durations(ts).len() as int;
            forall|k: int|
                0 <= k < spec_sync_image_duration(d)->Ok_0.edits.len() ==> image_edit_ok(
                    ts,
                    #[trigger] spec_sync_image_duration(d)->Ok_0.edits[k],
                    trunc_div(total, count),
                    trunc_rem(total, count),
                )
        }),
{
    let ts = d.tracks->0;
    let total = seq_sum(kind_durations(ts, "audio"@));
    let count = video_image_durations(ts).len() as int;
    let per = trunc_div(total, count);
    let rem = trunc_rem(total, count);
    lemma_img_changes_only(ts, ts.len() as int, per, rem);
    let ch = img_changes(ts, ts.len() as int, per, rem);
    let es = spec_sync_image_duration(d)->Ok_0.edits;
    if es.len() > 0 {
        assert(es == edits_of3(ch));
        assert forall|k: int| 0 <= k < es.len() implies image_edit_ok(ts, #[trigger] es[k], per, rem) by {
            assert(es[k] == ch[k].0);
        }
    }
}

/// What a subtitle edit must be: on a video segment paired with the `j`-th sorted
/// subtitle entry whose start or duration differs from it by more than 1 ms, the
/// entry's start or the entry's duration.
pub open spec fn subtitle_edit_ok(ts: Seq<TrackView>, subs: Seq<(i64, i64)>, e: DraftEdit) -> bool {
    let ti = e.track as int;
    let i = e.segment as int;
    let j = video_segment_total(ts.take(ti)) + i;
    let s = seg_list(ts[ti])[i];
    &&& ti < ts.len()
    &&& ts[ti].kind == "video"@
    &&& i < seg_list(ts[ti]).len()
    &&& 0 <= j < subs.len()
    &&& differs(seg_start(s) as int, subs[j].0 as int) || differs(seg_duration(s) as int, subs[j].1 as int)
    &&& e.field == TimeField::Start ==> e.value == subs[j].0
    &&& e.field == TimeField::Duration ==> e.value == subs[j].1
}

pub open spec fn sub_change_ok(ts: Seq<TrackView>, subs: Seq<(i64, i64)>, c: SubChange) -> bool {
    let s = seg_list(ts[c.0])[c.1];
    let j = video_segment_total(ts.take(c.0)) + c.1;
    &&& 0 <= c.0 < ts.len() <= usize::MAX
    &&& seg_list(ts[c.0]).len() <= usize::MAX
    &&& ts[c.0].kind == "video"@
    &&& 0 <= c.1 < seg_list(ts[c.0]).len()
    &&& c.2 == j
    &&& 0 <= j < subs.len()
    &&& c.4 == subs[j].0
    &&& c.6 == subs[j].1
    &&& differs(seg_start(s) as int, subs[j].0 as int) || differs(seg_duration(s) as int, subs[j].1 as int)
}

proof fn lemma_sub_seg_only(ts: Seq<TrackView>, ti: int, n: int, subs: Seq<(i64, i64)>)
    requires
        counts_fit(ts),
        0 <= ti < ts.len(),
        ts[ti].kind == "video"@,
        0 <= n <= seg_list(ts[ti]).len(),
    ensures
        forall|k: int| 0 <= k < sub_seg_changes(ts, ti, n, subs).len() ==> sub_change_ok(ts, subs, #[trigger] sub_seg_changes(ts, ti, n, subs)[k]),
    decreases n,
{
    if n > 0 {
        lemma_sub_seg_only(ts, ti, n - 1, subs);
        lemma_segment_total_mono(ts, 0, ti);
        assert(ts.take(0).len() == 0);
        let prev = sub_seg_changes(ts, ti, n - 1, subs);
        let ch = sub_seg_changes(ts, ti, n, subs);
        assert forall|k: int| 0 <= k < ch.len() implies sub_change_ok(ts, subs, #[trigger] ch[k]) by {
            if k < prev.len() {
                assert(ch[k] == prev[k]);
            }
        }
    }
}

proof fn lemma_sub_changes_only(ts: Seq<TrackView>, k: int, subs: Seq<(i64, i64)>)
    requires
        counts_fit(ts),
        0 <= k <= ts.len(),
    ensures
        forall|m: int| 0 <= m < sub_changes(ts, k, subs).len() ==> sub_change_ok(ts, subs, #[trigger] sub_changes(ts, k, subs)[m]),
    decreases k,
{
    if k > 0 {
        lemma_sub_changes_only(ts, k - 1, subs);
        let before = sub_changes(ts, k - 1, subs);
        let t = sub_track_changes(ts, k - 1, subs);
        let all = sub_changes(ts, k, subs);
        if ts[k - 1].kind == "video"@ && ts[k - 1].segments is Some {
            lemma_sub_seg_only(ts, k - 1, seg_list(ts[k - 1]).len() as int, subs);
        }
        assert forall|m: int| 0 <= m < all.len() implies sub_change_ok(ts, subs, #[trigger] all[m]) by {
            if m < before.len() {
                assert(all[m] == before[m]);
            } else {
                assert(all[m] == t[m - before.len()]);
            }
        }
    }
}

proof fn lemma_sub_edits_only(ts: Seq<TrackView>, subs: Seq<(i64, i64)>, ch: Seq<SubChange>)
    requires
        forall|m: int| 0 <= m < ch.len() ==> sub_change_ok(ts, subs, #[trigger] ch[m]),
    ensures
        forall|k: int| 0 <= k < sub_edits(ch).len() ==> subtitle_edit_ok(ts, subs, #[trigger] sub_edits(ch)[k]),
    decreases ch.len(),
{
    if ch.len() > 0 {
        let c = ch.last();
        assert(sub_change_ok(ts, subs, ch[ch.len() - 1]));
        assert forall|m: int| 0 <= m < ch.drop_last().len() implies sub_change_ok(ts, subs, #[trigger] ch.drop_last()[m]) by {
            assert(ch.drop_last()[m] == ch[m]);
        }
        lemma_sub_edits_only(ts, subs, ch.drop_last());
        let before = sub_edits(ch.drop_last());
        let es = sub_edits(ch);
        assert forall|k: int| 0 <= k < es.len() implies subtitle_edit_ok(ts, subs, #[trigger] es[k]) by {
            if k < before.len() {
                assert(es[k] == before[k]);
            }
        }
    }
}

/// Law (the subtitle rule edits only paired segments): every edit of the subtitle
/// rule is on a video segment paired with a sorted subtitle entry whose start or
/// duration differed from the entry's by more than 1 ms, and writes the entry's
/// start or the entry's duration.
pub proof fn law_subtitle_rule_edits_only_paired_segments(d: DraftView)
    requires
        d.tracks is Some,
        counts_fit(d.tracks->0),
        spec_sync_subtitles(d) is Ok,
    ensures
        forall|k: int|
            0 <= k < spec_sync_subtitles(d)->Ok_0.edits.len() ==> subtitle_edit_ok(
                d.tracks->0,
                sort_by_start(subtitle_entries(d.tracks->0)),
                #[trigger] spec_sync_subtitles(d)->Ok_0.edits[k],
            ),
{
    let ts = d.tracks->0;
    let subs = sort_by_start(subtitle_entries(ts));
    lemma_sub_changes_only(ts, ts.len() as int, subs);
    let ch = sub_changes(ts, ts.len() as int, subs);
    if subs.len() > 0 {
        lemma_sub_edits_only(ts, subs, ch);
        assert(spec_sync_subtitles(d)->Ok_0.edits == sub_edits(ch));
    }
}

} // verus!
