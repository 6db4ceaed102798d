//! The stored form of a draft: `draft_content.json`, held as a `serde_json::Value`.
//!
//! [`JsonTree`] is what a value holds as far as the rules read it, and
//! [`json_tree`] names it for a stored value. [`draft_of`] reads the rules' model
//! out of a value, [`write_edits`] writes the rules' edits back into it, and
//! [`sync_draft_text`] runs one project from the file's text to the text to store.

use vstd::prelude::*;
use serde_json::Value;
use crate::sync::{
    Draft, DraftView, DraftEdit, Segment, SegmentView, TimeField, Timerange, Track, TrackView, tracks_view,
    segments_view, set_time, edit_ok, edits_ok, apply_edit, apply_all, lemma_edits_ok_prefix,
    SyncOptions, SyncResult, SyncResultView, SyncOutcome, DraftFailure, ProcessView, process_ok, spec_process,
    spec_processed_draft, stage_va, stage_img, stage_sub, applied_text, failed_view, texts_view, process_draft,
    draft_processable, failure_result, written_result,
};

verus! {

#[verifier::external_type_specification]
#[verifier::external_body]
pub struct ExJsonValue(Value);

/// What a JSON value holds.
pub enum JsonTree {
    Null,
    Bool(bool),
    /// A number that reads as a signed 64-bit integer.
    Int(i64),
    Str(Seq<char>),
    Array(Seq<JsonTree>),
    Object(Map<Seq<char>, JsonTree>),
    /// Any other number.
    Other,
}

/// What the stored value `v` holds.
pub uninterp spec fn json_tree(v: Value) -> JsonTree;

/// What parsing `text` as JSON gives: the value's contents, or the parser's message.
pub uninterp spec fn parse_outcome(text: Seq<char>) -> Result<JsonTree, Seq<char>>;

/// The deepest nesting of arrays and objects that serde_json's parser accepts (it
/// refuses a value nested 128 deep).
pub const MAX_NESTING: u64 = 127;

/// Arrays and objects in `t` are nested at most `n` deep.
pub open spec fn nests_within(t: JsonTree, n: nat) -> bool
    decreases n,
{
    match t {
        JsonTree::Array(s) => n > 0 && forall|i: int|
            0 <= i < s.len() ==> nests_within(#[trigger] s[i], (n - 1) as nat),
        JsonTree::Object(m) => n > 0 && forall|k: Seq<char>|
            m.dom().contains(k) ==> nests_within(#[trigger] m[k], (n - 1) as nat),
        _ => true,
    }
}

/// `t[k]` as serde_json reads it: the entry of an object, null for anything else.
pub open spec fn tree_key(t: JsonTree, k: Seq<char>) -> JsonTree {
    match t {
        JsonTree::Object(m) => if m.dom().contains(k) { m[k] } else { JsonTree::Null },
        _ => JsonTree::Null,
    }
}

/// A value that `t[k] = ..` can write into: an object, or null (which becomes one).
pub open spec fn tree_indexable(t: JsonTree) -> bool {
    t is Object || t is Null
}

pub open spec fn tree_text(t: JsonTree) -> Option<Seq<char>> {
    match t {
        JsonTree::Str(s) => Some(s),
        _ => None,
    }
}

pub open spec fn tree_int(t: JsonTree) -> Option<i64> {
    match t {
        JsonTree::Int(i) => Some(i),
        _ => None,
    }
}

pub open spec fn tree_bool(t: JsonTree) -> Option<bool> {
    match t {
        JsonTree::Bool(b) => Some(b),
        _ => None,
    }
}

pub open spec fn timerange_of_tree(t: JsonTree) -> Timerange {
    match t {
        JsonTree::Null => Timerange::Absent,
        JsonTree::Object(_) => Timerange::Fields {
            start: tree_int(tree_key(t, "start"@)),
            duration: tree_int(tree_key(t, "duration"@)),
        },
        _ => Timerange::Unusable,
    }
}

/// What the rules read of a segment value.
pub open spec fn segment_of_tree(t: JsonTree) -> SegmentView {
    SegmentView {
        writable: tree_indexable(t),
        timerange: timerange_of_tree(tree_key(t, "target_timerange"@)),
        material_type: tree_text(tree_key(t, "material_type"@)),
        media_type: tree_text(tree_key(t, "media_type"@)),
        is_placeholder: tree_bool(tree_key(t, "is_placeholder"@)),
        source_duration: tree_int(tree_key(tree_key(t, "source_timerange"@), "duration"@)),
    }
}

/// What the rules read of a track value.
pub open spec fn track_of_tree(t: JsonTree) -> TrackView {
    TrackView {
        kind: match tree_key(t, "type"@) {
            JsonTree::Str(s) => s,
            _ => Seq::empty(),
        },
        segments: match tree_key(t, "segments"@) {
            JsonTree::Array(s) => Some(s.map_values(|x: JsonTree| segment_of_tree(x))),
            _ => None,
        },
    }
}

/// What the rules read of a draft value.
pub open spec fn spec_draft_of(t: JsonTree) -> DraftView {
    DraftView {
        indexable: tree_indexable(t),
        tracks: match tree_key(t, "tracks"@) {
            JsonTree::Array(s) => Some(s.map_values(|x: JsonTree| track_of_tree(x))),
            _ => None,
        },
    }
}

pub open spec fn trees_of(v: Seq<Value>) -> Seq<JsonTree> {
    v.map_values(|x: Value| json_tree(x))
}

// ─── Text ────────────────────────────────────────────────────────────────────

/// `serde_json::from_str::<Value>`: the value that `text` holds, or the parser's
/// error as text. Claimed: the outcome is the one named by `parse_outcome`, and a
/// value that comes back is nested no deeper than the parser's limit.
#[verifier::external_body]
fn parse_json(text: &str) -> (r: Result<Value, String>)
    ensures
        match r {
            Ok(v) => parse_outcome(text@) == Ok::<JsonTree, Seq<char>>(json_tree(v)) && nests_within(
                json_tree(v),
                MAX_NESTING as nat,
            ),
            Err(e) => parse_outcome(text@) == Err::<JsonTree, Seq<char>>(e@),
        },
{
    match serde_json::from_str::<Value>(text) {
        Ok(v) => Ok(v),
        Err(e) => Err(e.to_string()),
    }
}

/// `serde_json::to_string` on a value: its JSON text, or the error as text.
/// Claimed, for a value nested within the parser's limit (the writer has no limit,
/// the parser has, so deeper values are left out): text that comes back parses to
/// what the value holds, as `JsonTree` sees it (serde_json writes an integer as its
/// digits and any other number with a fraction or an exponent, so each reads back
/// as the same kind of number). Not claimed: whether or when it fails, or that a
/// number other than a 64-bit signed integer keeps its exact value.
#[verifier::external_body]
fn json_to_text(v: &Value) -> (r: Result<String, String>)
    requires
        nests_within(json_tree(*v), MAX_NESTING as nat),
    ensures
        match r {
            Ok(s) => parse_outcome(s@) == Ok::<JsonTree, Seq<char>>(json_tree(*v)),
            Err(_) => true,
        },
{
    match serde_json::to_string(v) {
        Ok(s) => Ok(s),
        Err(e) => Err(e.to_string()),
    }
}

// ─── Reading ─────────────────────────────────────────────────────────────────

/// serde_json's `Value[&str]`: the object's entry under `k`, or null.
#[verifier::external_body]
fn json_key<'a>(v: &'a Value, k: &str) -> (r: &'a Value)
    ensures
        json_tree(*r) == tree_key(json_tree(*v), k@),
{
    &v[k]
}

/// serde_json's `Value::as_array`: the elements of an array.
#[verifier::external_body]
fn json_array(v: &Value) -> (r: Option<&Vec<Value>>)
    ensures
        match r {
            Some(a) => json_tree(*v) == JsonTree::Array(trees_of(a@)),
            None => !(json_tree(*v) is Array),
        },
{
    v.as_array()
}

/// serde_json's `Value::as_str`.
#[verifier::external_body]
fn json_str(v: &Value) -> (r: Option<&str>)
    ensures
        match r {
            Some(s) => json_tree(*v) == JsonTree::Str(s@),
            None => !(json_tree(*v) is Str),
        },
{
    v.as_str()
}

/// serde_json's `Value::as_i64`.
#[verifier::external_body]
fn json_i64(v: &Value) -> (r: Option<i64>)
    ensures
        r == tree_int(json_tree(*v)),
{
    v.as_i64()
}

/// serde_json's `Value::as_bool`.
#[verifier::external_body]
fn json_bool(v: &Value) -> (r: Option<bool>)
    ensures
        r == tree_bool(json_tree(*v)),
{
    v.as_bool()
}

/// serde_json's `Value::is_object`.
#[verifier::external_body]
fn json_is_object(v: &Value) -> (r: bool)
    ensures
        r == json_tree(*v) is Object,
{
    v.is_object()
}

/// serde_json's `Value::is_null`.
#[verifier::external_body]
fn json_is_null(v: &Value) -> (r: bool)
    ensures
        r == json_tree(*v) is Null,
{
    v.is_null()
}

fn text_of(v: &Value) -> (r: Option<String>)
    ensures
        match r {
            Some(s) => tree_text(json_tree(*v)) == Some(s@),
            None => tree_text(json_tree(*v)) is None,
        },
{
    match json_str(v) {
        Some(s) => Some(String::from_str(s)),
        None => None,
    }
}

fn timerange_of(v: &Value) -> (r: Timerange)
    ensures
        r == timerange_of_tree(json_tree(*v)),
{
    if json_is_null(v) {
        Timerange::Absent
    } else if json_is_object(v) {
        Timerange::Fields { start: json_i64(json_key(v, "start")), duration: json_i64(json_key(v, "duration")) }
    } else {
        Timerange::Unusable
    }
}

/// Reads what the rules need of one segment value.
pub fn segment_of(v: &Value) -> (r: Segment)
    ensures
        r@ == segment_of_tree(json_tree(*v)),
{
    Segment {
        writable: json_is_object(v) || json_is_null(v),
        timerange: timerange_of(json_key(v, "target_timerange")),
        material_type: text_of(json_key(v, "material_type")),
        media_type: text_of(json_key(v, "media_type")),
        is_placeholder: json_bool(json_key(v, "is_placeholder")),
        source_duration: json_i64(json_key(json_key(v, "source_timerange"), "duration")),
    }
}

/// Reads what the rules need of one track value.
pub fn track_of(v: &Value) -> (r: Track)
    ensures
        r@ == track_of_tree(json_tree(*v)),
{
    let kind = match json_str(json_key(v, "type")) {
        Some(s) => String::from_str(s),
        None => String::new(),
    };
    let segments = match json_array(json_key(v, "segments")) {
        None => None,
        Some(a) => {
            let ghost src = trees_of(a@);
            let mut out: Vec<Segment> = Vec::new();
            let mut i: usize = 0;
            while i < a.len()
                invariant
                    i <= a@.len(),
                    src == trees_of(a@),
                    src.len() == a@.len(),
                    out@.len() == i,
                    segments_view(out@) =~= src.take(i as int).map_values(|x: JsonTree| segment_of_tree(x)),
                decreases a@.len() - i,
            {
                let s = segment_of(&a[i]);
                assert(src[i as int] == json_tree(a@[i as int]));
                let ghost prev = out@;
                out.push(s);
                assert(out@ == prev.push(s));
                assert(segments_view(out@)[i as int] == segment_of_tree(src[i as int]));
                assert forall|j: int| 0 <= j < i + 1 implies #[trigger] segments_view(out@)[j] == src.take(i + 1).map_values(|x: JsonTree| segment_of_tree(x))[j] by {
                    if j < i {
                        assert(out@[j] == prev[j]);
                        assert(segments_view(prev)[j] == src.take(i as int).map_values(|x: JsonTree| segment_of_tree(x))[j]);
                    }
                }
                assert(segments_view(out@) =~= src.take(i + 1).map_values(|x: JsonTree| segment_of_tree(x)));
                i = i + 1;
            }
            assert(src.take(i as int) =~= src);
            Some(out)
        },
    };
    Track { kind, segments }
}

/// Reads the rules' model out of a draft value.
pub fn draft_of(v: &Value) -> (r: Draft)
    ensures
        r@ == spec_draft_of(json_tree(*v)),
{
    let indexable = json_is_object(v) || json_is_null(v);
    let tracks = match json_array(json_key(v, "tracks")) {
        None => None,
        Some(a) => {
            let ghost src = trees_of(a@);
            let mut out: Vec<Track> = Vec::new();
            let mut i: usize = 0;
            while i < a.len()
                invariant
                    i <= a@.len(),
                    src == trees_of(a@),
                    src.len() == a@.len(),
                    out@.len() == i,
                    tracks_view(out@) =~= src.take(i as int).map_values(|x: JsonTree| track_of_tree(x)),
                decreases a@.len() - i,
            {
                let t = track_of(&a[i]);
                assert(src[i as int] == json_tree(a@[i as int]));
                let ghost prev = out@;
                out.push(t);
                assert(out@ == prev.push(t));
                assert(tracks_view(out@)[i as int] == track_of_tree(src[i as int]));
                assert forall|j: int| 0 <= j < i + 1 implies #[trigger] tracks_view(out@)[j] == src.take(i + 1).map_values(|x: JsonTree| track_of_tree(x))[j] by {
                    if j < i {
                        assert(out@[j] == prev[j]);
                        assert(tracks_view(prev)[j] == src.take(i as int).map_values(|x: JsonTree| track_of_tree(x))[j]);
                    }
                }
                assert(tracks_view(out@) =~= src.take(i + 1).map_values(|x: JsonTree| track_of_tree(x)));
                i = i + 1;
            }
            assert(src.take(i as int) =~= src);
            Some(out)
        },
    };
    Draft { indexable, tracks }
}

// ─── Writing ─────────────────────────────────────────────────────────────────

/// `t[k] = x`: an object takes the entry; null becomes an object holding it.
pub open spec fn tree_put(t: JsonTree, k: Seq<char>, x: JsonTree) -> JsonTree {
    match t {
        JsonTree::Object(m) => JsonTree::Object(m.insert(k, x)),
        _ => JsonTree::Object(Map::empty().insert(k, x)),
    }
}

/// The elements of an array (none for anything else).
pub open spec fn tree_items(t: JsonTree) -> Seq<JsonTree> {
    match t {
        JsonTree::Array(s) => s,
        _ => Seq::empty(),
    }
}

/// serde_json's `&mut Value[&str]`: the entry under `k`, inserted as null where it
/// is missing, in an object or in a null that becomes an empty object first.
/// Claimed: what the entry holds, and that the value afterwards holds the entry as
/// it was left. (It panics on any other value, which `requires` leaves out.)
#[verifier::external_body]
fn json_key_mut<'a>(v: &'a mut Value, k: &str) -> (r: &'a mut Value)
    requires
        tree_indexable(json_tree(*old(v))),
    ensures
        json_tree(*r) == tree_key(json_tree(*old(v)), k@),
        json_tree(*final(v)) == tree_put(json_tree(*old(v)), k@, json_tree(*final(r))),
{
    &mut v[k]
}

/// serde_json's `&mut Value[usize]`: element `i` of an array. Claimed: what the
/// element holds, and that the array afterwards holds the element as it was left.
/// (It panics on anything but an array long enough, which `requires` leaves out.)
#[verifier::external_body]
fn json_at_mut<'a>(v: &'a mut Value, i: usize) -> (r: &'a mut Value)
    requires
        json_tree(*old(v)) is Array,
        i < tree_items(json_tree(*old(v))).len(),
    ensures
        json_tree(*r) == tree_items(json_tree(*old(v)))[i as int],
        json_tree(*final(v)) == JsonTree::Array(tree_items(json_tree(*old(v))).update(i as int, json_tree(*final(r)))),
{
    &mut v[i]
}

/// serde_json's `Value::from(i64)`: a number that reads back as `x`.
#[verifier::external_body]
fn json_int(x: i64) -> (r: Value)
    ensures
        json_tree(r) == JsonTree::Int(x),
{
    Value::from(x)
}

/// A timerange value after a time is written into it: a duration only into an
/// object; a start into an object or null.
pub open spec fn written_timerange(tr: JsonTree, f: TimeField, v: i64) -> JsonTree {
    match f {
        TimeField::Duration => if tr is Object { tree_put(tr, "duration"@, JsonTree::Int(v)) } else { tr },
        TimeField::Start => tree_put(tr, "start"@, JsonTree::Int(v)),
    }
}

/// The draft value after one edit is written, as
/// `draft["tracks"][t]["segments"][s]["target_timerange"]...` writes it.
pub open spec fn tree_write_edit(t: JsonTree, e: DraftEdit) -> JsonTree {
    let ts = tree_items(tree_key(t, "tracks"@));
    let track = ts[e.track as int];
    let ss = tree_items(tree_key(track, "segments"@));
    let seg = ss[e.segment as int];
    let tr = tree_key(seg, "target_timerange"@);
    let seg2 = tree_put(seg, "target_timerange"@, written_timerange(tr, e.field, e.value));
    let track2 = tree_put(track, "segments"@, JsonTree::Array(ss.update(e.segment as int, seg2)));
    tree_put(t, "tracks"@, JsonTree::Array(ts.update(e.track as int, track2)))
}

/// The draft value after the edits are written, in order.
pub open spec fn tree_write_all(t: JsonTree, es: Seq<DraftEdit>) -> JsonTree
    decreases es.len(),
{
    if es.len() == 0 {
        t
    } else {
        tree_write_edit(tree_write_all(t, es.drop_last()), es.last())
    }
}

proof fn lemma_keys_differ()
    ensures
        "type"@ != "segments"@,
        "target_timerange"@ != "material_type"@,
        "target_timerange"@ != "media_type"@,
        "target_timerange"@ != "is_placeholder"@,
        "target_timerange"@ != "source_timerange"@,
        "start"@ != "duration"@,
{
    reveal_strlit("type");
    reveal_strlit("segments");
    reveal_strlit("target_timerange");
    reveal_strlit("material_type");
    reveal_strlit("media_type");
    reveal_strlit("is_placeholder");
    reveal_strlit("source_timerange");
    reveal_strlit("start");
    reveal_strlit("duration");
    assert("target_timerange"@[0] != "source_timerange"@[0]);
    assert("type"@[0] != "segments"@[0]);
    assert("start"@[0] != "duration"@[0]);
}

/// Writing an edit into the value does to the rules' model what the edit does.
pub proof fn lemma_write_edit(t: JsonTree, e: DraftEdit)
    requires
        edit_ok(spec_draft_of(t), e),
    ensures
        spec_draft_of(tree_write_edit(t, e)) == apply_edit(spec_draft_of(t), e),
{
    lemma_keys_differ();
    let d = spec_draft_of(t);
    let ts = tree_items(tree_key(t, "tracks"@));
    let track = ts[e.track as int];
    let ss = tree_items(tree_key(track, "segments"@));
    let seg = ss[e.segment as int];
    let tr = tree_key(seg, "target_timerange"@);
    let seg2 = tree_put(seg, "target_timerange"@, written_timerange(tr, e.field, e.value));
    let track2 = tree_put(track, "segments"@, JsonTree::Array(ss.update(e.segment as int, seg2)));
    let tv = ts.map_values(|x: JsonTree| track_of_tree(x));
    let sv = ss.map_values(|x: JsonTree| segment_of_tree(x));
    assert(tv[e.track as int] == track_of_tree(track));
    assert(sv[e.segment as int] == segment_of_tree(seg));
    assert(segment_of_tree(seg2) == set_time(segment_of_tree(seg), e.field, e.value));
    assert(ss.update(e.segment as int, seg2).map_values(|x: JsonTree| segment_of_tree(x))
        =~= sv.update(e.segment as int, set_time(sv[e.segment as int], e.field, e.value)));
    assert(track_of_tree(track2) == TrackView {
        kind: tv[e.track as int].kind,
        segments: Some(sv.update(e.segment as int, set_time(sv[e.segment as int], e.field, e.value))),
    });
    assert(ts.update(e.track as int, track2).map_values(|x: JsonTree| track_of_tree(x))
        =~= tv.update(e.track as int, track_of_tree(track2)));
}

/// Writing edits into the value does to the rules' model what the edits do.
pub proof fn lemma_write_all(t: JsonTree, es: Seq<DraftEdit>)
    requires
        edits_ok(spec_draft_of(t), es),
    ensures
        spec_draft_of(tree_write_all(t, es)) == apply_all(spec_draft_of(t), es),
    decreases es.len(),
{
    if es.len() > 0 {
        lemma_write_all(t, es.drop_last());
        lemma_write_edit(tree_write_all(t, es.drop_last()), es.last());
    }
}

fn write_one_edit(doc: &mut Value, e: DraftEdit)
    requires
        edit_ok(spec_draft_of(json_tree(*old(doc))), e),
    ensures
        json_tree(*final(doc)) == tree_write_edit(json_tree(*old(doc)), e),
{
    let tracks = json_key_mut(doc, "tracks");
    let track = json_at_mut(tracks, e.track);
    let segs = json_key_mut(track, "segments");
    let seg = json_at_mut(segs, e.segment);
    let tr = json_key_mut(seg, "target_timerange");
    match e.field {
        TimeField::Duration => {
            if json_is_object(tr) {
                let slot = json_key_mut(tr, "duration");
                *slot = json_int(e.value);
            }
        },
        TimeField::Start => {
            let slot = json_key_mut(tr, "start");
            *slot = json_int(e.value);
        },
    }
}

/// Writes the edits into the draft value, in order, as the rules store them.
pub fn write_edits(doc: &mut Value, edits: &Vec<DraftEdit>)
    requires
        edits_ok(spec_draft_of(json_tree(*old(doc))), edits@),
    ensures
        json_tree(*final(doc)) == tree_write_all(json_tree(*old(doc)), edits@),
        spec_draft_of(json_tree(*final(doc))) == apply_all(spec_draft_of(json_tree(*old(doc))), edits@),
{
    let ghost t0 = json_tree(*doc);
    let mut k: usize = 0;
    while k < edits.len()
        invariant
            k <= edits@.len(),
            edits_ok(spec_draft_of(t0), edits@),
            json_tree(*doc) == tree_write_all(t0, edits@.take(k as int)),
        decreases edits@.len() - k,
    {
        proof {
            lemma_edits_ok_prefix(spec_draft_of(t0), edits@, k + 1);
            assert(edits@.take(k + 1).drop_last() =~= edits@.take(k as int));
            lemma_write_all(t0, edits@.take(k as int));
        }
        write_one_edit(doc, edits[k]);
        k = k + 1;
    }
    assert(edits@.take(k as int) =~= edits@);
    proof {
        lemma_write_all(t0, edits@);
    }
}

/// A track value after `track["segments"]` is taken for writing where the track
/// is a video track: a missing `segments` becomes null.
pub open spec fn touched_track(x: JsonTree) -> JsonTree {
    if tree_key(x, "type"@) == JsonTree::Str("video"@) {
        tree_put(x, "segments"@, tree_key(x, "segments"@))
    } else {
        x
    }
}

pub open spec fn touched_prefix(ts: Seq<JsonTree>, i: int) -> Seq<JsonTree> {
    Seq::new(ts.len(), |j: int| if j < i { touched_track(ts[j]) } else { ts[j] })
}

/// The draft value after a rule has gone through its video tracks for writing.
pub open spec fn tree_touch_video(t: JsonTree) -> JsonTree {
    match tree_key(t, "tracks"@) {
        JsonTree::Array(ts) => if t is Object {
            tree_put(t, "tracks"@, JsonTree::Array(ts.map_values(|x: JsonTree| touched_track(x))))
        } else {
            t
        },
        _ => t,
    }
}

fn touch_track(doc: &mut Value, i: usize)
    requires
        json_tree(*old(doc)) is Object,
        tree_key(json_tree(*old(doc)), "tracks"@) is Array,
        i < tree_items(tree_key(json_tree(*old(doc)), "tracks"@)).len(),
    ensures
        json_tree(*final(doc)) == tree_put(
            json_tree(*old(doc)),
            "tracks"@,
            JsonTree::Array(
                tree_items(tree_key(json_tree(*old(doc)), "tracks"@)).update(
                    i as int,
                    touched_track(tree_items(tree_key(json_tree(*old(doc)), "tracks"@))[i as int]),
                ),
            ),
        ),
{
    proof {
        reveal_strlit("video");
    }
    let tracks = json_key_mut(doc, "tracks");
    let track = json_at_mut(tracks, i);
    let is_video = match json_str(json_key(track, "type")) {
        Some(k) => crate::text::text_eq(k, "video"),
        None => false,
    };
    if is_video {
        let _ = json_key_mut(track, "segments");
    }
}

/// Takes `track["segments"]` for writing in every video track, as a rule that goes
/// through them does.
fn touch_video_tracks(doc: &mut Value)
    ensures
        json_tree(*final(doc)) == tree_touch_video(json_tree(*old(doc))),
{
    let ghost t0 = json_tree(*doc);
    if !json_is_object(doc) {
        return;
    }
    let n = match json_array(json_key(doc, "tracks")) {
        Some(a) => a.len(),
        None => {
            return;
        },
    };
    let ghost ts0 = tree_items(tree_key(t0, "tracks"@));
    let ghost m0 = t0->Object_0;
    assert(m0.insert("tracks"@, JsonTree::Array(touched_prefix(ts0, 0))) =~= m0) by {
        assert(touched_prefix(ts0, 0) =~= ts0);
    }
    let mut i: usize = 0;
    while i < n
        invariant
            i <= n,
            n == ts0.len(),
            t0 is Object,
            m0 == t0->Object_0,
            tree_key(t0, "tracks"@) == JsonTree::Array(ts0),
            json_tree(*doc) == JsonTree::Object(m0.insert("tracks"@, JsonTree::Array(touched_prefix(ts0, i as int)))),
        decreases n - i,
    {
        touch_track(doc, i);
        assert(touched_prefix(ts0, i as int).update(i as int, touched_track(touched_prefix(ts0, i as int)[i as int]))
            =~= touched_prefix(ts0, i + 1));
        assert(m0.insert("tracks"@, JsonTree::Array(touched_prefix(ts0, i as int))).insert(
            "tracks"@,
            JsonTree::Array(touched_prefix(ts0, i + 1)),
        ) =~= m0.insert("tracks"@, JsonTree::Array(touched_prefix(ts0, i + 1))));
        i = i + 1;
    }
    assert(touched_prefix(ts0, n as int) =~= ts0.map_values(|x: JsonTree| touched_track(x)));
}

/// Going through the video tracks for writing changes nothing the rules read.
pub proof fn lemma_touch_keeps_model(t: JsonTree)
    ensures
        spec_draft_of(tree_touch_video(t)) == spec_draft_of(t),
{
    lemma_keys_differ();
    if let JsonTree::Array(ts) = tree_key(t, "tracks"@) {
        if t is Object {
            assert forall|j: int| 0 <= j < ts.len() implies #[trigger] track_of_tree(touched_track(ts[j])) == track_of_tree(ts[j]) by {
                let x = ts[j];
                if tree_key(x, "type"@) == JsonTree::Str("video"@) {
                    assert(x is Object);
                }
            }
            assert(ts.map_values(|x: JsonTree| touched_track(x)).map_values(|x: JsonTree| track_of_tree(x))
                =~= ts.map_values(|x: JsonTree| track_of_tree(x)));
        }
    }
}

/// The value stored for a parsed draft `t` that the rules rewrite: their edits
/// written in, and the video tracks taken for writing where a rule went through them.
pub open spec fn stored_tree(t: JsonTree, p: ProcessView) -> JsonTree {
    if p.touches_video {
        tree_touch_video(tree_write_all(t, p.edits))
    } else {
        tree_write_all(t, p.edits)
    }
}

// ─── Nesting ─────────────────────────────────────────────────────────────────

proof fn lemma_key_within(x: JsonTree, k: Seq<char>, n: nat)
    requires
        n > 0,
        nests_within(x, n),
    ensures
        nests_within(tree_key(x, k), (n - 1) as nat),
{
    if let JsonTree::Object(m) = x {
        if m.dom().contains(k) {
            assert(nests_within(m[k], (n - 1) as nat));
        }
    }
}

proof fn lemma_put_within(x: JsonTree, k: Seq<char>, y: JsonTree, n: nat)
    requires
        n > 0,
        tree_indexable(x),
        nests_within(x, n),
        nests_within(y, (n - 1) as nat),
    ensures
        nests_within(tree_put(x, k, y), n),
{
    if let JsonTree::Object(m) = x {
        assert forall|k2: Seq<char>| m.insert(k, y).dom().contains(k2) implies nests_within(
            #[trigger] m.insert(k, y)[k2],
            (n - 1) as nat,
        ) by {
            if k2 != k {
                assert(m.dom().contains(k2));
            }
        }
    } else {
        let e = Map::<Seq<char>, JsonTree>::empty().insert(k, y);
        assert forall|k2: Seq<char>| e.dom().contains(k2) implies nests_within(#[trigger] e[k2], (n - 1) as nat) by {
            assert(k2 == k);
        }
    }
}

proof fn lemma_update_within(ts: Seq<JsonTree>, i: int, y: JsonTree, n: nat)
    requires
        n > 0,
        0 <= i < ts.len(),
        nests_within(JsonTree::Array(ts), n),
        nests_within(y, (n - 1) as nat),
    ensures
        nests_within(JsonTree::Array(ts.update(i, y)), n),
{
    // the elements of the array are the array value's items
    assert(JsonTree::Array(ts) matches JsonTree::Array(s) && s == ts);
    assert(forall|k: int| 0 <= k < ts.len() ==> nests_within(#[trigger] ts[k], (n - 1) as nat));
    assert forall|j: int| 0 <= j < ts.update(i, y).len() implies nests_within(
        #[trigger] ts.update(i, y)[j],
        (n - 1) as nat,
    ) by {
        if j != i {
            assert(ts.update(i, y)[j] == ts[j]);
            assert(nests_within(ts[j], (n - 1) as nat));
        }
    }
}

/// Writing an edit nests nothing deeper than six levels, so a draft within a limit
/// of at least six stays within it.
proof fn lemma_write_edit_within(t: JsonTree, e: DraftEdit, n: nat)
    requires
        n >= 6,
        nests_within(t, n),
        edit_ok(spec_draft_of(t), e),
    ensures
        nests_within(tree_write_edit(t, e), n),
{
    let ts = tree_items(tree_key(t, "tracks"@));
    let track = ts[e.track as int];
    let ss = tree_items(tree_key(track, "segments"@));
    let seg = ss[e.segment as int];
    let tr = tree_key(seg, "target_timerange"@);
    let seg2 = tree_put(seg, "target_timerange"@, written_timerange(tr, e.field, e.value));
    let track2 = tree_put(track, "segments"@, JsonTree::Array(ss.update(e.segment as int, seg2)));
    let tv = ts.map_values(|x: JsonTree| track_of_tree(x));
    let sv = ss.map_values(|x: JsonTree| segment_of_tree(x));
    assert(tv[e.track as int] == track_of_tree(track));
    assert(sv[e.segment as int] == segment_of_tree(seg));
    lemma_key_within(t, "tracks"@, n);
    assert(nests_within(track, (n - 2) as nat));
    lemma_key_within(track, "segments"@, (n - 2) as nat);
    assert(nests_within(seg, (n - 4) as nat));
    lemma_key_within(seg, "target_timerange"@, (n - 4) as nat);
    let w = written_timerange(tr, e.field, e.value);
    assert(nests_within(w, (n - 5) as nat)) by {
        if e.field == TimeField::Start || tr is Object {
            lemma_put_within(tr, if e.field == TimeField::Start { "start"@ } else { "duration"@ }, JsonTree::Int(e.value), (n - 5) as nat);
        }
    }
    lemma_put_within(seg, "target_timerange"@, w, (n - 4) as nat);
    lemma_update_within(ss, e.segment as int, seg2, (n - 3) as nat);
    lemma_put_within(track, "segments"@, JsonTree::Array(ss.update(e.segment as int, seg2)), (n - 2) as nat);
    lemma_update_within(ts, e.track as int, track2, (n - 1) as nat);
    lemma_put_within(t, "tracks"@, JsonTree::Array(ts.update(e.track as int, track2)), n);
}

proof fn lemma_write_all_within(t: JsonTree, es: Seq<DraftEdit>, n: nat)
    requires
        n >= 6,
        nests_within(t, n),
        edits_ok(spec_draft_of(t), es),
    ensures
        nests_within(tree_write_all(t, es), n),
    decreases es.len(),
{
    if es.len() > 0 {
        lemma_write_all_within(t, es.drop_last(), n);
        lemma_write_all(t, es.drop_last());
        lemma_write_edit_within(tree_write_all(t, es.drop_last()), es.last(), n);
    }
}

/// Taking the video tracks' `segments` for writing nests nothing deeper.
proof fn lemma_touch_within(t: JsonTree, n: nat)
    requires
        n >= 3,
        nests_within(t, n),
    ensures
        nests_within(tree_touch_video(t), n),
{
    if let JsonTree::Array(ts) = tree_key(t, "tracks"@) {
        if t is Object {
            lemma_key_within(t, "tracks"@, n);
            let us = ts.map_values(|x: JsonTree| touched_track(x));
            assert forall|j: int| 0 <= j < us.len() implies nests_within(#[trigger] us[j], (n - 2) as nat) by {
                let x = ts[j];
                assert(nests_within(x, (n - 2) as nat));
                if tree_key(x, "type"@) == JsonTree::Str("video"@) {
                    lemma_key_within(x, "segments"@, (n - 2) as nat);
                    lemma_put_within(x, "segments"@, tree_key(x, "segments"@), (n - 2) as nat);
                }
            }
            lemma_put_within(t, "tracks"@, JsonTree::Array(us), n);
        }
    }
}

// ─── One project ─────────────────────────────────────────────────────────────

proof fn lemma_apply_concat(d: DraftView, a: Seq<DraftEdit>, b: Seq<DraftEdit>)
    ensures
        apply_all(d, a + b) == apply_all(apply_all(d, a), b),
        edits_ok(d, a) && edits_ok(apply_all(d, a), b) ==> edits_ok(d, a + b),
    decreases b.len(),
{
    if b.len() == 0 {
        assert(a + b =~= a);
    } else {
        lemma_apply_concat(d, a, b.drop_last());
        assert((a + b).drop_last() =~= a + b.drop_last());
        assert((a + b).last() == b.last());
    }
}

/// Where the rules rewrite the draft, the edits they report can be written in one
/// go and leave the model as the rules left it.
proof fn lemma_process_edits(name: Seq<char>, d: DraftView, o: SyncOptions)
    requires
        process_ok(d, o),
        spec_process(name, d, o).finished is None,
    ensures
        edits_ok(d, spec_process(name, d, o).edits),
        apply_all(d, spec_process(name, d, o).edits) == spec_processed_draft(d, o),
{
    if let Ok(s1) = stage_va(d, o) {
        let d1 = apply_all(d, s1.edits);
        if let Ok(s2) = stage_img(d1, o) {
            let d2 = apply_all(d1, s2.edits);
            if let Ok(s3) = stage_sub(d2, o) {
                lemma_apply_concat(d, s1.edits, s2.edits);
                lemma_apply_concat(d, s1.edits + s2.edits, s3.edits);
            }
        }
    }
}

/// What storing the project gives for the parsed draft `t`: where the rules finish
/// without rewriting it, their report and nothing to store; otherwise the draft
/// with the edits written, stored as JSON text that reads back as exactly that
/// value and reported as applied, or, where it cannot be turned into text, a
/// failure with the changes made.
pub open spec fn draft_run_ok(name: Seq<char>, t: JsonTree, o: SyncOptions, result: SyncResultView, text: Option<Seq<char>>) -> bool {
    let p = spec_process(name, spec_draft_of(t), o);
    match p.finished {
        Some(f) => result == f && text is None,
        None => match text {
            Some(s) => {
                &&& parse_outcome(s) == Ok::<JsonTree, Seq<char>>(stored_tree(t, p))
                &&& result == (SyncResultView {
                    project: name,
                    success: true,
                    message: applied_text(p.changes.len()),
                    changes: p.changes,
                })
            },
            None => exists|e: Seq<char>| result == failed_view(name, "Lỗi serialize JSON: "@ + e, p.changes),
        },
    }
}

/// Runs the chosen rules on a parsed draft and writes their edits into it; gives
/// the report and, where the draft is to be stored, its new text.
pub fn process_parsed(name: &str, doc: &mut Value, opts: &SyncOptions) -> (r: (SyncResult, Option<String>))
    requires
        process_ok(spec_draft_of(json_tree(*old(doc))), *opts),
        nests_within(json_tree(*old(doc)), MAX_NESTING as nat),
    ensures
        draft_run_ok(name@, json_tree(*old(doc)), *opts, r.0@, opt_view(r.1)),
        spec_process(name@, spec_draft_of(json_tree(*old(doc))), *opts).finished is None ==> {
            &&& json_tree(*final(doc)) == stored_tree(
                json_tree(*old(doc)),
                spec_process(name@, spec_draft_of(json_tree(*old(doc))), *opts),
            )
            &&& spec_draft_of(json_tree(*final(doc))) == spec_processed_draft(spec_draft_of(json_tree(*old(doc))), *opts)
        },
{
    let ghost t0 = json_tree(*doc);
    let mut draft = draft_of(doc);
    match process_draft(name, &mut draft, opts) {
        SyncOutcome::Finished(r) => (r, None),
        SyncOutcome::Write { step, touches_video } => {
            proof {
                lemma_process_edits(name@, spec_draft_of(t0), *opts);
            }
            write_edits(doc, &step.edits);
            proof {
                lemma_touch_keeps_model(json_tree(*doc));
                lemma_write_all_within(t0, step.edits@, MAX_NESTING as nat);
                lemma_touch_within(json_tree(*doc), MAX_NESTING as nat);
            }
            if touches_video {
                touch_video_tracks(doc);
            }
            let ghost changes = texts_view(step.messages@);
            match json_to_text(doc) {
                Ok(s) => (written_result(name, step.messages), Some(s)),
                Err(e) => {
                    let r = failure_result(name, DraftFailure::Serialize(e), step.messages);
                    assert(r@ == failed_view(name@, "Lỗi serialize JSON: "@ + e@, changes));
                    (r, None)
                },
            }
        },
    }
}

/// The stored draft holds the edited draft: where the rules rewrite a parsed draft,
/// the value written back reads, for the rules, as the model the rules left.
pub proof fn law_stored_draft_holds_the_edits(name: Seq<char>, t: JsonTree, o: SyncOptions)
    requires
        process_ok(spec_draft_of(t), o),
        spec_process(name, spec_draft_of(t), o).finished is None,
    ensures
        spec_draft_of(stored_tree(t, spec_process(name, spec_draft_of(t), o)))
            == spec_processed_draft(spec_draft_of(t), o),
{
    let p = spec_process(name, spec_draft_of(t), o);
    lemma_process_edits(name, spec_draft_of(t), o);
    lemma_write_all(t, p.edits);
    lemma_touch_keeps_model(tree_write_all(t, p.edits));
}

pub open spec fn opt_view(o: Option<String>) -> Option<Seq<char>> {
    match o {
        Some(s) => Some(s@),
        None => None,
    }
}

/// One project run from the text of its `draft_content.json`.
pub struct DraftRun {
    /// The report.
    pub result: SyncResult,
    /// The text parsed as JSON (the file is then backed up before anything else).
    pub parsed: bool,
    /// The new text to store, where the draft is rewritten.
    pub text: Option<String>,
}

/// Runs one project on the text of its `draft_content.json`: parses it, runs the
/// chosen rules, writes their edits into the JSON and renders it. `None` where the
/// text parses but the rules cannot run on it without an arithmetic overflow or a
/// write into a value that cannot take it (there the project cannot be processed).
pub fn sync_draft_text(name: &str, text: &str, opts: &SyncOptions) -> (r: Option<DraftRun>)
    ensures
        match parse_outcome(text@) {
            Err(e) => r matches Some(run) && {
                &&& !run.parsed
                &&& run.text is None
                &&& run.result@ == failed_view(name@, "Lỗi parse JSON: "@ + e, seq![])
            },
            Ok(t) => if process_ok(spec_draft_of(t), *opts) {
                r matches Some(run) && run.parsed && draft_run_ok(name@, t, *opts, run.result@, opt_view(run.text))
            } else {
                r is None
            },
        },
{
    match parse_json(text) {
        Err(e) => {
            let ghost ev = e@;
            let result = failure_result(name, DraftFailure::Parse(e), Vec::new());
            assert(result@.changes =~= seq![]);
            Some(DraftRun { result, parsed: false, text: None })
        },
        Ok(mut doc) => {
            let draft = draft_of(&doc);
            if !draft_processable(&draft, opts) {
                return None;
            }
            let (result, out) = process_parsed(name, &mut doc, opts);
            Some(DraftRun { result, parsed: true, text: out })
        },
    }
}

} // verus!
