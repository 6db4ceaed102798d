//! Telling CapCut's windows apart among the windows of the desktop.
//!
//! The desktop's windows are read by the application as [`WindowProbe`]s, in the
//! order the system enumerates them; the functions here decide which of them is
//! CapCut's main window, which are its extra windows, and how its state reads.

use vstd::prelude::*;
use crate::text::{
    ascii_lowercase, ascii_lowercased, dec_digits, has_substring, push_char, push_decimal, push_signed,
    signed_digits, text_contains, text_ends_with,
};

verus! {

/// What is read of one top-level window.
pub struct WindowProbe {
    /// The window handle.
    pub handle: isize,
    pub visible: bool,
    /// The title (empty when it has none).
    pub title: String,
    /// The executable of the owning process, where it could be read.
    pub exe_path: Option<String>,
    /// (left, top, right, bottom), where it could be read.
    pub rect: Option<(i32, i32, i32, i32)>,
}

pub struct WindowProbeView {
    pub handle: isize,
    pub visible: bool,
    pub title: Seq<char>,
    pub exe_path: Option<Seq<char>>,
    pub rect: Option<(i32, i32, i32, i32)>,
}

impl View for WindowProbe {
    type V = WindowProbeView;

    open spec fn view(&self) -> WindowProbeView {
        WindowProbeView {
            handle: self.handle,
            visible: self.visible,
            title: self.title@,
            exe_path: match self.exe_path {
                Some(p) => Some(p@),
                None => None,
            },
            rect: self.rect,
        }
    }
}

pub open spec fn probes_view(v: Seq<WindowProbe>) -> Seq<WindowProbeView> {
    v.map_values(|w: WindowProbe| w@)
}

/// The process runs CapCut's executable: its path, ASCII letters in lower case,
/// ends in "capcut.exe" or passes through a "capcut" folder.
pub open spec fn capcut_exe(path: Option<Seq<char>>) -> bool {
    match path {
        Some(p) => {
            let l = ascii_lowercased(p);
            (l.len() >= 10 && l.subrange(l.len() - 10, l.len() as int) == "capcut.exe"@) || has_substring(l, "\\capcut\\"@)
        },
        None => false,
    }
}

/// Whether a process path is CapCut's executable.
pub fn is_capcut_exe_path(path: &Option<String>) -> (r: bool)
    ensures
        r == capcut_exe(match path {
            Some(p) => Some(p@),
            None => None,
        }),
{
    match path {
        Some(p) => {
            let l = ascii_lowercase(p.as_str());
            proof {
                reveal_strlit("capcut.exe");
            }
            text_ends_with(l.as_str(), "capcut.exe") || text_contains(l.as_str(), "\\capcut\\")
        },
        None => false,
    }
}

/// The window's area in pixels (0 when unknown or negative).
pub open spec fn area_of(w: WindowProbeView) -> int {
    match w.rect {
        Some(r) => {
            let a = (r.2 - r.0) * (r.3 - r.1);
            if a > 0 { a } else { 0 }
        },
        None => 0,
    }
}

/// The area computation stays within `i32`.
pub open spec fn area_fits(w: WindowProbeView) -> bool {
    match w.rect {
        Some(r) => i32::MIN <= r.2 - r.0 <= i32::MAX && i32::MIN <= r.3 - r.1 <= i32::MAX && i32::MIN <= (r.2 - r.0)
            * (r.3 - r.1) <= i32::MAX,
        None => true,
    }
}

/// CapCut's own window: visible, titled with "CapCut" but not a tool or installer,
/// and owned by CapCut's executable.
pub open spec fn is_capcut_window(w: WindowProbeView) -> bool {
    &&& w.visible
    &&& w.title.len() > 0
    &&& has_substring(w.title, "CapCut"@)
    &&& !(has_substring(w.title, "Tool"@) || has_substring(w.title, "Installer"@))
    &&& capcut_exe(w.exe_path)
}

/// Among the first `n` windows, the first CapCut window of largest positive area, with that area.
pub open spec fn main_choice(ws: Seq<WindowProbeView>, n: int) -> (Option<int>, int)
    decreases n,
{
    if n <= 0 {
        (None, 0)
    } else {
        let prev = main_choice(ws, n - 1);
        if is_capcut_window(ws[n - 1]) && area_of(ws[n - 1]) > prev.1 {
            (Some(n - 1), area_of(ws[n - 1]))
        } else {
            prev
        }
    }
}

proof fn lemma_main_choice(ws: Seq<WindowProbeView>, n: int)
    requires
        0 <= n <= ws.len(),
    ensures
        main_choice(ws, n).1 >= 0,
        match main_choice(ws, n).0 {
            Some(i) => {
                &&& 0 <= i < n
                &&& is_capcut_window(ws[i])
                &&& area_of(ws[i]) == main_choice(ws, n).1 > 0
                &&& forall|j: int| 0 <= j < n && is_capcut_window(ws[j]) ==> area_of(#[trigger] ws[j]) <= area_of(ws[i])
                &&& forall|j: int| 0 <= j < i && is_capcut_window(ws[j]) ==> area_of(#[trigger] ws[j]) < area_of(ws[i])
            },
            None => main_choice(ws, n).1 == 0 && forall|j: int|
                0 <= j < n && is_capcut_window(ws[j]) ==> area_of(#[trigger] ws[j]) == 0,
        },
    decreases n,
{
    if n > 0 {
        lemma_main_choice(ws, n - 1);
    }
}

/// CapCut's main window is the largest: the chosen window is a CapCut window with a
/// positive area, no CapCut window in the list is larger, and every CapCut window
/// listed before it is smaller; none is chosen only when every CapCut window has no
/// area.
pub proof fn law_main_window_is_largest(ws: Seq<WindowProbeView>)
    ensures
        match main_choice(ws, ws.len() as int).0 {
            Some(i) => {
                &&& 0 <= i < ws.len()
                &&& is_capcut_window(ws[i])
                &&& area_of(ws[i]) > 0
                &&& forall|j: int| 0 <= j < ws.len() && is_capcut_window(ws[j]) ==> area_of(#[trigger] ws[j]) <= area_of(ws[i])
                &&& forall|j: int| 0 <= j < i && is_capcut_window(ws[j]) ==> area_of(#[trigger] ws[j]) < area_of(ws[i])
            },
            None => forall|j: int| 0 <= j < ws.len() && is_capcut_window(ws[j]) ==> area_of(#[trigger] ws[j]) == 0,
        },
{
    lemma_main_choice(ws, ws.len() as int);
}

fn area_of_probe(w: &WindowProbe) -> (a: i32)
    requires
        area_fits(w@),
    ensures
        a == area_of(w@),
{
    match w.rect {
        Some((l, t, r, b)) => {
            let a = (r - l) * (b - t);
            if a > 0 { a } else { 0 }
        },
        None => 0,
    }
}

fn is_capcut_probe(w: &WindowProbe) -> (r: bool)
    ensures
        r == is_capcut_window(w@),
{
    if !w.visible || w.title.as_str().unicode_len() == 0 {
        return false;
    }
    let t = w.title.as_str();
    text_contains(t, "CapCut") && !(text_contains(t, "Tool") || text_contains(t, "Installer")) && is_capcut_exe_path(
        &w.exe_path,
    )
}

/// The index of CapCut's main window: the first CapCut window of largest positive area.
pub fn main_window_index(ws: &Vec<WindowProbe>) -> (r: Option<usize>)
    requires
        forall|i: int| 0 <= i < ws@.len() && is_capcut_window(#[trigger] ws@[i]@) ==> area_fits(ws@[i]@),
    ensures
        match r {
            Some(i) => main_choice(probes_view(ws@), ws@.len() as int).0 == Some(i as int) && i < ws@.len(),
            None => main_choice(probes_view(ws@), ws@.len() as int).0 is None,
        },
{
    let ghost wv = probes_view(ws@);
    let mut best: Option<usize> = None;
    let mut best_area: i32 = 0;
    let mut i: usize = 0;
    while i < ws.len()
        invariant
            wv == probes_view(ws@),
            i <= ws@.len(),
            forall|k: int| 0 <= k < ws@.len() && is_capcut_window(#[trigger] ws@[k]@) ==> area_fits(ws@[k]@),
            main_choice(wv, i as int).1 == best_area,
            match best {
                Some(b) => main_choice(wv, i as int).0 == Some(b as int) && b < i,
                None => main_choice(wv, i as int).0 is None,
            },
        decreases ws@.len() - i,
    {
        if is_capcut_probe(&ws[i]) {
            let a = area_of_probe(&ws[i]);
            if a > best_area {
                best = Some(i);
                best_area = a;
            }
        }
        i = i + 1;
    }
    best
}

/// The window to bring to the front: CapCut's main window, as a handle.
pub fn focus_capcut(ws: &Vec<WindowProbe>) -> (r: Option<isize>)
    requires
        forall|i: int| 0 <= i < ws@.len() && is_capcut_window(#[trigger] ws@[i]@) ==> area_fits(ws@[i]@),
    ensures
        match main_choice(probes_view(ws@), ws@.len() as int).0 {
            Some(i) => r == Some(ws@[i].handle),
            None => r is None,
        },
{
    match main_window_index(ws) {
        Some(i) => Some(ws[i].handle),
        None => None,
    }
}

/// CapCut's main window handle.
pub fn get_capcut_main_hwnd(ws: &Vec<WindowProbe>) -> (r: Option<isize>)
    requires
        forall|i: int| 0 <= i < ws@.len() && is_capcut_window(#[trigger] ws@[i]@) ==> area_fits(ws@[i]@),
    ensures
        match main_choice(probes_view(ws@), ws@.len() as int).0 {
            Some(i) => r == Some(ws@[i].handle),
            None => r is None,
        },
{
    focus_capcut(ws)
}

/// CapCut's main window as (left, top, right, bottom).
pub fn get_capcut_window_rect(ws: &Vec<WindowProbe>) -> (r: Option<(i32, i32, i32, i32)>)
    requires
        forall|i: int| 0 <= i < ws@.len() && is_capcut_window(#[trigger] ws@[i]@) ==> area_fits(ws@[i]@),
    ensures
        match main_choice(probes_view(ws@), ws@.len() as int).0 {
            Some(i) => r == ws@[i].rect,
            None => r is None,
        },
{
    match main_window_index(ws) {
        Some(i) => ws[i].rect,
        None => None,
    }
}

/// The title of CapCut's main window.
pub fn get_capcut_title(ws: &Vec<WindowProbe>) -> (r: Option<String>)
    requires
        forall|i: int| 0 <= i < ws@.len() && is_capcut_window(#[trigger] ws@[i]@) ==> area_fits(ws@[i]@),
    ensures
        match main_choice(probes_view(ws@), ws@.len() as int).0 {
            Some(i) => r matches Some(t) && t@ == ws@[i].title@,
            None => r is None,
        },
{
    match main_window_index(ws) {
        Some(i) => Some(ws[i].title.clone()),
        None => None,
    }
}

/// Whether CapCut's title says it is not responding.
pub fn is_capcut_not_responding(title: &Option<String>) -> (r: bool)
    ensures
        r == (title matches Some(t) && has_substring(t@, "Not Responding"@)),
{
    match title {
        Some(t) => text_contains(t.as_str(), "Not Responding"),
        None => false,
    }
}

/// A visible window with a title mentioning CapCut (counted to see projects open and close).
pub open spec fn mentions_capcut(w: WindowProbeView) -> bool {
    w.visible && w.title.len() > 0 && has_substring(w.title, "CapCut"@)
}

pub open spec fn capcut_window_total(ws: Seq<WindowProbeView>, n: int) -> nat
    decreases n,
{
    if n <= 0 {
        0
    } else {
        capcut_window_total(ws, n - 1) + if mentions_capcut(ws[n - 1]) { 1nat } else { 0nat }
    }
}

/// The number of visible windows whose title mentions CapCut.
pub fn get_capcut_window_count(ws: &Vec<WindowProbe>) -> (r: usize)
    ensures
        r == capcut_window_total(probes_view(ws@), ws@.len() as int),
{
    let ghost wv = probes_view(ws@);
    let mut count: usize = 0;
    let mut i: usize = 0;
    while i < ws.len()
        invariant
            wv == probes_view(ws@),
            i <= ws@.len(),
            count <= i,
            count == capcut_window_total(wv, i as int),
        decreases ws@.len() - i,
    {
        if ws[i].visible && ws[i].title.as_str().unicode_len() > 0 && text_contains(ws[i].title.as_str(), "CapCut") {
            count = count + 1;
        }
        i = i + 1;
    }
    count
}

/// A visible window of CapCut's process with a positive area (popups and dialogs included).
pub open spec fn is_capcut_process_window(w: WindowProbeView) -> bool {
    w.visible && capcut_exe(w.exe_path) && area_of(w) > 0
}

/// The positions of CapCut's process windows, in order.
pub open spec fn process_windows(ws: Seq<WindowProbeView>, n: int) -> Seq<int>
    decreases n,
{
    if n <= 0 {
        seq![]
    } else {
        process_windows(ws, n - 1) + if is_capcut_process_window(ws[n - 1]) { seq![n - 1] } else { seq![] }
    }
}

/// Among the listed positions, the last of largest area (as `Iterator::max_by_key` picks).
pub open spec fn last_largest(ws: Seq<WindowProbeView>, list: Seq<int>) -> int
    decreases list.len(),
{
    if list.len() <= 1 {
        list[0]
    } else {
        let prev = last_largest(ws, list.drop_last());
        if area_of(ws[list.last()]) >= area_of(ws[prev]) { list.last() } else { prev }
    }
}

/// CapCut's extra windows: with more than one process window, all but the largest
/// (the last one when several are equally large); otherwise none.
pub open spec fn spec_extra_windows(ws: Seq<WindowProbeView>) -> Seq<int> {
    let list = process_windows(ws, ws.len() as int);
    if list.len() <= 1 {
        seq![]
    } else {
        without(list, last_largest(ws, list))
    }
}

/// The list without the entries equal to `v`.
pub open spec fn without(list: Seq<int>, v: int) -> Seq<int>
    decreases list.len(),
{
    if list.len() == 0 {
        seq![]
    } else {
        without(list.drop_last(), v) + if list.last() == v { seq![] } else { seq![list.last()] }
    }
}

/// The positions of CapCut's extra windows (the ones to close), in order.
pub fn extra_window_indices(ws: &Vec<WindowProbe>) -> (r: Vec<usize>)
    requires
        forall|i: int| 0 <= i < ws@.len() && ws@[i].visible ==> area_fits(#[trigger] ws@[i]@),
    ensures
        r@.map_values(|i: usize| i as int) == spec_extra_windows(probes_view(ws@)),
{
    let ghost wv = probes_view(ws@);
    let mut list: Vec<usize> = Vec::new();
    let mut i: usize = 0;
    while i < ws.len()
        invariant
            wv == probes_view(ws@),
            i <= ws@.len(),
            forall|k: int| 0 <= k < ws@.len() && ws@[k].visible ==> area_fits(#[trigger] ws@[k]@),
            list@.map_values(|x: usize| x as int) == process_windows(wv, i as int),
            forall|q: int| 0 <= q < list@.len() ==> #[trigger] list@[q] < i && ws@[list@[q] as int].visible,
        decreases ws@.len() - i,
    {
        let ghost l0 = list@;
        if ws[i].visible && is_capcut_exe_path(&ws[i].exe_path) && area_of_probe(&ws[i]) > 0 {
            list.push(i);
            assert(list@[list@.len() - 1] == i);
        }
        i = i + 1;
        assert(list@.map_values(|x: usize| x as int) =~= process_windows(wv, i as int));
    }
    let ghost lv = list@.map_values(|x: usize| x as int);
    let mut out: Vec<usize> = Vec::new();
    if list.len() <= 1 {
        assert(out@.map_values(|x: usize| x as int) =~= seq![]);
        return out;
    }
    assert(list@[0] < ws@.len());
    let mut main: usize = list[0];
    let mut k: usize = 1;
    assert(lv.take(1) =~= seq![lv[0]]);
    while k < list.len()
        invariant
            wv == probes_view(ws@),
            lv == list@.map_values(|x: usize| x as int),
            lv == process_windows(wv, ws@.len() as int),
            forall|q: int| 0 <= q < list@.len() ==> #[trigger] list@[q] < ws@.len() && ws@[list@[q] as int].visible,
            forall|q: int| 0 <= q < ws@.len() && ws@[q].visible ==> area_fits(#[trigger] ws@[q]@),
            1 <= k <= list@.len(),
            main as int == last_largest(wv, lv.take(k as int)),
            0 <= main < ws@.len(),
            ws@[main as int].visible,
        decreases list@.len() - k,
    {
        assert(lv.take(k + 1).drop_last() =~= lv.take(k as int));
        let c = list[k];
        assert(ws@[list@[k as int] as int].visible);
        if area_of_probe(&ws[c]) >= area_of_probe(&ws[main]) {
            main = c;
        }
        k = k + 1;
    }
    assert(lv.take(k as int) =~= lv);
    let mut j: usize = 0;
    while j < list.len()
        invariant
            lv == list@.map_values(|x: usize| x as int),
            j <= list@.len(),
            out@.map_values(|x: usize| x as int) == without(lv.take(j as int), main as int),
        decreases list@.len() - j,
    {
        assert(lv.take(j + 1).drop_last() =~= lv.take(j as int));
        if list[j] != main {
            out.push(list[j]);
        }
        j = j + 1;
        assert(out@.map_values(|x: usize| x as int) =~= without(lv.take(j as int), main as int));
    }
    assert(lv.take(j as int) =~= lv);
    out
}

/// The first of CapCut's extra windows, as a handle (the one to focus and close).
pub fn get_capcut_extra_window(ws: &Vec<WindowProbe>) -> (r: Option<isize>)
    requires
        forall|i: int| 0 <= i < ws@.len() && ws@[i].visible ==> area_fits(#[trigger] ws@[i]@),
    ensures
        spec_extra_windows(probes_view(ws@)).len() == 0 ==> r is None,
        spec_extra_windows(probes_view(ws@)).len() > 0 ==> r == Some(
            ws@[spec_extra_windows(probes_view(ws@))[0]].handle,
        ),
{
    let extra = extra_window_indices(ws);
    if extra.len() == 0 {
        return None;
    }
    let ghost ev = extra@.map_values(|i: usize| i as int);
    assert(ev[0] == extra@[0] as int);
    proof {
        lemma_process_windows_in_range(probes_view(ws@), ws@.len() as int);
        lemma_without_subset(process_windows(probes_view(ws@), ws@.len() as int), last_largest(
            probes_view(ws@),
            process_windows(probes_view(ws@), ws@.len() as int),
        ));
    }
    Some(ws[extra[0]].handle)
}

proof fn lemma_process_windows_in_range(ws: Seq<WindowProbeView>, n: int)
    ensures
        forall|q: int| 0 <= q < process_windows(ws, n).len() ==> 0 <= #[trigger] process_windows(ws, n)[q] < n,
    decreases n,
{
    if n > 0 {
        lemma_process_windows_in_range(ws, n - 1);
        let prev = process_windows(ws, n - 1);
        assert forall|q: int| 0 <= q < process_windows(ws, n).len() implies 0 <= #[trigger] process_windows(ws, n)[q]
            < n by {
            if q < prev.len() {
                assert(process_windows(ws, n)[q] == prev[q]);
            }
        }
    }
}

proof fn lemma_without_subset(list: Seq<int>, v: int)
    ensures
        forall|q: int| 0 <= q < without(list, v).len() ==> list.contains(#[trigger] without(list, v)[q]),
    decreases list.len(),
{
    if list.len() > 0 {
        lemma_without_subset(list.drop_last(), v);
        assert forall|q: int| 0 <= q < without(list, v).len() implies list.contains(#[trigger] without(list, v)[q]) by {
            let w = without(list.drop_last(), v);
            if q < w.len() {
                assert(without(list, v)[q] == w[q]);
                assert(list.drop_last().contains(w[q]));
                let m = choose|m: int| 0 <= m < list.drop_last().len() && list.drop_last()[m] == w[q];
                assert(list[m] == w[q]);
            } else {
                assert(without(list, v)[q] == list.last());
                assert(list[list.len() - 1] == list.last());
            }
        }
    }
}

/// The titles of the visible windows that mention CapCut, in order.
pub open spec fn capcut_titles(ws: Seq<WindowProbeView>, n: int) -> Seq<Seq<char>>
    decreases n,
{
    if n <= 0 {
        seq![]
    } else {
        capcut_titles(ws, n - 1) + if mentions_capcut(ws[n - 1]) { seq![ws[n - 1].title] } else { seq![] }
    }
}

/// The titles of the windows that mention CapCut (for diagnostics).
pub fn list_capcut_windows(ws: &Vec<WindowProbe>) -> (r: Vec<String>)
    ensures
        r@.map_values(|t: String| t@) == capcut_titles(probes_view(ws@), ws@.len() as int),
{
    let ghost wv = probes_view(ws@);
    let mut out: Vec<String> = Vec::new();
    let mut i: usize = 0;
    while i < ws.len()
        invariant
            wv == probes_view(ws@),
            i <= ws@.len(),
            out@.map_values(|t: String| t@) == capcut_titles(wv, i as int),
        decreases ws@.len() - i,
    {
        if ws[i].visible && ws[i].title.as_str().unicode_len() > 0 && text_contains(ws[i].title.as_str(), "CapCut") {
            out.push(ws[i].title.clone());
        }
        i = i + 1;
        assert(out@.map_values(|t: String| t@) =~= capcut_titles(wv, i as int));
    }
    out
}

/// The rectangle of the first window found, trying `titles` in order with `lookup`
/// (which gives a window's rectangle from its title, where there is such a window).
pub fn get_window_rect_by_any_title<F: Fn(&str) -> Option<(i32, i32, i32, i32)>>(titles: &[&str], lookup: F) -> (r: Option<(i32, i32, i32, i32)>)
    requires
        forall|i: int| 0 <= i < titles@.len() ==> call_requires(lookup, (titles@[i],)),
    ensures
        match r {
            None => forall|i: int| 0 <= i < titles@.len() ==> call_ensures(lookup, (titles@[i],), None),
            Some(rect) => exists|i: int|
                0 <= i < titles@.len() && call_ensures(lookup, (titles@[i],), Some(rect)) && forall|j: int|
                    0 <= j < i ==> call_ensures(lookup, (titles@[j],), None),
        },
{
    let mut i: usize = 0;
    while i < titles.len()
        invariant
            i <= titles@.len(),
            forall|k: int| 0 <= k < titles@.len() ==> call_requires(lookup, (titles@[k],)),
            forall|j: int| 0 <= j < i ==> call_ensures(lookup, (titles@[j],), None),
        decreases titles@.len() - i,
    {
        let found = lookup(titles[i]);
        match found {
            Some(rect) => {
                return Some(rect);
            },
            None => {},
        }
        i = i + 1;
    }
    None
}

/// The rendering of a window rectangle in diagnostics: "W×H @(L,T)", or "NOT_FOUND".
pub open spec fn rect_text(rect: Option<(i32, i32, i32, i32)>) -> Seq<char> {
    match rect {
        Some(r) => signed_digits(r.2 - r.0) + "×"@ + signed_digits(r.3 - r.1) + " @("@ + signed_digits(r.0 as int)
            + ","@ + signed_digits(r.1 as int) + ")"@,
        None => "NOT_FOUND"@,
    }
}

pub open spec fn bool_text(b: bool) -> Seq<char> {
    if b { "true"@ } else { "false"@ }
}

/// One line describing the foreground window and CapCut's window.
pub open spec fn diagnostic_text(fg_title: Seq<char>, capcut_fg: bool, rect: Option<(i32, i32, i32, i32)>, maximized: bool, wins: nat) -> Seq<char> {
    "FG='"@ + fg_title + "' | CapCut="@ + rect_text(rect) + " max="@ + bool_text(maximized) + " fg="@ + bool_text(capcut_fg)
        + " | wins="@ + dec_digits(wins)
}

fn push_bool(s: &mut String, b: bool)
    ensures
        final(s)@ == old(s)@ + bool_text(b),
{
    if b {
        s.append("true");
    } else {
        s.append("false");
    }
}

/// A diagnostic line of CapCut's window state.
pub fn diagnostic_snapshot(fg_title: &str, capcut_fg: bool, rect: Option<(i32, i32, i32, i32)>, maximized: bool, win_count: usize) -> (r: String)
    requires
        rect matches Some(q) ==> (i32::MIN <= q.2 - q.0 <= i32::MAX && i32::MIN <= q.3 - q.1 <= i32::MAX),
    ensures
        r@ == diagnostic_text(fg_title@, capcut_fg, rect, maximized, win_count as nat),
{
    let mut s = String::from_str("FG='");
    s.append(fg_title);
    s.append("' | CapCut=");
    match rect {
        Some((l, t, r, b)) => {
            push_signed(&mut s, (r - l) as i64);
            s.append("×");
            push_signed(&mut s, (b - t) as i64);
            s.append(" @(");
            push_signed(&mut s, l as i64);
            s.append(",");
            push_signed(&mut s, t as i64);
            s.append(")");
        },
        None => {
            s.append("NOT_FOUND");
        },
    }
    s.append(" max=");
    push_bool(&mut s, maximized);
    s.append(" fg=");
    push_bool(&mut s, capcut_fg);
    s.append(" | wins=");
    push_decimal(&mut s, win_count as u64);
    s
}

} // verus!
