//! Listing the CapCut projects of a folder, most recently changed first.

use vstd::prelude::*;
use crate::text::text_starts_with;

verus! {

/// A project as the front end lists it.
#[derive(Debug)]
pub struct ProjectInfo {
    pub id: String,
    pub name: String,
    pub status: String,
}

/// What is read of one entry of the projects folder.
pub struct FolderEntry {
    /// The name, where it is valid Unicode.
    pub name: Option<String>,
    /// The entry is a folder (false where its type could not be read).
    pub is_dir: bool,
    /// The last change of the project folder, in nanoseconds from 1970 (0 where it could not be read).
    pub modified: i128,
}

/// A listed project: (name, last change).
pub type ListedView = (Seq<char>, i128);

/// The entries that are projects: folders with a valid name not starting with '.'.
pub open spec fn listed(es: Seq<FolderEntry>) -> Seq<ListedView>
    decreases es.len(),
{
    if es.len() == 0 {
        seq![]
    } else {
        let e = es.last();
        listed(es.drop_last()) + match e.name {
            Some(n) => if e.is_dir && !(n@.len() > 0 && n@[0] == '.') { seq![(n@, e.modified)] } else { seq![] },
            None => seq![],
        }
    }
}

/// Places `x` after every project changed at the same time or later.
pub open spec fn insert_by_recency(s: Seq<ListedView>, x: ListedView) -> Seq<ListedView>
    decreases s.len(),
{
    if s.len() == 0 {
        seq![x]
    } else if s.last().1 >= x.1 {
        s.push(x)
    } else {
        insert_by_recency(s.drop_last(), x).push(s.last())
    }
}

/// Stable sort, most recently changed first.
pub open spec fn sort_by_recency(s: Seq<ListedView>) -> Seq<ListedView>
    decreases s.len(),
{
    if s.len() == 0 {
        seq![]
    } else {
        insert_by_recency(sort_by_recency(s.drop_last()), s.last())
    }
}

/// The listed projects: id and name are the folder name, the status "Pending".
pub open spec fn projects_as_listed(v: Seq<ProjectInfo>) -> Seq<Seq<char>> {
    v.map_values(|p: ProjectInfo| p.name@)
}

pub open spec fn well_listed(p: ProjectInfo) -> bool {
    p.id@ == p.name@ && p.status@ == "Pending"@
}

proof fn lemma_insert_recency_at(s: Seq<ListedView>, x: ListedView, p: int)
    requires
        0 <= p <= s.len(),
        forall|j: int| p <= j < s.len() ==> #[trigger] s[j].1 < x.1,
        p == 0 || s[p - 1].1 >= x.1,
    ensures
        insert_by_recency(s, x) == s.take(p).push(x) + s.skip(p),
    decreases s.len(),
{
    if s.len() == 0 {
        assert(s.take(p).push(x) + s.skip(p) =~= seq![x]);
    } else if p == s.len() {
        assert(s.take(p).push(x) + s.skip(p) =~= s.push(x));
    } else {
        lemma_insert_recency_at(s.drop_last(), x, p);
        assert(s.drop_last().take(p).push(x) + s.drop_last().skip(p) + seq![s.last()] =~= s.take(p).push(x)
            + s.skip(p));
    }
}

/// The projects of a folder: every folder with a valid name not starting with '.',
/// most recently changed first (ties keep the folder's order).
pub fn scan_projects(entries: &Vec<FolderEntry>) -> (r: Vec<ProjectInfo>)
    ensures
        projects_as_listed(r@) == sort_by_recency(listed(entries@)).map_values(|x: ListedView| x.0),
        forall|i: int| 0 <= i < r@.len() ==> well_listed(#[trigger] r@[i]),
{
    // The listed entries with their change times, sorted as they are found.
    let mut sorted: Vec<(String, i128)> = Vec::new();
    let mut k: usize = 0;
    while k < entries.len()
        invariant
            k <= entries@.len(),
            sorted@.map_values(|x: (String, i128)| (x.0@, x.1)) == sort_by_recency(listed(entries@.take(k as int))),
        decreases entries@.len() - k,
    {
        let e = &entries[k];
        assert(entries@.take(k + 1).drop_last() =~= entries@.take(k as int));
        let ghost before = sorted@.map_values(|x: (String, i128)| (x.0@, x.1));
        match &e.name {
            Some(n) => {
                let hidden = text_starts_with(n.as_str(), ".");
                proof {
                    reveal_strlit(".");
                    if n@.len() > 0 && n@[0] == '.' {
                        assert(n@.subrange(0, 1) =~= "."@);
                    }
                    if hidden {
                        assert(n@.subrange(0, 1)[0] == '.');
                    }
                    assert(hidden == (n@.len() > 0 && n@[0] == '.'));
                    assert(entries@.take(k + 1).last() == *e);
                }
                if e.is_dir && !hidden {
                    let x = (n.clone(), e.modified);
                    let mut p: usize = sorted.len();
                    while p > 0 && sorted[p - 1].1 < x.1
                        invariant
                            p <= sorted@.len(),
                            forall|j: int| p <= j < sorted@.len() ==> #[trigger] sorted@[j].1 < x.1,
                        decreases p,
                    {
                        p = p - 1;
                    }
                    proof {
                        let sv = sorted@.map_values(|x: (String, i128)| (x.0@, x.1));
                        assert forall|j: int| p <= j < sv.len() implies #[trigger] sv[j].1 < x.1 by {
                            assert(sv[j].1 == sorted@[j].1);
                        }
                        lemma_insert_recency_at(sv, (x.0@, x.1), p as int);
                    }
                    sorted.insert(p, x);
                    assert(sorted@.map_values(|x: (String, i128)| (x.0@, x.1)) =~= before.take(p as int).push((n@, e.modified))
                        + before.skip(p as int));
                    assert(listed(entries@.take(k + 1)) =~= listed(entries@.take(k as int)).push((n@, e.modified)));
                    assert(listed(entries@.take(k + 1)).drop_last() =~= listed(entries@.take(k as int)));
                } else {
                    assert(listed(entries@.take(k + 1)) =~= listed(entries@.take(k as int)));
                }
            },
            None => {
                assert(listed(entries@.take(k + 1)) =~= listed(entries@.take(k as int)));
            },
        }
        k = k + 1;
    }
    assert(entries@.take(k as int) =~= entries@);
    let ghost sv = sorted@.map_values(|x: (String, i128)| (x.0@, x.1));
    let mut out: Vec<ProjectInfo> = Vec::new();
    let mut i: usize = 0;
    while i < sorted.len()
        invariant
            sv == sorted@.map_values(|x: (String, i128)| (x.0@, x.1)),
            i <= sorted@.len(),
            projects_as_listed(out@) == sv.take(i as int).map_values(|x: ListedView| x.0),
            forall|q: int| 0 <= q < out@.len() ==> well_listed(#[trigger] out@[q]),
        decreases sorted@.len() - i,
    {
        let name = sorted[i].0.clone();
        let info = ProjectInfo { id: name.clone(), name, status: String::from_str("Pending") };
        assert(info.name@ == sv[i as int].0);
        let ghost o0 = out@;
        out.push(info);
        assert(projects_as_listed(out@) =~= projects_as_listed(o0).push(sv[i as int].0));
        assert(sv.take(i + 1) =~= sv.take(i as int).push(sv[i as int]));
        i = i + 1;
        assert(projects_as_listed(out@) =~= sv.take(i as int).map_values(|x: ListedView| x.0));
    }
    assert(sv.take(i as int) =~= sv);
    out
}

/// Projects ordered from the most recently changed.
pub open spec fn newest_first(s: Seq<ListedView>) -> bool {
    forall|i: int, j: int| 0 <= i < j < s.len() ==> s[i].1 >= s[j].1
}

proof fn lemma_insert_recency_sorted(s: Seq<ListedView>, x: ListedView)
    requires
        newest_first(s),
    ensures
        newest_first(insert_by_recency(s, x)),
        insert_by_recency(s, x).to_multiset() == s.to_multiset().insert(x),
    decreases s.len(),
{
    broadcast use vstd::seq_lib::group_seq_properties;
    if s.len() == 0 {
        assert(seq![x].to_multiset() =~= s.to_multiset().insert(x));
    } else if s.last().1 >= x.1 {
        assert(s.push(x).to_multiset() =~= s.to_multiset().insert(x));
    } else {
        let t = s.drop_last();
        lemma_insert_recency_sorted(t, x);
        let u = insert_by_recency(t, x);
        assert(s =~= t.push(s.last()));
        assert(u.push(s.last()).to_multiset() =~= s.to_multiset().insert(x));
        assert forall|i: int, j: int| 0 <= i < j < u.push(s.last()).len() implies u.push(s.last())[i].1 >= u.push(
            s.last(),
        )[j].1 by {
            if j == u.len() {
                let e = u[i];
                assert(u.to_multiset().count(e) > 0);
                if e != x {
                    assert(t.to_multiset().count(e) > 0);
                    assert(t.contains(e));
                    let m = choose|m: int| 0 <= m < t.len() && t[m] == e;
                    assert(s[m] == e);
                }
            }
        }
    }
}

/// Law (newest first): the listed projects come from the most recently changed to
/// the least, and every project folder is listed once.
pub proof fn law_projects_newest_first(s: Seq<ListedView>)
    ensures
        newest_first(sort_by_recency(s)),
        sort_by_recency(s).to_multiset() == s.to_multiset(),
    decreases s.len(),
{
    broadcast use vstd::seq_lib::group_seq_properties;
    if s.len() > 0 {
        law_projects_newest_first(s.drop_last());
        lemma_insert_recency_sorted(sort_by_recency(s.drop_last()), s.last());
        assert(s =~= s.drop_last().push(s.last()));
    } else {
        assert(s.to_multiset() =~= vstd::multiset::Multiset::empty());
        assert(sort_by_recency(s).to_multiset() =~= vstd::multiset::Multiset::empty());
    }
}

} // verus!
