//! The library store: catalogue entries with at most one entry per path,
//! sorted by path.

use vstd::prelude::*;
use crate::media::{MediaEntry, MediaEntryView};
use crate::text::{lemma_text_lt_order, str_eq, str_lt, text_lt};

verus! {

/// Strictly ascending by path, so no path occurs twice.
pub open spec fn sorted_by_path(s: Seq<MediaEntryView>) -> bool {
    forall|i: int, j: int|
        0 <= i < j < s.len() ==> text_lt(#[trigger] s[i].path, #[trigger] s[j].path)
}

/// Whether some entry of `s` has the path `path`.
pub open spec fn has_path(s: Seq<MediaEntryView>, path: Seq<char>) -> bool {
    exists|i: int| 0 <= i < s.len() && #[trigger] s[i].path == path
}

/// The index of the first entry of `s` with the path `path` (`s.len()` when
/// there is none).
pub open spec fn first_with_path(s: Seq<MediaEntryView>, path: Seq<char>) -> int
    decreases s.len(),
{
    if s.len() == 0 {
        0
    } else if s[0].path == path {
        0
    } else {
        1 + first_with_path(s.drop_first(), path)
    }
}

/// `out` holds, for each path of `s`, the first entry of `s` with that path,
/// and nothing else, in ascending order of path.
pub open spec fn is_normal_form_of(out: Seq<MediaEntryView>, s: Seq<MediaEntryView>) -> bool {
    &&& sorted_by_path(out)
    &&& forall|i: int|
        0 <= i < out.len() ==> has_path(s, #[trigger] out[i].path) && out[i] == s[first_with_path(
            s,
            out[i].path,
        )]
    &&& forall|j: int| 0 <= j < s.len() ==> has_path(out, #[trigger] s[j].path)
}

/// The first entry with a path stands at the least index that has the path.
pub proof fn lemma_first_with_path(s: Seq<MediaEntryView>, path: Seq<char>)
    ensures
        0 <= first_with_path(s, path) <= s.len(),
        has_path(s, path) <==> first_with_path(s, path) < s.len(),
        first_with_path(s, path) < s.len() ==> s[first_with_path(s, path)].path == path,
        forall|i: int| 0 <= i < first_with_path(s, path) ==> (#[trigger] s[i]).path != path,
    decreases s.len(),
{
    if s.len() > 0 {
        let rest = s.drop_first();
        lemma_first_with_path(rest, path);
        if s[0].path != path {
            let f = first_with_path(rest, path);
            assert forall|i: int| 0 <= i < 1 + f implies (#[trigger] s[i]).path != path by {
                if i > 0 {
                    assert(s[i] == rest[i - 1]);
                }
            }
            if has_path(s, path) {
                let i = choose|i: int| 0 <= i < s.len() && #[trigger] s[i].path == path;
                assert(rest[i - 1].path == path);
            }
            if f < rest.len() {
                assert(s[1 + f] == rest[f]);
                assert(s[1 + f].path == path);
            }
        } else {
            assert(s[0].path == path);
        }
    } else {
        assert(!has_path(s, path));
    }
}

/// The first entry with a path is the one at the least index that has it.
pub proof fn lemma_first_with_path_is(s: Seq<MediaEntryView>, path: Seq<char>, f: int)
    requires
        0 <= f < s.len(),
        s[f].path == path,
        forall|i: int| 0 <= i < f ==> (#[trigger] s[i]).path != path,
    ensures
        first_with_path(s, path) == f,
{
    lemma_first_with_path(s, path);
    let g = first_with_path(s, path);
    assert(has_path(s, path));
    if g < f {
        assert(s[g].path != path);
    }
    if f < g {
        assert(s[f].path != path);
    }
}

/// In a sorted store a path stands at one index only.
pub proof fn lemma_sorted_unique(s: Seq<MediaEntryView>, i: int, j: int)
    requires
        sorted_by_path(s),
        0 <= i < s.len(),
        0 <= j < s.len(),
        s[i].path == s[j].path,
    ensures
        i == j,
{
    lemma_text_lt_order(s[i].path, s[i].path, s[i].path);
    if i < j {
        assert(text_lt(s[i].path, s[j].path));
    }
    if j < i {
        assert(text_lt(s[j].path, s[i].path));
    }
}

/// A path that occurs among the first `i` entries first occurs at the same
/// index among the first `i + 1`.
pub proof fn lemma_first_stable(s: Seq<MediaEntryView>, i: int, path: Seq<char>)
    requires
        0 <= i < s.len(),
        has_path(s.take(i), path),
    ensures
        has_path(s.take(i + 1), path),
        first_with_path(s.take(i + 1), path) == first_with_path(s.take(i), path),
        0 <= first_with_path(s.take(i), path) < i,
        s.take(i + 1)[first_with_path(s.take(i), path)] == s.take(i)[first_with_path(
            s.take(i),
            path,
        )],
{
    let old_s = s.take(i);
    let new_s = s.take(i + 1);
    lemma_first_with_path(old_s, path);
    let f = first_with_path(old_s, path);
    assert(new_s[f] == old_s[f]);
    assert forall|k: int| 0 <= k < f implies (#[trigger] new_s[k]).path != path by {
        assert(new_s[k] == old_s[k]);
    }
    lemma_first_with_path_is(new_s, path, f);
    assert(new_s[f].path == path);
}

/// Taking one more entry of `s` into the normal form: a path that is already
/// there keeps its entry, a new path enters at its place in the order.
proof fn lemma_normal_form_step(
    s: Seq<MediaEntryView>,
    i: int,
    before: Seq<MediaEntryView>,
    after: Seq<MediaEntryView>,
    at: int,
)
    requires
        0 <= i < s.len(),
        is_normal_form_of(before, s.take(i)),
        has_path(before, s[i].path) ==> after == before,
        !has_path(before, s[i].path) ==> {
            &&& 0 <= at <= before.len()
            &&& after == before.insert(at, s[i])
            &&& forall|k: int| 0 <= k < at ==> text_lt(#[trigger] before[k].path, s[i].path)
            &&& forall|k: int|
                at <= k < before.len() ==> text_lt(s[i].path, #[trigger] before[k].path)
        },
    ensures
        is_normal_form_of(after, s.take(i + 1)),
{
    let old_s = s.take(i);
    let new_s = s.take(i + 1);
    let e = s[i];
    assert(new_s[i] == e);
    assert(has_path(new_s, e.path));
    if has_path(before, e.path) {
        assert forall|k: int| 0 <= k < after.len() implies has_path(new_s, #[trigger] after[k].path)
            && after[k] == new_s[first_with_path(new_s, after[k].path)] by {
            lemma_first_stable(s, i, before[k].path);
        }
        assert forall|j: int| 0 <= j < new_s.len() implies has_path(after, #[trigger] new_s[j].path) by {
            if j < i {
                assert(new_s[j] == old_s[j]);
            }
        }
    } else {
        if has_path(old_s, e.path) {
            let k = choose|k: int| 0 <= k < old_s.len() && #[trigger] old_s[k].path == e.path;
            assert(has_path(before, old_s[k].path));
        }
        assert forall|k: int| 0 <= k < i implies (#[trigger] new_s[k]).path != e.path by {
            assert(old_s[k].path == new_s[k].path);
        }
        lemma_first_with_path_is(new_s, e.path, i);
        assert forall|a: int, b: int| 0 <= a < b < after.len() implies text_lt(
            #[trigger] after[a].path,
            #[trigger] after[b].path,
        ) by {
            if b < at {
                assert(after[a] == before[a] && after[b] == before[b]);
            } else if b == at {
                assert(after[a] == before[a]);
            } else if a < at {
                assert(after[a] == before[a] && after[b] == before[b - 1]);
            } else if a == at {
                assert(after[b] == before[b - 1]);
            } else {
                assert(after[a] == before[a - 1] && after[b] == before[b - 1]);
            }
        }
        assert forall|k: int| 0 <= k < after.len() implies has_path(new_s, #[trigger] after[k].path)
            && after[k] == new_s[first_with_path(new_s, after[k].path)] by {
            if k != at {
                let k0 = if k < at { k } else { k - 1 };
                assert(after[k] == before[k0]);
                lemma_first_stable(s, i, before[k0].path);
            }
        }
        assert forall|j: int| 0 <= j < new_s.len() implies has_path(after, #[trigger] new_s[j].path) by {
            if j < i {
                assert(new_s[j] == old_s[j]);
                assert(has_path(before, old_s[j].path));
                let m = choose|m: int| 0 <= m < before.len() && #[trigger] before[m].path == old_s[j].path;
                let m1 = if m < at { m } else { m + 1 };
                assert(after[m1].path == new_s[j].path);
            } else {
                assert(after[at].path == e.path);
            }
        }
    }
}

/// Sorts by path and keeps, of the entries that share a path, the first:
/// the form in which the library is persisted.
pub fn sort_dedup_by_path(entries: Vec<MediaEntry>) -> (out: Vec<MediaEntry>)
    ensures
        is_normal_form_of(out.deep_view(), entries.deep_view()),
{
    let mut out: Vec<MediaEntry> = Vec::new();
    let ghost s = entries.deep_view();
    assert(s.take(0) =~= Seq::empty());
    assert(out.deep_view() =~= Seq::empty());
    for e in it: entries
        invariant
            it.seq() == entries@,
            s == entries.deep_view(),
            is_normal_form_of(out.deep_view(), s.take(it.index())),
    {
        let ghost i = it.index();
        let ghost before = out.deep_view();
        assert(s[i] == e@);
        let mut j: usize = out.len();
        let mut duplicate = false;
        while j > 0
            invariant_except_break
                !duplicate,
            invariant
                j <= out.len(),
                before == out.deep_view(),
                forall|k: int| j <= k < out.len() ==> text_lt(e.path@, (#[trigger] out[k]).path@),
            ensures
                j <= out.len(),
                duplicate ==> has_path(before, e.path@),
                !duplicate ==> forall|k: int|
                    j <= k < out.len() ==> text_lt(e.path@, (#[trigger] out[k]).path@),
                !duplicate ==> (j == 0 || text_lt(out[j - 1].path@, e.path@)),
            decreases j,
        {
            let prev = &out[j - 1];
            if str_lt(prev.path.as_str(), e.path.as_str()) {
                break ;
            }
            if str_eq(prev.path.as_str(), e.path.as_str()) {
                duplicate = true;
                assert(before[j - 1] == out[j - 1]@);
                assert(before[j - 1].path == e.path@);
                break ;
            }
            proof {
                lemma_text_lt_order(prev.path@, e.path@, e.path@);
            }
            j = j - 1;
        }
        if !duplicate {
            proof {
                assert forall|k: int| 0 <= k < j implies text_lt(
                    #[trigger] before[k].path,
                    e.path@,
                ) by {
                    assert(before[k] == out[k]@);
                    assert(before[j - 1] == out[j - 1]@);
                    if k < j - 1 {
                        lemma_text_lt_order(before[k].path, before[j - 1].path, e.path@);
                    }
                }
                assert forall|k: int| j <= k < before.len() implies text_lt(
                    e.path@,
                    #[trigger] before[k].path,
                ) by {
                    assert(before[k] == out[k]@);
                }
                if has_path(before, e.path@) {
                    let k = choose|k: int| 0 <= k < before.len() && #[trigger] before[k].path == e.path@;
                    lemma_text_lt_order(e.path@, e.path@, e.path@);
                }
            }
            out.insert(j, e);
            assert(out.deep_view() =~= before.insert(j as int, s[i]));
        }
        proof {
            lemma_normal_form_step(s, i, before, out.deep_view(), j as int);
        }
    }
    assert(s.take(s.len() as int) =~= s);
    out
}

/// The identifier under which `existing` already knows `path`: that of the
/// last entry with this path and a non-empty identifier.
pub open spec fn known_id(existing: Seq<MediaEntryView>, path: Seq<char>) -> Option<Seq<char>>
    decreases existing.len(),
{
    if existing.len() == 0 {
        None
    } else {
        let last = existing.last();
        if last.path == path && last.id.len() > 0 {
            Some(last.id)
        } else {
            known_id(existing.drop_last(), path)
        }
    }
}

/// `e` under the identifier that `existing` knows its path by, if any.
pub open spec fn with_known_id(e: MediaEntryView, existing: Seq<MediaEntryView>) -> MediaEntryView {
    match known_id(existing, e.path) {
        Some(id) => MediaEntryView { id: id, ..e },
        None => e,
    }
}

/// `out` is the library that a scan writes when it found `found` and the
/// previous library was `existing`: one entry per path found, sorted by path,
/// each under the identifier its path already had.
pub open spec fn is_scan_of(
    out: Seq<MediaEntryView>,
    found: Seq<MediaEntryView>,
    existing: Seq<MediaEntryView>,
) -> bool {
    &&& sorted_by_path(out)
    &&& forall|i: int|
        0 <= i < out.len() ==> has_path(found, #[trigger] out[i].path) && out[i] == with_known_id(
            found[first_with_path(found, out[i].path)],
            existing,
        )
    &&& forall|j: int| 0 <= j < found.len() ==> has_path(out, #[trigger] found[j].path)
}

/// A known identifier is not empty and belongs to an entry with the path;
/// where none is known, every entry with the path has an empty identifier.
pub proof fn lemma_known_id(existing: Seq<MediaEntryView>, path: Seq<char>)
    ensures
        match known_id(existing, path) {
            Some(id) => id.len() > 0 && exists|k: int|
                0 <= k < existing.len() && #[trigger] existing[k].path == path && existing[k].id
                    == id,
            None => forall|k: int|
                0 <= k < existing.len() && (#[trigger] existing[k]).path == path
                    ==> existing[k].id.len() == 0,
        },
    decreases existing.len(),
{
    if existing.len() > 0 {
        let init = existing.drop_last();
        let last = existing.last();
        lemma_known_id(init, path);
        if last.path == path && last.id.len() > 0 {
            assert(existing[existing.len() - 1].path == path);
        } else {
            match known_id(init, path) {
                Some(id) => {
                    let k = choose|k: int|
                        0 <= k < init.len() && #[trigger] init[k].path == path && init[k].id == id;
                    assert(existing[k].path == path && existing[k].id == id);
                },
                None => {
                    assert forall|k: int|
                        0 <= k < existing.len() && (#[trigger] existing[k]).path
                            == path implies existing[k].id.len() == 0 by {
                        if k < init.len() {
                            assert(init[k] == existing[k]);
                        }
                    }
                },
            }
        }
    }
}

/// The identifier that `existing` knows `path` by, if any.
pub(crate) fn lookup_id<'a>(existing: &'a Vec<MediaEntry>, path: &str) -> (r: Option<&'a String>)
    ensures
        r.deep_view() == known_id(existing.deep_view(), path@),
{
    let mut k: usize = existing.len();
    let ghost s = existing.deep_view();
    assert(s.take(k as int) =~= s);
    while k > 0
        invariant
            k <= existing.len(),
            s == existing.deep_view(),
            known_id(s, path@) == known_id(s.take(k as int), path@),
        decreases k,
    {
        let e = &existing[k - 1];
        assert(s.take(k as int).last() == e@);
        assert(s.take(k as int).drop_last() =~= s.take(k - 1));
        if !e.id.as_str().is_empty() && str_eq(e.path.as_str(), path) {
            return Some(&e.id);
        }
        k = k - 1;
    }
    None
}

/// Gives each entry the identifier that `existing` knows its path by.
pub fn assign_known_ids(entries: Vec<MediaEntry>, existing: &Vec<MediaEntry>) -> (out: Vec<
    MediaEntry,
>)
    ensures
        out.len() == entries.len(),
        forall|i: int|
            0 <= i < out.len() ==> (#[trigger] out[i])@ == with_known_id(
                entries[i]@,
                existing.deep_view(),
            ),
{
    let mut out: Vec<MediaEntry> = Vec::new();
    for e in it: entries
        invariant
            it.seq() == entries@,
            out.len() == it.index(),
            forall|i: int|
                0 <= i < out.len() ==> (#[trigger] out[i])@ == with_known_id(
                    entries[i]@,
                    existing.deep_view(),
                ),
    {
        let known = lookup_id(existing, e.path.as_str());
        let entry = match known {
            Some(id) => MediaEntry {
                id: id.clone(),
                path: e.path,
                filename: e.filename,
                extension: e.extension,
                size_bytes: e.size_bytes,
            },
            None => e,
        };
        out.push(entry);
    }
    out
}

/// The library that a scan writes: what was found, one entry per path and
/// sorted by path, each path under the identifier it had in `existing`.
pub fn scan_library(found: Vec<MediaEntry>, existing: &Vec<MediaEntry>) -> (out: Vec<MediaEntry>)
    ensures
        is_scan_of(out.deep_view(), found.deep_view(), existing.deep_view()),
{
    let ghost f = found.deep_view();
    let normal = sort_dedup_by_path(found);
    let ghost n = normal.deep_view();
    let out = assign_known_ids(normal, existing);
    proof {
        let o = out.deep_view();
        assert forall|i: int| 0 <= i < o.len() implies #[trigger] o[i] == with_known_id(
            n[i],
            existing.deep_view(),
        ) by {
            assert(o[i] == out[i]@);
        }
        assert forall|j: int| 0 <= j < f.len() implies has_path(o, #[trigger] f[j].path) by {
            assert(has_path(n, f[j].path));
            let m = choose|m: int| 0 <= m < n.len() && #[trigger] n[m].path == f[j].path;
            assert(o[m].path == f[j].path);
        }
        assert forall|a: int, b: int| 0 <= a < b < o.len() implies text_lt(
            #[trigger] o[a].path,
            #[trigger] o[b].path,
        ) by {
            assert(o[a].path == n[a].path && o[b].path == n[b].path);
        }
    }
    out
}

/// Two sorted stores over the same paths hold them at the same indices.
pub proof fn lemma_sorted_same_paths(a: Seq<MediaEntryView>, b: Seq<MediaEntryView>)
    requires
        sorted_by_path(a),
        sorted_by_path(b),
        forall|i: int| 0 <= i < a.len() ==> has_path(b, #[trigger] a[i].path),
        forall|j: int| 0 <= j < b.len() ==> has_path(a, #[trigger] b[j].path),
    ensures
        a.len() == b.len(),
        forall|i: int| 0 <= i < a.len() ==> (#[trigger] a[i]).path == b[i].path,
    decreases a.len(),
{
    if a.len() == 0 {
        if b.len() > 0 {
            assert(has_path(a, b[0].path));
        }
    } else {
        assert(has_path(b, a[0].path));
        let la = a.last();
        let lb = b.last();
        assert(has_path(b, a[a.len() - 1].path));
        let m = choose|m: int| 0 <= m < b.len() && #[trigger] b[m].path == la.path;
        assert(has_path(a, b[b.len() - 1].path));
        let n = choose|n: int| 0 <= n < a.len() && #[trigger] a[n].path == lb.path;
        lemma_text_lt_order(la.path, lb.path, la.path);
        if m < b.len() - 1 {
            assert(text_lt(b[m].path, b[b.len() - 1].path));
        }
        if n < a.len() - 1 {
            assert(text_lt(a[n].path, a[a.len() - 1].path));
        }
        assert(la.path == lb.path);
        let a1 = a.drop_last();
        let b1 = b.drop_last();
        assert forall|i: int| 0 <= i < a1.len() implies has_path(b1, #[trigger] a1[i].path) by {
            assert(a1[i] == a[i]);
            assert(has_path(b, a[i].path));
            let k = choose|k: int| 0 <= k < b.len() && #[trigger] b[k].path == a[i].path;
            if k == b.len() - 1 {
                lemma_sorted_unique(a, i, a.len() - 1);
            }
            assert(b1[k].path == a1[i].path);
        }
        assert forall|j: int| 0 <= j < b1.len() implies has_path(a1, #[trigger] b1[j].path) by {
            assert(b1[j] == b[j]);
            assert(has_path(a, b[j].path));
            let k = choose|k: int| 0 <= k < a.len() && #[trigger] a[k].path == b[j].path;
            if k == a.len() - 1 {
                lemma_sorted_unique(b, j, b.len() - 1);
            }
            assert(a1[k].path == b1[j].path);
        }
        assert(sorted_by_path(a1)) by {
            assert forall|i: int, j: int| 0 <= i < j < a1.len() implies text_lt(
                #[trigger] a1[i].path,
                #[trigger] a1[j].path,
            ) by {
                assert(a1[i] == a[i] && a1[j] == a[j]);
            }
        }
        assert(sorted_by_path(b1)) by {
            assert forall|i: int, j: int| 0 <= i < j < b1.len() implies text_lt(
                #[trigger] b1[i].path,
                #[trigger] b1[j].path,
            ) by {
                assert(b1[i] == b[i] && b1[j] == b[j]);
            }
        }
        lemma_sorted_same_paths(a1, b1);
        assert forall|i: int| 0 <= i < a.len() implies (#[trigger] a[i]).path == b[i].path by {
            if i < a1.len() {
                assert(a1[i] == a[i] && b1[i] == b[i]);
            }
        }
    }
}

/// A scan keeps the identity of every path that the library knew and gives a
/// path that the library did not know the identifier that the walk drew for
/// it. So a file that was edited in place keeps its identifier, and a file
/// that was renamed, which is a path gone and a path new, gets a new one.
pub proof fn law_scan_keeps_identity(
    library: Seq<MediaEntryView>,
    found: Seq<MediaEntryView>,
    existing: Seq<MediaEntryView>,
    i: int,
)
    requires
        is_scan_of(library, found, existing),
        sorted_by_path(existing),
        0 <= i < library.len(),
    ensures
        forall|k: int|
            0 <= k < existing.len() && (#[trigger] existing[k]).path == library[i].path
                && existing[k].id.len() > 0 ==> library[i].id == existing[k].id,
        !has_path(existing, library[i].path) ==> library[i].id == found[first_with_path(
            found,
            library[i].path,
        )].id,
{
    let p = library[i].path;
    lemma_known_id(existing, p);
    assert forall|k: int|
        0 <= k < existing.len() && (#[trigger] existing[k]).path == p && existing[k].id.len()
            > 0 implies library[i].id == existing[k].id by {
        match known_id(existing, p) {
            Some(id) => {
                let m = choose|m: int|
                    0 <= m < existing.len() && #[trigger] existing[m].path == p && existing[m].id
                        == id;
                lemma_sorted_unique(existing, m, k);
            },
            None => {},
        }
    }
    if !has_path(existing, p) {
        match known_id(existing, p) {
            Some(id) => {
                let m = choose|m: int|
                    0 <= m < existing.len() && #[trigger] existing[m].path == p && existing[m].id
                        == id;
                assert(has_path(existing, p));
            },
            None => {},
        }
    }
}

/// The persisted form of a library is determined by its entries: two normal
/// forms of the same entries are the same.
pub proof fn law_normal_form_is_determined(
    a: Seq<MediaEntryView>,
    b: Seq<MediaEntryView>,
    s: Seq<MediaEntryView>,
)
    requires
        is_normal_form_of(a, s),
        is_normal_form_of(b, s),
    ensures
        a == b,
{
    assert forall|i: int| 0 <= i < a.len() implies has_path(b, #[trigger] a[i].path) by {
        assert(has_path(s, a[i].path));
        let k = choose|k: int| 0 <= k < s.len() && #[trigger] s[k].path == a[i].path;
        assert(has_path(b, s[k].path));
    }
    assert forall|j: int| 0 <= j < b.len() implies has_path(a, #[trigger] b[j].path) by {
        assert(has_path(s, b[j].path));
        let k = choose|k: int| 0 <= k < s.len() && #[trigger] s[k].path == b[j].path;
        assert(has_path(a, s[k].path));
    }
    lemma_sorted_same_paths(a, b);
    assert forall|i: int| 0 <= i < a.len() implies a[i] == b[i] by {
        assert(a[i].path == b[i].path);
    }
    assert(a =~= b);
}

/// The two walks saw the same files: index by index the same path, file name,
/// extension and size; the identifiers, freshly drawn, may differ.
pub open spec fn same_files(a: Seq<MediaEntryView>, b: Seq<MediaEntryView>) -> bool {
    &&& a.len() == b.len()
    &&& forall|i: int|
        0 <= i < a.len() ==> (#[trigger] a[i]).path == b[i].path && a[i].filename == b[i].filename
            && a[i].extension == b[i].extension && a[i].size_bytes == b[i].size_bytes
}

/// Scanning again when nothing changed on disk writes the same library: the
/// same entries under the same identifiers in the same order. The entries that
/// the walks hand over carry fresh identifiers, none of them empty.
pub proof fn law_rescan_is_idempotent(
    found1: Seq<MediaEntryView>,
    found2: Seq<MediaEntryView>,
    existing: Seq<MediaEntryView>,
    library1: Seq<MediaEntryView>,
    library2: Seq<MediaEntryView>,
)
    requires
        same_files(found1, found2),
        forall|i: int| 0 <= i < found1.len() ==> (#[trigger] found1[i]).id.len() > 0,
        is_scan_of(library1, found1, existing),
        is_scan_of(library2, found2, library1),
    ensures
        library2 == library1,
{
    assert forall|i: int| 0 <= i < library1.len() implies has_path(
        library2,
        #[trigger] library1[i].path,
    ) by {
        let p = library1[i].path;
        assert(has_path(found1, p));
        let k = choose|k: int| 0 <= k < found1.len() && #[trigger] found1[k].path == p;
        assert(found2[k].path == p);
        assert(has_path(library2, found2[k].path));
    }
    assert forall|j: int| 0 <= j < library2.len() implies has_path(
        library1,
        #[trigger] library2[j].path,
    ) by {
        let p = library2[j].path;
        assert(has_path(found2, p));
        let k = choose|k: int| 0 <= k < found2.len() && #[trigger] found2[k].path == p;
        assert(found1[k].path == p);
        assert(has_path(library1, found1[k].path));
    }
    lemma_sorted_same_paths(library1, library2);
    assert forall|i: int| 0 <= i < library1.len() implies library2[i] == library1[i] by {
        let p = library1[i].path;
        assert(library2[i].path == p);
        lemma_first_with_path(found1, p);
        let f = first_with_path(found1, p);
        assert(found2[f].path == p);
        assert forall|k: int| 0 <= k < f implies (#[trigger] found2[k]).path != p by {
            assert(found1[k].path != p);
        }
        lemma_first_with_path_is(found2, p, f);
        lemma_known_id(existing, p);
        assert(library1[i] == with_known_id(found1[f], existing));
        assert(library1[i].id.len() > 0);
        lemma_known_id(library1, p);
        match known_id(library1, p) {
            Some(id) => {
                let k = choose|k: int|
                    0 <= k < library1.len() && #[trigger] library1[k].path == p && library1[k].id
                        == id;
                lemma_sorted_unique(library1, k, i);
            },
            None => {
                assert(library1[i].path == p);
            },
        }
        assert(library2[i] == with_known_id(found2[f], library1));
    }
    assert(library2 =~= library1);
}

} // verus!
