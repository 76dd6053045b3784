//! Raw filesystem notifications and the rule that merges them, per path, into
//! one net change.

use vstd::prelude::*;
use crate::text::str_eq;

verus! {

/// What a notification says happened to a path.
#[derive(Clone, Copy, Debug, PartialEq, Eq, Structural)]
pub enum ChangeKind {
    Added,
    Removed,
    Modified,
}

/// One notification, as it arrived.
#[derive(Debug, PartialEq, Eq)]
pub struct PendingChange {
    pub path: String,
    pub kind: ChangeKind,
}

/// What a `PendingChange` holds, as mathematical values.
pub struct PendingChangeView {
    pub path: Seq<char>,
    pub kind: ChangeKind,
}

impl View for PendingChange {
    type V = PendingChangeView;

    open spec fn view(&self) -> PendingChangeView {
        PendingChangeView { path: self.path@, kind: self.kind }
    }
}

impl DeepView for PendingChange {
    type V = PendingChangeView;

    open spec fn deep_view(&self) -> PendingChangeView {
        self@
    }
}

impl Clone for PendingChange {
    fn clone(&self) -> (r: Self)
        ensures
            r == *self,
    {
        PendingChange { path: self.path.clone(), kind: self.kind }
    }
}

/// The net kind of a path that already stands at `existing` when `incoming`
/// arrives for it.
pub open spec fn merged_kind(existing: ChangeKind, incoming: ChangeKind) -> ChangeKind {
    match (existing, incoming) {
        (ChangeKind::Added, ChangeKind::Removed) => ChangeKind::Removed,
        (ChangeKind::Modified, ChangeKind::Added) => ChangeKind::Added,
        (ChangeKind::Modified, ChangeKind::Removed) => ChangeKind::Removed,
        (ChangeKind::Removed, ChangeKind::Added) => ChangeKind::Added,
        _ => existing,
    }
}

/// Merges an incoming kind into the kind a path stands at.
pub fn merge_kind(existing: ChangeKind, incoming: ChangeKind) -> (r: ChangeKind)
    ensures
        r == merged_kind(existing, incoming),
{
    match (existing, incoming) {
        (ChangeKind::Added, ChangeKind::Removed) => ChangeKind::Removed,
        (ChangeKind::Modified, ChangeKind::Added) => ChangeKind::Added,
        (ChangeKind::Modified, ChangeKind::Removed) => ChangeKind::Removed,
        (ChangeKind::Removed, ChangeKind::Added) => ChangeKind::Added,
        _ => existing,
    }
}

/// The net kind of `path` after the notifications `changes`, taken in arrival
/// order; `None` when none of them names `path`.
pub open spec fn net_kind(changes: Seq<PendingChangeView>, path: Seq<char>) -> Option<ChangeKind>
    decreases changes.len(),
{
    if changes.len() == 0 {
        None
    } else {
        let earlier = net_kind(changes.drop_last(), path);
        let last = changes.last();
        if last.path == path {
            match earlier {
                None => Some(last.kind),
                Some(k) => Some(merged_kind(k, last.kind)),
            }
        } else {
            earlier
        }
    }
}

/// Whether some notification in `changes` names `path`.
pub open spec fn names_path(changes: Seq<PendingChangeView>, path: Seq<char>) -> bool {
    exists|i: int| 0 <= i < changes.len() && #[trigger] changes[i].path == path
}

/// No path occurs twice.
pub open spec fn distinct_paths(changes: Seq<PendingChangeView>) -> bool {
    forall|i: int, j: int|
        0 <= i < j < changes.len() ==> #[trigger] changes[i].path != #[trigger] changes[j].path
}

/// The index at which `path` first occurs in `changes`.
pub open spec fn first_occurrence(changes: Seq<PendingChangeView>, path: Seq<char>) -> int
    decreases changes.len(),
{
    if changes.len() == 0 {
        0
    } else if changes[0].path == path {
        0
    } else {
        1 + first_occurrence(changes.drop_first(), path)
    }
}

/// `net` is the merge of `raw`: one change per distinct path of `raw`, in the
/// order in which the paths first arrived, each with its net kind.
pub open spec fn is_merge_of(net: Seq<PendingChangeView>, raw: Seq<PendingChangeView>) -> bool {
    &&& distinct_paths(net)
    &&& forall|i: int|
        0 <= i < net.len() ==> names_path(raw, #[trigger] net[i].path) && Some(net[i].kind)
            == net_kind(raw, net[i].path)
    &&& forall|j: int| 0 <= j < raw.len() ==> names_path(net, #[trigger] raw[j].path)
    &&& forall|i: int, j: int|
        0 <= i < j < net.len() ==> first_occurrence(raw, #[trigger] net[i].path)
            < first_occurrence(raw, #[trigger] net[j].path)
}

/// A path has a net kind exactly when some notification names it.
pub proof fn lemma_net_kind_some(changes: Seq<PendingChangeView>, path: Seq<char>)
    ensures
        net_kind(changes, path) is Some <==> names_path(changes, path),
    decreases changes.len(),
{
    if changes.len() > 0 {
        let init = changes.drop_last();
        lemma_net_kind_some(init, path);
        if names_path(changes, path) {
            let i = choose|i: int| 0 <= i < changes.len() && #[trigger] changes[i].path == path;
            if i < init.len() {
                assert(init[i].path == path);
            }
        }
        if names_path(init, path) {
            let i = choose|i: int| 0 <= i < init.len() && #[trigger] init[i].path == path;
            assert(changes[i].path == path);
        }
        if changes.last().path == path {
            assert(changes[changes.len() - 1].path == path);
        }
    }
}

/// The first occurrence of a path is the least index that names it.
pub proof fn lemma_first_occurrence(changes: Seq<PendingChangeView>, path: Seq<char>)
    ensures
        0 <= first_occurrence(changes, path) <= changes.len(),
        names_path(changes, path) <==> first_occurrence(changes, path) < changes.len(),
        first_occurrence(changes, path) < changes.len() ==> changes[first_occurrence(
            changes,
            path,
        )].path == path,
        forall|i: int|
            0 <= i < first_occurrence(changes, path) ==> (#[trigger] changes[i]).path != path,
    decreases changes.len(),
{
    if changes.len() > 0 {
        let rest = changes.drop_first();
        lemma_first_occurrence(rest, path);
        if changes[0].path != path {
            let f = first_occurrence(rest, path);
            assert forall|i: int| 0 <= i < 1 + f implies (#[trigger] changes[i]).path != path by {
                if i > 0 {
                    assert(changes[i] == rest[i - 1]);
                }
            }
            if names_path(changes, path) {
                let i = choose|i: int| 0 <= i < changes.len() && #[trigger] changes[i].path == path;
                assert(rest[i - 1].path == path);
            }
            if f < rest.len() {
                assert(changes[1 + f] == rest[f]);
                assert(changes[1 + f].path == path);
            }
        } else {
            assert(changes[0].path == path);
        }
    } else {
        assert(!names_path(changes, path));
    }
}

/// The first index of `path` is the least index that names it.
pub proof fn lemma_first_occurrence_is(changes: Seq<PendingChangeView>, path: Seq<char>, f: int)
    requires
        0 <= f < changes.len(),
        changes[f].path == path,
        forall|i: int| 0 <= i < f ==> (#[trigger] changes[i]).path != path,
    ensures
        first_occurrence(changes, path) == f,
{
    lemma_first_occurrence(changes, path);
    let g = first_occurrence(changes, path);
    assert(names_path(changes, path));
    if g < f {
        assert(changes[g].path != path);
    }
    if f < g {
        assert(changes[f].path != path);
    }
}

/// Taking one more notification merges it into the net change of its path.
proof fn lemma_merge_step(
    raw: Seq<PendingChangeView>,
    i: int,
    before: Seq<PendingChangeView>,
    after: Seq<PendingChangeView>,
)
    requires
        0 <= i < raw.len(),
        is_merge_of(before, raw.take(i)),
        names_path(before, raw[i].path) ==> exists|j: int|
            0 <= j < before.len() && before[j].path == raw[i].path && after == before.update(
                j,
                PendingChangeView {
                    path: before[j].path,
                    kind: merged_kind(before[j].kind, raw[i].kind),
                },
            ),
        !names_path(before, raw[i].path) ==> after == before.push(raw[i]),
    ensures
        is_merge_of(after, raw.take(i + 1)),
{
    let old_raw = raw.take(i);
    let new_raw = raw.take(i + 1);
    let c = raw[i];
    assert(new_raw.drop_last() == old_raw);
    assert(new_raw.last() == c);
    // paths named by the old prefix keep their first occurrence
    assert forall|p: Seq<char>| names_path(old_raw, p) implies first_occurrence(new_raw, p)
        == first_occurrence(old_raw, p) && first_occurrence(old_raw, p) < i by {
        lemma_first_occurrence(old_raw, p);
        let f = first_occurrence(old_raw, p);
        assert(new_raw[f] == old_raw[f]);
        assert forall|k: int| 0 <= k < f implies (#[trigger] new_raw[k]).path != p by {
            assert(new_raw[k] == old_raw[k]);
        }
        lemma_first_occurrence_is(new_raw, p, f);
    }
    assert forall|p: Seq<char>| names_path(old_raw, p) implies #[trigger] names_path(new_raw, p) by {
        let k = choose|k: int| 0 <= k < old_raw.len() && #[trigger] old_raw[k].path == p;
        assert(new_raw[k].path == p);
    }
    assert(new_raw[i].path == c.path);
    assert(names_path(new_raw, c.path));
    if names_path(before, c.path) {
        let j = choose|j: int|
            0 <= j < before.len() && before[j].path == c.path && after == before.update(
                j,
                PendingChangeView {
                    path: before[j].path,
                    kind: merged_kind(before[j].kind, c.kind),
                },
            );
        assert(forall|k: int| 0 <= k < after.len() ==> (#[trigger] after[k]).path == before[k].path);
        assert(names_path(old_raw, before[j].path));
        lemma_net_kind_some(old_raw, c.path);
        assert forall|k: int| 0 <= k < after.len() implies names_path(
            new_raw,
            #[trigger] after[k].path,
        ) && Some(after[k].kind) == net_kind(new_raw, after[k].path) by {
            assert(names_path(old_raw, before[k].path));
            if k != j {
                assert(before[k].path != before[j].path);
            }
        }
        assert forall|k: int| 0 <= k < new_raw.len() implies names_path(
            after,
            #[trigger] new_raw[k].path,
        ) by {
            if k < i {
                assert(new_raw[k] == old_raw[k]);
                assert(names_path(before, old_raw[k].path));
                let m = choose|m: int|
                    0 <= m < before.len() && #[trigger] before[m].path == old_raw[k].path;
                assert(after[m].path == new_raw[k].path);
            } else {
                assert(after[j].path == c.path);
            }
        }
        assert forall|a: int, b: int| 0 <= a < b < after.len() implies first_occurrence(
            new_raw,
            #[trigger] after[a].path,
        ) < first_occurrence(new_raw, #[trigger] after[b].path) by {
            assert(names_path(old_raw, before[a].path));
            assert(names_path(old_raw, before[b].path));
        }
    } else {
        lemma_net_kind_some(old_raw, c.path);
        if names_path(old_raw, c.path) {
            let k = choose|k: int| 0 <= k < old_raw.len() && #[trigger] old_raw[k].path == c.path;
            assert(names_path(before, old_raw[k].path));
        }
        assert forall|k: int| 0 <= k < i implies (#[trigger] new_raw[k]).path != c.path by {
            assert(old_raw[k].path == new_raw[k].path);
        }
        lemma_first_occurrence_is(new_raw, c.path, i);
        assert forall|a: int, b: int| 0 <= a < b < after.len() implies #[trigger] after[a].path
            != #[trigger] after[b].path by {
            if b == before.len() {
                assert(before[a].path == after[a].path);
            }
        }
        assert forall|k: int| 0 <= k < after.len() implies names_path(
            new_raw,
            #[trigger] after[k].path,
        ) && Some(after[k].kind) == net_kind(new_raw, after[k].path) by {
            if k < before.len() {
                assert(after[k] == before[k]);
                assert(names_path(old_raw, before[k].path));
                assert(before[k].path != c.path);
            }
        }
        assert forall|k: int| 0 <= k < new_raw.len() implies names_path(
            after,
            #[trigger] new_raw[k].path,
        ) by {
            if k < i {
                assert(new_raw[k] == old_raw[k]);
                assert(names_path(before, old_raw[k].path));
                let m = choose|m: int|
                    0 <= m < before.len() && #[trigger] before[m].path == old_raw[k].path;
                assert(after[m].path == new_raw[k].path);
            } else {
                assert(after[before.len() as int].path == c.path);
            }
        }
        assert forall|a: int, b: int| 0 <= a < b < after.len() implies first_occurrence(
            new_raw,
            #[trigger] after[a].path,
        ) < first_occurrence(new_raw, #[trigger] after[b].path) by {
            assert(after[a] == before[a]);
            assert(names_path(old_raw, before[a].path));
            if b < before.len() {
                assert(after[b] == before[b]);
                assert(names_path(old_raw, before[b].path));
            }
        }
    }
}

/// The index in `list` of the change for `path`, if there is one.
fn position_of(list: &Vec<PendingChange>, path: &str) -> (r: Option<usize>)
    ensures
        match r {
            Some(j) => j < list.len() && list[j as int].path@ == path@,
            None => !names_path(list.deep_view(), path@),
        },
{
    let mut j: usize = 0;
    while j < list.len()
        invariant
            j <= list.len(),
            forall|k: int| 0 <= k < j ==> (#[trigger] list[k]).path@ != path@,
        decreases list.len() - j,
    {
        if str_eq(list[j].path.as_str(), path) {
            return Some(j);
        }
        j = j + 1;
    }
    assert forall|k: int| 0 <= k < list.deep_view().len() implies (#[trigger] list.deep_view()[
        k
    ]).path != path@ by {
        assert(list.deep_view()[k] == list[k]@);
    }
    None
}

/// Merges the notifications of one debounce window: one net change per path,
/// in the order in which the paths first arrived.
pub fn merge_changes(changes: &Vec<PendingChange>) -> (net: Vec<PendingChange>)
    ensures
        is_merge_of(net.deep_view(), changes.deep_view()),
{
    let mut out: Vec<PendingChange> = Vec::new();
    let mut i: usize = 0;
    assert(changes.deep_view().take(0) =~= Seq::empty());
    assert(out.deep_view() =~= Seq::empty());
    while i < changes.len()
        invariant
            i <= changes.len(),
            is_merge_of(out.deep_view(), changes.deep_view().take(i as int)),
        decreases changes.len() - i,
    {
        let ghost before = out.deep_view();
        let ghost raw = changes.deep_view();
        let c = &changes[i];
        assert(raw[i as int] == c@);
        match position_of(&out, c.path.as_str()) {
            Some(j) => {
                let merged = PendingChange {
                    path: out[j].path.clone(),
                    kind: merge_kind(out[j].kind, c.kind),
                };
                assert(before[j as int] == out[j as int]@);
                out.set(j, merged);
                assert(out.deep_view() =~= before.update(
                    j as int,
                    PendingChangeView {
                        path: before[j as int].path,
                        kind: merged_kind(before[j as int].kind, c.kind),
                    },
                ));
                assert(before[j as int].path == raw[i as int].path);
            },
            None => {
                out.push(c.clone());
                assert(out.deep_view() =~= before.push(raw[i as int]));
            },
        }
        proof {
            if names_path(before, raw[i as int].path) {
                let j = choose|j: int| 0 <= j < before.len() && #[trigger] before[j].path == raw[i as int].path;
                assert(before[j].path == raw[i as int].path);
            }
            lemma_merge_step(raw, i as int, before, out.deep_view());
        }
        i = i + 1;
    }
    assert(changes.deep_view().take(i as int) =~= changes.deep_view());
    out
}

/// Of all that was notified for a path within one window, one net change is
/// left, and its kind is the merge of the path's kinds in arrival order.
pub proof fn law_one_net_change_per_path(
    net: Seq<PendingChangeView>,
    raw: Seq<PendingChangeView>,
    j: int,
)
    requires
        is_merge_of(net, raw),
        0 <= j < raw.len(),
    ensures
        exists|i: int|
            0 <= i < net.len() && (#[trigger] net[i]).path == raw[j].path && Some(net[i].kind)
                == net_kind(raw, raw[j].path),
        forall|a: int, b: int|
            0 <= a < net.len() && 0 <= b < net.len() && (#[trigger] net[a]).path == raw[j].path
                && (#[trigger] net[b]).path == raw[j].path ==> a == b,
{
    assert(names_path(net, raw[j].path));
    let i = choose|i: int| 0 <= i < net.len() && #[trigger] net[i].path == raw[j].path;
    assert(Some(net[i].kind) == net_kind(raw, net[i].path));
    assert forall|a: int, b: int|
        0 <= a < net.len() && 0 <= b < net.len() && (#[trigger] net[a]).path == raw[j].path && (
        #[trigger] net[b]).path == raw[j].path implies a == b by {
        if a < b {
            assert(net[a].path != net[b].path);
        }
        if b < a {
            assert(net[b].path != net[a].path);
        }
    }
}

/// Two strictly ascending sequences of numbers with the same members are the
/// same sequence.
proof fn lemma_ascending_same_members(x: Seq<int>, y: Seq<int>)
    requires
        forall|i: int, j: int| 0 <= i < j < x.len() ==> x[i] < x[j],
        forall|i: int, j: int| 0 <= i < j < y.len() ==> y[i] < y[j],
        forall|i: int| 0 <= i < x.len() ==> y.contains(#[trigger] x[i]),
        forall|j: int| 0 <= j < y.len() ==> x.contains(#[trigger] y[j]),
    ensures
        x == y,
    decreases x.len(),
{
    if x.len() == 0 {
        if y.len() > 0 {
            assert(x.contains(y[0]));
        }
        assert(x =~= y);
    } else {
        assert(y.contains(x[0]));
        let lx = x.last();
        let ly = y.last();
        assert(y.contains(x[x.len() - 1]));
        let m = choose|m: int| 0 <= m < y.len() && y[m] == lx;
        assert(x.contains(y[y.len() - 1]));
        let n = choose|n: int| 0 <= n < x.len() && x[n] == ly;
        if m < y.len() - 1 {
            assert(y[m] < y[y.len() - 1]);
        }
        if n < x.len() - 1 {
            assert(x[n] < x[x.len() - 1]);
        }
        assert(lx == ly);
        let x1 = x.drop_last();
        let y1 = y.drop_last();
        assert forall|i: int| 0 <= i < x1.len() implies y1.contains(#[trigger] x1[i]) by {
            assert(x1[i] == x[i]);
            assert(y.contains(x[i]));
            let k = choose|k: int| 0 <= k < y.len() && y[k] == x[i];
            assert(x[i] < x[x.len() - 1]);
            assert(y1[k] == x1[i]);
        }
        assert forall|j: int| 0 <= j < y1.len() implies x1.contains(#[trigger] y1[j]) by {
            assert(y1[j] == y[j]);
            assert(x.contains(y[j]));
            let k = choose|k: int| 0 <= k < x.len() && x[k] == y[j];
            assert(y[j] < y[y.len() - 1]);
            assert(x1[k] == y1[j]);
        }
        assert forall|i: int, j: int| 0 <= i < j < x1.len() implies x1[i] < x1[j] by {
            assert(x1[i] == x[i] && x1[j] == x[j]);
        }
        assert forall|i: int, j: int| 0 <= i < j < y1.len() implies y1[i] < y1[j] by {
            assert(y1[i] == y[i] && y1[j] == y[j]);
        }
        lemma_ascending_same_members(x1, y1);
        assert(x =~= x1.push(lx));
        assert(y =~= y1.push(ly));
    }
}

/// The merge is determined by the notifications: two merges of the same
/// notifications, taken in the same order, are the same.
pub proof fn law_merge_is_determined(
    a: Seq<PendingChangeView>,
    b: Seq<PendingChangeView>,
    raw: Seq<PendingChangeView>,
)
    requires
        is_merge_of(a, raw),
        is_merge_of(b, raw),
    ensures
        a == b,
{
    let ka = Seq::new(a.len(), |i: int| first_occurrence(raw, a[i].path));
    let kb = Seq::new(b.len(), |i: int| first_occurrence(raw, b[i].path));
    assert forall|i: int| 0 <= i < ka.len() implies kb.contains(#[trigger] ka[i]) by {
        lemma_first_occurrence(raw, a[i].path);
        let f = first_occurrence(raw, a[i].path);
        assert(names_path(b, raw[f].path));
        let m = choose|m: int| 0 <= m < b.len() && #[trigger] b[m].path == raw[f].path;
        assert(kb[m] == ka[i]);
    }
    assert forall|j: int| 0 <= j < kb.len() implies ka.contains(#[trigger] kb[j]) by {
        lemma_first_occurrence(raw, b[j].path);
        let f = first_occurrence(raw, b[j].path);
        assert(names_path(a, raw[f].path));
        let m = choose|m: int| 0 <= m < a.len() && #[trigger] a[m].path == raw[f].path;
        assert(ka[m] == kb[j]);
    }
    lemma_ascending_same_members(ka, kb);
    assert(a.len() == b.len());
    assert forall|i: int| 0 <= i < a.len() implies a[i] == b[i] by {
        assert(ka[i] == kb[i]);
        lemma_first_occurrence(raw, a[i].path);
        lemma_first_occurrence(raw, b[i].path);
    }
    assert(a =~= b);
}

/// The net kind of a path that was notified twice: the first kind merged with
/// the second, for every pair of kinds.
pub proof fn law_merge_table(path: Seq<char>, first: ChangeKind, second: ChangeKind)
    ensures
        net_kind(
            seq![
                PendingChangeView { path: path, kind: first },
                PendingChangeView { path: path, kind: second },
            ],
            path,
        ) == Some(
            match (first, second) {
                (ChangeKind::Added, ChangeKind::Added) => ChangeKind::Added,
                (ChangeKind::Added, ChangeKind::Modified) => ChangeKind::Added,
                (ChangeKind::Added, ChangeKind::Removed) => ChangeKind::Removed,
                (ChangeKind::Modified, ChangeKind::Added) => ChangeKind::Added,
                (ChangeKind::Modified, ChangeKind::Modified) => ChangeKind::Modified,
                (ChangeKind::Modified, ChangeKind::Removed) => ChangeKind::Removed,
                (ChangeKind::Removed, ChangeKind::Added) => ChangeKind::Added,
                (ChangeKind::Removed, ChangeKind::Modified) => ChangeKind::Removed,
                (ChangeKind::Removed, ChangeKind::Removed) => ChangeKind::Removed,
            },
        ),
{
    let a = PendingChangeView { path: path, kind: first };
    let b = PendingChangeView { path: path, kind: second };
    let two = seq![a, b];
    let one = two.drop_last();
    assert(one =~= seq![a]);
    assert(one.drop_last() =~= Seq::<PendingChangeView>::empty());
    assert(net_kind(one.drop_last(), path) is None);
    assert(net_kind(one, path) == Some(first));
}

} // verus!
