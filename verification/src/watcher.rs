//! Keeping the library in step with the filesystem: which notifications count,
//! when a file is taken as completely written, and what one debounce cycle does
//! to the library.

use vstd::prelude::*;
use crate::changes::{is_merge_of, merge_changes, ChangeKind, PendingChange, PendingChangeView};
use crate::media::{
    display_name, display_name_of, extension, extension_of, is_video_extension,
    is_video_extension_text, normalize_path, normalized_path, MediaConfig, MediaEntry,
    MediaEntryView, Settings,
};
use crate::store::{
    first_with_path, has_path, is_normal_form_of, known_id, lemma_first_with_path_is,
    lemma_known_id, lemma_sorted_unique, lookup_id, sort_dedup_by_path, sorted_by_path,
};
use crate::text::{lowercase, str_eq, to_lowercase};

verus! {

/// What is reported to the user interface when the library changed.
#[derive(Debug, PartialEq, Eq)]
pub struct MediaChangeEvent {
    /// `full_scan` or `incremental`.
    pub kind: String,
    pub added: Vec<String>,
    pub modified: Vec<String>,
    pub removed: Vec<String>,
    pub total: usize,
}

/// What a `MediaChangeEvent` holds, as mathematical values.
pub struct MediaChangeEventView {
    pub kind: Seq<char>,
    pub added: Seq<Seq<char>>,
    pub modified: Seq<Seq<char>>,
    pub removed: Seq<Seq<char>>,
    pub total: usize,
}

impl View for MediaChangeEvent {
    type V = MediaChangeEventView;

    open spec fn view(&self) -> MediaChangeEventView {
        MediaChangeEventView {
            kind: self.kind@,
            added: self.added.deep_view(),
            modified: self.modified.deep_view(),
            removed: self.removed.deep_view(),
            total: self.total,
        }
    }
}

/// Whether the path's extension, in lower case, is a video extension.
pub open spec fn is_media_path(path: Seq<char>) -> bool {
    match extension_of(path) {
        Some(ext) => is_video_extension_text(lowercase(ext)),
        None => false,
    }
}

/// Whether a path names a video file, going by its extension.
pub fn has_media_extension(path: &str) -> (r: bool)
    ensures
        r == is_media_path(path@),
{
    match extension(path) {
        Some(ext) => {
            let lower = to_lowercase(ext.as_str());
            is_video_extension(lower.as_str())
        },
        None => false,
    }
}

/// `s` without the entries whose path is `path`.
pub open spec fn without_path(s: Seq<MediaEntryView>, path: Seq<char>) -> Seq<MediaEntryView>
    decreases s.len(),
{
    if s.len() == 0 {
        s
    } else {
        let init = without_path(s.drop_last(), path);
        if s.last().path == path {
            init
        } else {
            init.push(s.last())
        }
    }
}

/// Removing a path leaves no entry with it, and shortens the library
/// exactly when there was one.
pub proof fn lemma_without_path(s: Seq<MediaEntryView>, path: Seq<char>)
    ensures
        without_path(s, path).len() <= s.len(),
        without_path(s, path).len() == s.len() <==> !has_path(s, path),
        !has_path(without_path(s, path), path),
    decreases s.len(),
{
    if s.len() > 0 {
        let init = s.drop_last();
        lemma_without_path(init, path);
        let w = without_path(s, path);
        if has_path(init, path) {
            let k = choose|k: int| 0 <= k < init.len() && #[trigger] init[k].path == path;
            assert(s[k].path == path);
        }
        if s.last().path == path {
            assert(s[s.len() - 1].path == path);
        } else {
            if has_path(s, path) {
                let k = choose|k: int| 0 <= k < s.len() && #[trigger] s[k].path == path;
                assert(init[k].path == path);
            }
            if has_path(w, path) {
                let k = choose|k: int| 0 <= k < w.len() && #[trigger] w[k].path == path;
                assert(without_path(init, path)[k].path == path);
            }
        }
    } else {
        assert(!has_path(s, path));
    }
}

/// Removes the entries with the given path; says whether there was one.
fn remove_path(entries: Vec<MediaEntry>, path: &str) -> (r: (Vec<MediaEntry>, bool))
    ensures
        r.0.deep_view() == without_path(entries.deep_view(), path@),
        r.1 == has_path(entries.deep_view(), path@),
{
    let ghost s = entries.deep_view();
    let total = entries.len();
    let mut kept: Vec<MediaEntry> = Vec::new();
    assert(s.take(0) =~= Seq::empty());
    assert(kept.deep_view() =~= Seq::empty());
    for e in it: entries
        invariant
            it.seq() == entries@,
            s == entries.deep_view(),
            kept.deep_view() == without_path(s.take(it.index()), path@),
    {
        let ghost i = it.index();
        let ghost before = kept.deep_view();
        assert(s.take(i + 1).drop_last() =~= s.take(i));
        assert(s.take(i + 1).last() == e@);
        if !str_eq(e.path.as_str(), path) {
            kept.push(e);
            assert(kept.deep_view() =~= before.push(s[i]));
        }
    }
    assert(s.take(s.len() as int) =~= s);
    proof {
        lemma_without_path(s, path@);
    }
    let found = kept.len() != total;
    (kept, found)
}

/// The library and the report of one debounce cycle while its changes are
/// being applied.
#[derive(Debug, PartialEq, Eq)]
pub struct CycleState {
    pub entries: Vec<MediaEntry>,
    pub changed: bool,
    pub added: Vec<String>,
    pub modified: Vec<String>,
    pub removed: Vec<String>,
}

/// What a `Cycle` holds, as mathematical values.
pub struct CycleView {
    pub entries: Seq<MediaEntryView>,
    pub changed: bool,
    pub added: Seq<Seq<char>>,
    pub modified: Seq<Seq<char>>,
    pub removed: Seq<Seq<char>>,
}

impl View for CycleState {
    type V = CycleView;

    open spec fn view(&self) -> CycleView {
        CycleView {
            entries: self.entries.deep_view(),
            changed: self.changed,
            added: self.added.deep_view(),
            modified: self.modified.deep_view(),
            removed: self.removed.deep_view(),
        }
    }
}

/// The cycle after one net change. `probed` is the entry built for the file
/// once it was found stable; `None` when the file was unstable, had vanished
/// or is no video file, in which case an addition or modification is dropped.
///
/// An added file replaces what the library held under its path and is
/// reported as added if the path is new. A modified file replaces what the
/// library held under its path and keeps the identifier the path had. A
/// removal deletes the path if the library has it.
pub open spec fn applied(state: CycleView, change: PendingChangeView, probed: Option<
    MediaEntryView,
>) -> CycleView {
    let path = normalized_path(change.path);
    let name = display_name_of(change.path);
    match change.kind {
        ChangeKind::Added => match probed {
            None => state,
            Some(e) => CycleView {
                entries: without_path(state.entries, path).push(e),
                changed: true,
                added: if has_path(state.entries, path) {
                    state.added
                } else {
                    state.added.push(name)
                },
                ..state
            },
        },
        ChangeKind::Modified => match probed {
            None => state,
            Some(e) => CycleView {
                entries: without_path(state.entries, path).push(
                    match known_id(state.entries, path) {
                        Some(id) => MediaEntryView { id: id, ..e },
                        None => e,
                    },
                ),
                changed: true,
                modified: state.modified.push(name),
                ..state
            },
        },
        ChangeKind::Removed => if has_path(state.entries, path) {
            CycleView {
                entries: without_path(state.entries, path),
                changed: true,
                removed: state.removed.push(name),
                ..state
            }
        } else {
            state
        },
    }
}

impl CycleState {
    /// The start of a cycle on the library as it was loaded.
    pub fn begin(entries: Vec<MediaEntry>) -> (r: CycleState)
        ensures
            r@ == (CycleView {
                entries: entries.deep_view(),
                changed: false,
                added: Seq::empty(),
                modified: Seq::empty(),
                removed: Seq::empty(),
            }),
    {
        let r = CycleState {
            entries,
            changed: false,
            added: Vec::new(),
            modified: Vec::new(),
            removed: Vec::new(),
        };
        assert(r.added.deep_view() =~= Seq::empty());
        assert(r.modified.deep_view() =~= Seq::empty());
        assert(r.removed.deep_view() =~= Seq::empty());
        r
    }

    /// Applies one net change.
    pub fn apply_change(self, change: &PendingChange, probed: Option<MediaEntry>) -> (r: CycleState)
        ensures
            r@ == applied(self@, change@, probed.deep_view()),
    {
        let path = normalize_path(change.path.as_str());
        let ghost before = self@;
        let CycleState { entries, changed, mut added, mut modified, mut removed } = self;
        match change.kind {
            ChangeKind::Added => match probed {
                None => CycleState { entries, changed, added, modified, removed },
                Some(e) => {
                    let (mut kept, was_present) = remove_path(entries, path.as_str());
                    let ghost k0 = kept.deep_view();
                    kept.push(e);
                    assert(kept.deep_view() =~= k0.push(e@));
                    if !was_present {
                        added.push(display_name(change.path.as_str()));
                        assert(added.deep_view() =~= before.added.push(
                            display_name_of(change.path@),
                        ));
                    }
                    CycleState { entries: kept, changed: true, added, modified, removed }
                },
            },
            ChangeKind::Modified => match probed {
                None => CycleState { entries, changed, added, modified, removed },
                Some(e) => {
                    let entry = match lookup_id(&entries, path.as_str()) {
                        Some(id) => MediaEntry {
                            id: id.clone(),
                            path: e.path,
                            filename: e.filename,
                            extension: e.extension,
                            size_bytes: e.size_bytes,
                        },
                        None => e,
                    };
                    let (mut kept, _) = remove_path(entries, path.as_str());
                    let ghost k0 = kept.deep_view();
                    kept.push(entry);
                    assert(kept.deep_view() =~= k0.push(entry@));
                    modified.push(display_name(change.path.as_str()));
                    assert(modified.deep_view() =~= before.modified.push(
                        display_name_of(change.path@),
                    ));
                    CycleState { entries: kept, changed: true, added, modified, removed }
                },
            },
            ChangeKind::Removed => {
                let (kept, was_present) = remove_path(entries, path.as_str());
                if was_present {
                    removed.push(display_name(change.path.as_str()));
                    assert(removed.deep_view() =~= before.removed.push(
                        display_name_of(change.path@),
                    ));
                    CycleState { entries: kept, changed: true, added, modified, removed }
                } else {
                    proof {
                        lemma_without_path_absent(before.entries, path@);
                    }
                    CycleState { entries: kept, changed, added, modified, removed }
                }
            },
        }
    }
}

/// Removing a path that is not there changes nothing.
pub proof fn lemma_without_path_absent(s: Seq<MediaEntryView>, path: Seq<char>)
    requires
        !has_path(s, path),
    ensures
        without_path(s, path) == s,
    decreases s.len(),
{
    if s.len() > 0 {
        let init = s.drop_last();
        if has_path(init, path) {
            let k = choose|k: int| 0 <= k < init.len() && #[trigger] init[k].path == path;
            assert(s[k].path == path);
        }
        assert(s[s.len() - 1].path != path);
        lemma_without_path_absent(init, path);
        assert(init.push(s.last()) =~= s);
    }
}

/// A file that is modified in place keeps its identifier: after the change
/// the library holds, for the file's path, the probed entry under the
/// identifier that the path had.
pub proof fn law_modification_keeps_identity(
    state: CycleView,
    change: PendingChangeView,
    probed: MediaEntryView,
    k: int,
)
    requires
        sorted_by_path(state.entries),
        change.kind == ChangeKind::Modified,
        0 <= k < state.entries.len(),
        state.entries[k].path == normalized_path(change.path),
        state.entries[k].id.len() > 0,
    ensures
        applied(state, change, Some(probed)).entries.last() == (MediaEntryView {
            id: state.entries[k].id,
            ..probed
        }),
        applied(state, change, Some(probed)).entries.drop_last() == without_path(
            state.entries,
            normalized_path(change.path),
        ),
{
    let path = normalized_path(change.path);
    lemma_known_id(state.entries, path);
    match known_id(state.entries, path) {
        Some(id) => {
            let m = choose|m: int|
                0 <= m < state.entries.len() && #[trigger] state.entries[m].path == path
                    && state.entries[m].id == id;
            lemma_sorted_unique(state.entries, m, k);
        },
        None => {},
    }
    let after = applied(state, change, Some(probed)).entries;
    assert(after.drop_last() =~= without_path(state.entries, path));
}

/// A file that is renamed, which arrives as the removal of the old path and
/// the addition of the new one, gets a new identity: afterwards the library
/// holds nothing under the old path, and under the new path the probed entry
/// with the identifier that was drawn for it; both names are reported.
pub proof fn law_rename_takes_new_identity(
    state: CycleView,
    old_path: Seq<char>,
    new_path: Seq<char>,
    probed: MediaEntryView,
)
    requires
        has_path(state.entries, normalized_path(old_path)),
        !has_path(state.entries, normalized_path(new_path)),
        probed.path == normalized_path(new_path),
    ensures
        ({
            let removed = applied(
                state,
                PendingChangeView { path: old_path, kind: ChangeKind::Removed },
                None,
            );
            let after = applied(
                removed,
                PendingChangeView { path: new_path, kind: ChangeKind::Added },
                Some(probed),
            );
            &&& !has_path(after.entries, normalized_path(old_path))
            &&& after.entries.last() == probed
            &&& after.changed
            &&& after.removed == state.removed.push(display_name_of(old_path))
            &&& after.added == state.added.push(display_name_of(new_path))
        }),
{
    let old_n = normalized_path(old_path);
    let new_n = normalized_path(new_path);
    let removed = applied(state, PendingChangeView { path: old_path, kind: ChangeKind::Removed }, None);
    lemma_without_path(state.entries, old_n);
    assert(removed.entries == without_path(state.entries, old_n));
    lemma_without_path_keeps_absent(state.entries, old_n, new_n);
    lemma_without_path_absent(removed.entries, new_n);
    let after = applied(
        removed,
        PendingChangeView { path: new_path, kind: ChangeKind::Added },
        Some(probed),
    );
    assert(after.entries == removed.entries.push(probed));
    if has_path(after.entries, old_n) {
        let j = choose|j: int| 0 <= j < after.entries.len() && #[trigger] after.entries[j].path == old_n;
        if j < removed.entries.len() {
            assert(removed.entries[j].path == old_n);
        }
    }
}

/// What is persisted holds an upserted entry once: when the last of the
/// entries is the only one with its path, the persisted form has exactly one
/// entry with that path, and it is that last one.
proof fn lemma_upserted_entry_is_persisted(
    rest: Seq<MediaEntryView>,
    entry: MediaEntryView,
    out: Seq<MediaEntryView>,
)
    requires
        !has_path(rest, entry.path),
        is_normal_form_of(out, rest.push(entry)),
    ensures
        exists|j: int| 0 <= j < out.len() && #[trigger] out[j] == entry,
        forall|i: int, j: int|
            0 <= i < out.len() && 0 <= j < out.len() && (#[trigger] out[i]).path == entry.path
                && (#[trigger] out[j]).path == entry.path ==> i == j,
{
    let all = rest.push(entry);
    assert(all[rest.len() as int].path == entry.path);
    assert(has_path(out, all[rest.len() as int].path));
    let j = choose|j: int| 0 <= j < out.len() && #[trigger] out[j].path == entry.path;
    assert forall|k: int| 0 <= k < rest.len() implies (#[trigger] all[k]).path != entry.path by {
        assert(all[k] == rest[k]);
        if rest[k].path == entry.path {
            assert(has_path(rest, entry.path));
        }
    }
    lemma_first_with_path_is(all, entry.path, rest.len() as int);
    assert(out[j] == all[first_with_path(all, out[j].path)]);
    assert(out[j] == entry);
    assert forall|a: int, b: int|
        0 <= a < out.len() && 0 <= b < out.len() && (#[trigger] out[a]).path == entry.path && (
        #[trigger] out[b]).path == entry.path implies a == b by {
        lemma_sorted_unique(out, a, b);
    }
}

/// After a cycle in which a file was modified in place, the persisted library
/// holds exactly one entry for its path: under the identifier the path had,
/// with what probing found of the file, its new size among it.
pub proof fn law_modified_file_is_persisted_under_its_identifier(
    state: CycleView,
    change: PendingChangeView,
    probed: MediaEntryView,
    k: int,
    persisted: Seq<MediaEntryView>,
)
    requires
        sorted_by_path(state.entries),
        change.kind == ChangeKind::Modified,
        0 <= k < state.entries.len(),
        state.entries[k].path == normalized_path(change.path),
        state.entries[k].id.len() > 0,
        probed.path == normalized_path(change.path),
        is_normal_form_of(persisted, applied(state, change, Some(probed)).entries),
    ensures
        exists|j: int|
            0 <= j < persisted.len() && #[trigger] persisted[j] == (MediaEntryView {
                id: state.entries[k].id,
                ..probed
            }),
        forall|i: int, j: int|
            0 <= i < persisted.len() && 0 <= j < persisted.len() && (#[trigger] persisted[i]).path
                == probed.path && (#[trigger] persisted[j]).path == probed.path ==> i == j,
{
    let path = normalized_path(change.path);
    law_modification_keeps_identity(state, change, probed, k);
    let after = applied(state, change, Some(probed)).entries;
    let kept = MediaEntryView { id: state.entries[k].id, ..probed };
    lemma_without_path(state.entries, path);
    assert(after =~= without_path(state.entries, path).push(kept));
    lemma_upserted_entry_is_persisted(without_path(state.entries, path), kept, persisted);
}

/// After a cycle in which a file was renamed, the persisted library holds
/// nothing under the old path and exactly one entry under the new one: the
/// probed entry, under the identifier that was drawn for it.
pub proof fn law_renamed_file_is_persisted_under_a_new_identifier(
    state: CycleView,
    old_path: Seq<char>,
    new_path: Seq<char>,
    probed: MediaEntryView,
    persisted: Seq<MediaEntryView>,
)
    requires
        has_path(state.entries, normalized_path(old_path)),
        !has_path(state.entries, normalized_path(new_path)),
        probed.path == normalized_path(new_path),
        is_normal_form_of(
            persisted,
            applied(
                applied(
                    state,
                    PendingChangeView { path: old_path, kind: ChangeKind::Removed },
                    None,
                ),
                PendingChangeView { path: new_path, kind: ChangeKind::Added },
                Some(probed),
            ).entries,
        ),
    ensures
        !has_path(persisted, normalized_path(old_path)),
        exists|j: int| 0 <= j < persisted.len() && #[trigger] persisted[j] == probed,
        forall|i: int, j: int|
            0 <= i < persisted.len() && 0 <= j < persisted.len() && (#[trigger] persisted[i]).path
                == probed.path && (#[trigger] persisted[j]).path == probed.path ==> i == j,
{
    let old_n = normalized_path(old_path);
    let new_n = normalized_path(new_path);
    law_rename_takes_new_identity(state, old_path, new_path, probed);
    let removed = applied(state, PendingChangeView { path: old_path, kind: ChangeKind::Removed }, None);
    let after = applied(
        removed,
        PendingChangeView { path: new_path, kind: ChangeKind::Added },
        Some(probed),
    ).entries;
    lemma_without_path_keeps_absent(state.entries, old_n, new_n);
    lemma_without_path_absent(removed.entries, new_n);
    assert(after =~= removed.entries.push(probed));
    lemma_upserted_entry_is_persisted(removed.entries, probed, persisted);
    if has_path(persisted, old_n) {
        let j = choose|j: int| 0 <= j < persisted.len() && #[trigger] persisted[j].path == old_n;
        assert(has_path(after, persisted[j].path));
    }
}

/// Removing one path does not bring in another.
pub proof fn lemma_without_path_keeps_absent(s: Seq<MediaEntryView>, gone: Seq<char>, other: Seq<char>)
    requires
        !has_path(s, other),
    ensures
        !has_path(without_path(s, gone), other),
    decreases s.len(),
{
    if s.len() > 0 {
        let init = s.drop_last();
        if has_path(init, other) {
            let k = choose|k: int| 0 <= k < init.len() && #[trigger] init[k].path == other;
            assert(s[k].path == other);
        }
        lemma_without_path_keeps_absent(init, gone, other);
        let w = without_path(s, gone);
        if has_path(w, other) {
            let k = choose|k: int| 0 <= k < w.len() && #[trigger] w[k].path == other;
            if k < without_path(init, gone).len() {
                assert(without_path(init, gone)[k].path == other);
            } else {
                assert(s[s.len() - 1].path == other);
            }
        }
    }
}

/// One net change together with the entry that probing its file gave.
#[derive(Debug, PartialEq, Eq)]
pub struct ProbedChange {
    pub change: PendingChange,
    /// The entry built for the file once it was stable; `None` when it was
    /// unstable, had vanished or is no video file, and for a removal.
    pub entry: Option<MediaEntry>,
}

/// What a `ProbedChange` holds, as mathematical values.
pub struct ProbedChangeView {
    pub change: PendingChangeView,
    pub entry: Option<MediaEntryView>,
}

impl View for ProbedChange {
    type V = ProbedChangeView;

    open spec fn view(&self) -> ProbedChangeView {
        ProbedChangeView { change: self.change@, entry: self.entry.deep_view() }
    }
}

impl DeepView for ProbedChange {
    type V = ProbedChangeView;

    open spec fn deep_view(&self) -> ProbedChangeView {
        self@
    }
}

/// The cycle after the net changes `probed`, applied in order.
pub open spec fn applied_all(state: CycleView, probed: Seq<ProbedChangeView>) -> CycleView
    decreases probed.len(),
{
    if probed.len() == 0 {
        state
    } else {
        applied(applied_all(state, probed.drop_last()), probed.last().change, probed.last().entry)
    }
}

/// What a cycle that changed the library hands back: the library to persist,
/// the notification to emit, and whether to fetch metadata for new files.
#[derive(Debug, PartialEq, Eq)]
pub struct CycleOutcome {
    pub entries: Vec<MediaEntry>,
    pub event: MediaChangeEvent,
    pub fetch_metadata: bool,
}

/// `outcome` is what the finished cycle `state` reports: nothing when the
/// library did not change; otherwise the library in its persisted form, one
/// `incremental` notification with the three lists of file names and the new
/// total, and a metadata fetch exactly when a file was added.
pub open spec fn is_outcome_of(outcome: Option<CycleOutcome>, state: CycleView) -> bool {
    match outcome {
        None => !state.changed,
        Some(o) => {
            &&& state.changed
            &&& is_normal_form_of(o.entries.deep_view(), state.entries)
            &&& o.event@ == (MediaChangeEventView {
                kind: "incremental"@,
                added: state.added,
                modified: state.modified,
                removed: state.removed,
                total: o.entries.len(),
            })
            &&& o.fetch_metadata == (state.added.len() > 0)
        },
    }
}

impl CycleState {
    /// Ends the cycle.
    pub fn finish(self) -> (r: Option<CycleOutcome>)
        ensures
            is_outcome_of(r, self@),
    {
        if !self.changed {
            return None;
        }
        let CycleState { entries, changed, added, modified, removed } = self;
        let entries = sort_dedup_by_path(entries);
        let fetch_metadata = added.len() > 0;
        let total = entries.len();
        Some(
            CycleOutcome {
                entries,
                event: MediaChangeEvent {
                    kind: "incremental".to_owned(),
                    added,
                    modified,
                    removed,
                    total,
                },
                fetch_metadata,
            },
        )
    }
}

/// One debounce cycle on the library `entries`: applies the net changes in
/// order, then reports.
pub fn run_cycle(entries: Vec<MediaEntry>, probed: Vec<ProbedChange>) -> (r: Option<CycleOutcome>)
    ensures
        is_outcome_of(
            r,
            applied_all(
                CycleView {
                    entries: entries.deep_view(),
                    changed: false,
                    added: Seq::empty(),
                    modified: Seq::empty(),
                    removed: Seq::empty(),
                },
                probed.deep_view(),
            ),
        ),
{
    let ghost start = CycleView {
        entries: entries.deep_view(),
        changed: false,
        added: Seq::empty(),
        modified: Seq::empty(),
        removed: Seq::empty(),
    };
    let ghost all = probed.deep_view();
    let mut state = CycleState::begin(entries);
    assert(all.take(0) =~= Seq::empty());
    for p in it: probed
        invariant
            it.seq() == probed@,
            all == probed.deep_view(),
            state@ == applied_all(start, all.take(it.index())),
    {
        let ghost i = it.index();
        assert(all.take(i + 1).drop_last() =~= all.take(i));
        assert(all.take(i + 1).last() == p@);
        let ProbedChange { change, entry } = p;
        state = state.apply_change(&change, entry);
    }
    assert(all.take(all.len() as int) =~= all);
    state.finish()
}

/// What probing the file at a path gave.
#[derive(Debug, PartialEq, Eq)]
pub struct ProbedFile {
    /// The path as it was notified.
    pub path: String,
    /// The entry built for the file once it was stable; `None` when it was
    /// unstable, had vanished or is no video file.
    pub entry: Option<MediaEntry>,
}

/// What a `ProbedFile` holds, as mathematical values.
pub struct ProbedFileView {
    pub path: Seq<char>,
    pub entry: Option<MediaEntryView>,
}

impl View for ProbedFile {
    type V = ProbedFileView;

    open spec fn view(&self) -> ProbedFileView {
        ProbedFileView { path: self.path@, entry: self.entry.deep_view() }
    }
}

impl DeepView for ProbedFile {
    type V = ProbedFileView;

    open spec fn deep_view(&self) -> ProbedFileView {
        self@
    }
}

/// What probing gave for `path`: the entry of the first probe of that path,
/// nothing where the path was not probed.
pub open spec fn probe_for(probes: Seq<ProbedFileView>, path: Seq<char>) -> Option<MediaEntryView>
    decreases probes.len(),
{
    if probes.len() == 0 {
        None
    } else if probes[0].path == path {
        probes[0].entry
    } else {
        probe_for(probes.drop_first(), path)
    }
}

/// The net changes, each with what probing gave for its path.
pub open spec fn with_probes(net: Seq<PendingChangeView>, probes: Seq<ProbedFileView>) -> Seq<
    ProbedChangeView,
> {
    Seq::new(
        net.len(),
        |i: int| ProbedChangeView { change: net[i], entry: probe_for(probes, net[i].path) },
    )
}

fn find_probe(probes: &Vec<ProbedFile>, path: &str) -> (r: Option<MediaEntry>)
    ensures
        r.deep_view() == probe_for(probes.deep_view(), path@),
{
    let ghost all = probes.deep_view();
    let mut i: usize = 0;
    assert(all.skip(0) =~= all);
    while i < probes.len()
        invariant
            i <= probes.len(),
            all == probes.deep_view(),
            probe_for(all, path@) == probe_for(all.skip(i as int), path@),
        decreases probes.len() - i,
    {
        assert(all.skip(i as int)[0] == probes[i as int]@);
        assert(all.skip(i as int).drop_first() =~= all.skip(i + 1));
        if str_eq(probes[i].path.as_str(), path) {
            return match &probes[i].entry {
                Some(e) => Some(e.clone()),
                None => None,
            };
        }
        i = i + 1;
    }
    None
}

/// The library as a cycle finds it: nothing changed, nothing to report.
pub open spec fn cycle_start(entries: Seq<MediaEntryView>) -> CycleView {
    CycleView {
        entries: entries,
        changed: false,
        added: Seq::empty(),
        modified: Seq::empty(),
        removed: Seq::empty(),
    }
}

/// `outcome` is what one debounce cycle makes of the notifications `drained`
/// on the library `entries`: the notifications are merged into one net change
/// per path, the net changes are applied in order, each with what probing
/// gave for its path, and the result is reported.
pub open spec fn is_cycle_of(
    outcome: Option<CycleOutcome>,
    entries: Seq<MediaEntryView>,
    drained: Seq<PendingChangeView>,
    probes: Seq<ProbedFileView>,
) -> bool {
    exists|net: Seq<PendingChangeView>| #[trigger]
        is_merge_of(net, drained) && is_outcome_of(
            outcome,
            applied_all(cycle_start(entries), with_probes(net, probes)),
        )
}

/// One debounce cycle, from the drained buffer to what is persisted and
/// reported. Only the net change of a path is applied to the library.
pub fn debounce_cycle(entries: Vec<MediaEntry>, drained: &Vec<PendingChange>, probes: &Vec<
    ProbedFile,
>) -> (r: Option<CycleOutcome>)
    ensures
        is_cycle_of(r, entries.deep_view(), drained.deep_view(), probes.deep_view()),
{
    let net = merge_changes(drained);
    let ghost n = net.deep_view();
    let ghost want = with_probes(n, probes.deep_view());
    let mut probed: Vec<ProbedChange> = Vec::new();
    for c in it: net
        invariant
            it.seq() == net@,
            n == net.deep_view(),
            want == with_probes(n, probes.deep_view()),
            probed.len() == it.index(),
            forall|k: int| 0 <= k < probed.len() ==> (#[trigger] probed[k])@ == want[k],
    {
        assert(n[it.index()] == c@);
        let entry = find_probe(probes, c.path.as_str());
        probed.push(ProbedChange { change: c, entry });
    }
    assert(probed.deep_view() =~= want);
    let r = run_cycle(entries, probed);
    assert(is_merge_of(n, drained.deep_view()));
    r
}

/// The notification that follows a full scan which found `total` files.
pub fn full_scan_event(total: usize) -> (r: MediaChangeEvent)
    ensures
        r@ == (MediaChangeEventView {
            kind: "full_scan"@,
            added: Seq::empty(),
            modified: Seq::empty(),
            removed: Seq::empty(),
            total: total,
        }),
{
    let r = MediaChangeEvent {
        kind: "full_scan".to_owned(),
        added: Vec::new(),
        modified: Vec::new(),
        removed: Vec::new(),
        total,
    };
    assert(r.added.deep_view() =~= Seq::empty());
    assert(r.modified.deep_view() =~= Seq::empty());
    assert(r.removed.deep_view() =~= Seq::empty());
    r
}

/// What the operating system said happened, as far as the watcher tells the
/// cases apart.
#[derive(Clone, Copy, Debug, PartialEq, Eq, Structural)]
pub enum FsEventKind {
    /// Something was created.
    Created,
    /// The content of a file changed.
    DataModified,
    /// Something changed, the system did not say what.
    Modified,
    /// A name or the attributes changed.
    OtherModified,
    /// Something was removed.
    Removed,
    /// Anything else (an access, an unknown event).
    Other,
}

/// The kind of change that an event stands for, if it counts at all.
pub open spec fn change_kind_for(kind: FsEventKind) -> Option<ChangeKind> {
    match kind {
        FsEventKind::Created => Some(ChangeKind::Added),
        FsEventKind::DataModified => Some(ChangeKind::Modified),
        FsEventKind::Modified => Some(ChangeKind::Modified),
        FsEventKind::Removed => Some(ChangeKind::Removed),
        FsEventKind::OtherModified => None,
        FsEventKind::Other => None,
    }
}

/// The kind of change that an event stands for, if it counts.
pub fn change_kind_of(kind: FsEventKind) -> (r: Option<ChangeKind>)
    ensures
        r == change_kind_for(kind),
{
    match kind {
        FsEventKind::Created => Some(ChangeKind::Added),
        FsEventKind::DataModified => Some(ChangeKind::Modified),
        FsEventKind::Modified => Some(ChangeKind::Modified),
        FsEventKind::Removed => Some(ChangeKind::Removed),
        FsEventKind::OtherModified => None,
        FsEventKind::Other => None,
    }
}

/// The notifications that an event on `paths` adds to the buffer: one for
/// each path with a video extension, in order, if the event counts.
pub open spec fn recorded(kind: FsEventKind, paths: Seq<Seq<char>>) -> Seq<PendingChangeView>
    decreases paths.len(),
{
    if paths.len() == 0 {
        Seq::empty()
    } else {
        let init = recorded(kind, paths.drop_last());
        match change_kind_for(kind) {
            Some(k) => if is_media_path(paths.last()) {
                init.push(PendingChangeView { path: paths.last(), kind: k })
            } else {
                init
            },
            None => init,
        }
    }
}

/// An event that does not count records nothing.
pub proof fn lemma_recorded_nothing(kind: FsEventKind, paths: Seq<Seq<char>>)
    requires
        change_kind_for(kind) is None,
    ensures
        recorded(kind, paths) == Seq::<PendingChangeView>::empty(),
    decreases paths.len(),
{
    if paths.len() > 0 {
        lemma_recorded_nothing(kind, paths.drop_last());
    }
}

/// Appends to the buffer what an event on `paths` stands for.
pub fn record_event(pending: &mut Vec<PendingChange>, kind: FsEventKind, paths: &Vec<String>)
    ensures
        final(pending).deep_view() == old(pending).deep_view() + recorded(kind, paths.deep_view()),
{
    let ghost before = pending.deep_view();
    let ghost all = paths.deep_view();
    match change_kind_of(kind) {
        None => {
            proof {
                lemma_recorded_nothing(kind, all);
            }
            assert(before + Seq::<PendingChangeView>::empty() =~= before);
        },
        Some(k) => {
            let mut i: usize = 0;
            assert(all.take(0) =~= Seq::empty());
            assert(before + Seq::<PendingChangeView>::empty() =~= before);
            while i < paths.len()
                invariant
                    i <= paths.len(),
                    all == paths.deep_view(),
                    change_kind_for(kind) == Some(k),
                    pending.deep_view() == before + recorded(kind, all.take(i as int)),
                decreases paths.len() - i,
            {
                let ghost sofar = pending.deep_view();
                assert(all.take(i + 1).drop_last() =~= all.take(i as int));
                assert(all.take(i + 1).last() == paths[i as int]@);
                if has_media_extension(paths[i].as_str()) {
                    pending.push(PendingChange { path: paths[i].clone(), kind: k });
                    assert(pending.deep_view() =~= sofar.push(
                        PendingChangeView { path: paths[i as int]@, kind: k },
                    ));
                    assert(pending.deep_view() =~= before + recorded(kind, all.take(i + 1)));
                }
                i = i + 1;
            }
            assert(all.take(i as int) =~= all);
        },
    }
}

/// How long the debounce loop sleeps between two cycles, in seconds.
pub const DEBOUNCE_INTERVAL_SECONDS: u64 = 2;

/// How many times a file's size is compared before the file is given up.
pub const FILE_STABILITY_MAX_RETRIES: u32 = 5;

/// How long to wait between the two samples of one comparison, in
/// milliseconds.
pub const FILE_STABILITY_CHECK_DELAY_MS: u64 = 500;

/// Where the stability prober stands for one file.
#[derive(Clone, Copy, Debug, PartialEq, Eq, Structural)]
pub enum ProbeState {
    /// About to take the first sample of comparison number `attempt`.
    First { attempt: u32 },
    /// Holds the first sample of comparison number `attempt`.
    Second { attempt: u32, before: u64 },
    /// Two samples of one comparison were equal and not zero.
    Stable,
    /// The file vanished, or no comparison succeeded.
    Failed,
}

/// What the caller is to do next for the prober.
#[derive(Clone, Copy, Debug, PartialEq, Eq, Structural)]
pub enum ProbeAction {
    /// Read the file's size now and hand it to `probe_step`.
    Sample,
    /// Wait for the check delay, then read the file's size and hand it over.
    WaitThenSample,
    /// The verdict is in: `true` for a stable file.
    Done(bool),
}

/// The prober after a sample; `None` stands for a file that is not there.
pub open spec fn probe_next(state: ProbeState, sample: Option<u64>) -> ProbeState {
    match state {
        ProbeState::First { attempt } => match sample {
            None => ProbeState::Failed,
            Some(size) => ProbeState::Second { attempt: attempt, before: size },
        },
        ProbeState::Second { attempt, before } => match sample {
            None => ProbeState::Failed,
            Some(after) => if before == after && after > 0 {
                ProbeState::Stable
            } else if attempt + 1 < FILE_STABILITY_MAX_RETRIES {
                ProbeState::First { attempt: (attempt + 1) as u32 }
            } else {
                ProbeState::Failed
            },
        },
        ProbeState::Stable => ProbeState::Stable,
        ProbeState::Failed => ProbeState::Failed,
    }
}

/// The prober after the samples `samples`, in order.
pub open spec fn probe_run(state: ProbeState, samples: Seq<Option<u64>>) -> ProbeState
    decreases samples.len(),
{
    if samples.len() == 0 {
        state
    } else {
        probe_next(probe_run(state, samples.drop_last()), samples.last())
    }
}

/// The prober before its first sample.
pub fn probe_start() -> (r: ProbeState)
    ensures
        r == (ProbeState::First { attempt: 0 }),
{
    ProbeState::First { attempt: 0 }
}

/// What to do in a state.
pub fn probe_action(state: ProbeState) -> (r: ProbeAction)
    ensures
        r == match state {
            ProbeState::First { .. } => ProbeAction::Sample,
            ProbeState::Second { .. } => ProbeAction::WaitThenSample,
            ProbeState::Stable => ProbeAction::Done(true),
            ProbeState::Failed => ProbeAction::Done(false),
        },
{
    match state {
        ProbeState::First { .. } => ProbeAction::Sample,
        ProbeState::Second { .. } => ProbeAction::WaitThenSample,
        ProbeState::Stable => ProbeAction::Done(true),
        ProbeState::Failed => ProbeAction::Done(false),
    }
}

/// Takes a sample into account.
pub fn probe_step(state: ProbeState, sample: Option<u64>) -> (r: ProbeState)
    ensures
        r == probe_next(state, sample),
{
    match state {
        ProbeState::First { attempt } => match sample {
            None => ProbeState::Failed,
            Some(size) => ProbeState::Second { attempt, before: size },
        },
        ProbeState::Second { attempt, before } => match sample {
            None => ProbeState::Failed,
            Some(after) => if before == after && after > 0 {
                ProbeState::Stable
            } else if attempt < FILE_STABILITY_MAX_RETRIES - 1 {
                ProbeState::First { attempt: attempt + 1 }
            } else {
                ProbeState::Failed
            },
        },
        ProbeState::Stable => ProbeState::Stable,
        ProbeState::Failed => ProbeState::Failed,
    }
}

/// Whether the verdict is in.
pub open spec fn probe_decided(state: ProbeState) -> bool {
    state is Stable || state is Failed
}

/// How many samples a state may still ask for.
pub open spec fn probe_budget(state: ProbeState) -> int {
    match state {
        ProbeState::First { attempt } => 2 * (FILE_STABILITY_MAX_RETRIES - attempt),
        ProbeState::Second { attempt, .. } => 2 * (FILE_STABILITY_MAX_RETRIES - attempt) - 1,
        ProbeState::Stable => 0,
        ProbeState::Failed => 0,
    }
}

/// The comparison that a state is in is one of the allowed ones.
pub open spec fn probe_valid(state: ProbeState) -> bool {
    match state {
        ProbeState::First { attempt } => attempt < FILE_STABILITY_MAX_RETRIES,
        ProbeState::Second { attempt, .. } => attempt < FILE_STABILITY_MAX_RETRIES,
        ProbeState::Stable => true,
        ProbeState::Failed => true,
    }
}

proof fn lemma_probe_budget(state: ProbeState, samples: Seq<Option<u64>>)
    requires
        probe_valid(state),
    ensures
        probe_valid(probe_run(state, samples)),
        probe_decided(probe_run(state, samples)) || probe_budget(probe_run(state, samples))
            <= probe_budget(state) - samples.len(),
    decreases samples.len(),
{
    if samples.len() > 0 {
        lemma_probe_budget(state, samples.drop_last());
    }
}

/// The prober decides within two samples per comparison: after
/// `2 * FILE_STABILITY_MAX_RETRIES` samples, whatever they are, the verdict is
/// in, so a file delays its cycle by at most that many check delays.
pub proof fn law_probe_is_bounded(samples: Seq<Option<u64>>)
    requires
        samples.len() >= 2 * FILE_STABILITY_MAX_RETRIES,
    ensures
        probe_decided(probe_run(ProbeState::First { attempt: 0 }, samples)),
{
    lemma_probe_budget(ProbeState::First { attempt: 0 }, samples);
}

/// A file that is missing at a sample fails at once, whatever came before.
pub proof fn law_probe_fails_on_missing_file(state: ProbeState)
    requires
        !probe_decided(state),
    ensures
        probe_next(state, None) == ProbeState::Failed,
{
}

/// A verdict, once in, stands.
pub proof fn law_probe_verdict_is_final(state: ProbeState, samples: Seq<Option<u64>>)
    requires
        probe_decided(state),
    ensures
        probe_run(state, samples) == state,
    decreases samples.len(),
{
    if samples.len() > 0 {
        law_probe_verdict_is_final(state, samples.drop_last());
    }
}

/// One thing the application does to the threads and watchers of a session.
#[derive(Clone, Copy, Debug, PartialEq, Eq, Structural)]
pub enum SessionAction {
    /// Signal the debounce loop to stop, drop every filesystem watcher, and
    /// join the loop if there is one.
    StopDebounce,
    /// Discard the notifications that were buffered and not yet processed.
    DiscardPending,
    /// Scan all folders, persist the library and report the scan.
    FullScan,
    /// Spawn the debounce loop.
    SpawnDebounce,
    /// Watch the configured folders for the user.
    Watch,
    /// Drop the user's filesystem watcher.
    Unwatch,
    /// Signal the retry loop to stop and join it if there is one.
    StopRetry,
    /// Spawn the retry loop.
    SpawnRetry,
    /// Signal the metadata batches that run in the background to stop, and
    /// join them.
    StopBatches,
}

/// Which users have a filesystem watcher, and whether the debounce loop runs.
#[derive(Debug, PartialEq, Eq)]
pub struct WatcherState {
    pub watchers: Vec<String>,
    pub debounce_running: bool,
}

/// What a `WatcherState` holds, as mathematical values.
pub struct WatcherStateView {
    pub watchers: Seq<Seq<char>>,
    pub debounce_running: bool,
}

impl View for WatcherState {
    type V = WatcherStateView;

    open spec fn view(&self) -> WatcherStateView {
        WatcherStateView {
            watchers: self.watchers.deep_view(),
            debounce_running: self.debounce_running,
        }
    }
}

/// `users` without `user`.
pub open spec fn without_user(users: Seq<Seq<char>>, user: Seq<char>) -> Seq<Seq<char>>
    decreases users.len(),
{
    if users.len() == 0 {
        users
    } else {
        let init = without_user(users.drop_last(), user);
        if users.last() == user {
            init
        } else {
            init.push(users.last())
        }
    }
}

/// The state after `action` was carried out for `user`.
pub open spec fn state_after(state: WatcherStateView, action: SessionAction, user: Seq<char>)
    -> WatcherStateView {
    match action {
        SessionAction::StopDebounce => WatcherStateView {
            watchers: Seq::empty(),
            debounce_running: false,
        },
        SessionAction::SpawnDebounce => WatcherStateView { debounce_running: true, ..state },
        SessionAction::Watch => WatcherStateView {
            watchers: without_user(state.watchers, user).push(user),
            ..state
        },
        SessionAction::Unwatch => WatcherStateView {
            watchers: without_user(state.watchers, user),
            ..state
        },
        _ => state,
    }
}

fn remove_user(users: Vec<String>, user: &str) -> (r: Vec<String>)
    ensures
        r.deep_view() == without_user(users.deep_view(), user@),
{
    let ghost s = users.deep_view();
    let mut kept: Vec<String> = Vec::new();
    assert(s.take(0) =~= Seq::empty());
    assert(kept.deep_view() =~= Seq::empty());
    for x in it: users
        invariant
            it.seq() == users@,
            s == users.deep_view(),
            kept.deep_view() == without_user(s.take(it.index()), user@),
    {
        let ghost i = it.index();
        let ghost before = kept.deep_view();
        assert(s.take(i + 1).drop_last() =~= s.take(i));
        assert(s.take(i + 1).last() == x@);
        if !str_eq(x.as_str(), user) {
            kept.push(x);
            assert(kept.deep_view() =~= before.push(s[i]));
        }
    }
    assert(s.take(s.len() as int) =~= s);
    kept
}

impl WatcherState {
    /// No watcher and no debounce loop yet.
    pub fn new() -> (r: Self)
        ensures
            r@ == (WatcherStateView { watchers: Seq::empty(), debounce_running: false }),
    {
        let r = WatcherState { watchers: Vec::new(), debounce_running: false };
        assert(r.watchers.deep_view() =~= Seq::empty());
        r
    }

    /// Takes note that `action` was carried out for `user_id`.
    pub fn record(self, action: SessionAction, user_id: &str) -> (r: WatcherState)
        ensures
            r@ == state_after(self@, action, user_id@),
    {
        let WatcherState { watchers, debounce_running } = self;
        match action {
            SessionAction::StopDebounce => {
                let r = WatcherState { watchers: Vec::new(), debounce_running: false };
                assert(r.watchers.deep_view() =~= Seq::empty());
                r
            },
            SessionAction::SpawnDebounce => WatcherState { watchers, debounce_running: true },
            SessionAction::Watch => {
                let mut kept = remove_user(watchers, user_id);
                let ghost k0 = kept.deep_view();
                kept.push(user_id.to_owned());
                assert(kept.deep_view() =~= k0.push(user_id@));
                WatcherState { watchers: kept, debounce_running }
            },
            SessionAction::Unwatch => WatcherState {
                watchers: remove_user(watchers, user_id),
                debounce_running,
            },
            _ => WatcherState { watchers, debounce_running },
        }
    }
}

/// What starting to watch takes. Whatever ran before is stopped first and
/// what it left in the buffer is discarded. With no folder configured nothing
/// more is done. Otherwise the folders are scanned if the settings ask for a
/// scan on startup, and, if they ask for live scanning, the debounce loop is
/// spawned, the folders are watched and the retry loop is started afresh.
pub open spec fn start_plan(folders: nat, scan_on_startup: bool, live_scan: bool) -> Seq<
    SessionAction,
> {
    let stop = seq![SessionAction::StopDebounce, SessionAction::DiscardPending];
    if folders == 0 {
        stop
    } else {
        let scan = if scan_on_startup {
            seq![SessionAction::FullScan]
        } else {
            Seq::empty()
        };
        let live = if live_scan {
            seq![
                SessionAction::SpawnDebounce,
                SessionAction::Watch,
                SessionAction::StopRetry,
                SessionAction::SpawnRetry,
            ]
        } else {
            Seq::empty()
        };
        stop + scan + live
    }
}

/// What stopping to watch takes. The user's watcher is dropped; if no watcher
/// is left, the debounce loop is stopped; the buffer is discarded with the
/// session; the retry loop and the metadata batches are stopped and joined,
/// so that nothing writes once the stop is done.
pub open spec fn stop_plan(state: WatcherStateView, user: Seq<char>) -> Seq<SessionAction> {
    let first = seq![SessionAction::Unwatch];
    let debounce = if without_user(state.watchers, user).len() == 0 {
        seq![SessionAction::StopDebounce]
    } else {
        Seq::empty()
    };
    first + debounce + seq![
        SessionAction::DiscardPending,
        SessionAction::StopRetry,
        SessionAction::StopBatches,
    ]
}

/// The actions to carry out, in order, to start watching.
pub fn start_watching(config: &MediaConfig, settings: &Settings) -> (r: Vec<SessionAction>)
    ensures
        r@ == start_plan(
            config.folders.len() as nat,
            settings.scan_on_startup,
            settings.live_scan,
        ),
{
    let mut plan: Vec<SessionAction> = Vec::new();
    plan.push(SessionAction::StopDebounce);
    plan.push(SessionAction::DiscardPending);
    if config.folders.len() > 0 {
        if settings.scan_on_startup {
            plan.push(SessionAction::FullScan);
        }
        if settings.live_scan {
            plan.push(SessionAction::SpawnDebounce);
            plan.push(SessionAction::Watch);
            plan.push(SessionAction::StopRetry);
            plan.push(SessionAction::SpawnRetry);
        }
    }
    assert(plan@ =~= start_plan(
        config.folders.len() as nat,
        settings.scan_on_startup,
        settings.live_scan,
    ));
    plan
}

/// Whether a user other than `user` has a watcher.
fn others_watch(watchers: &Vec<String>, user: &str) -> (r: bool)
    ensures
        r == (without_user(watchers.deep_view(), user@).len() > 0),
{
    let ghost s = watchers.deep_view();
    let mut i: usize = 0;
    assert(s.take(0) =~= Seq::empty());
    while i < watchers.len()
        invariant
            i <= watchers.len(),
            s == watchers.deep_view(),
            without_user(s.take(i as int), user@).len() == 0,
        decreases watchers.len() - i,
    {
        assert(s.take(i + 1).drop_last() =~= s.take(i as int));
        assert(s.take(i + 1).last() == watchers[i as int]@);
        if !str_eq(watchers[i].as_str(), user) {
            proof {
                lemma_without_user_grows(s, user@, i + 1);
            }
            return true;
        }
        i = i + 1;
    }
    assert(s.take(i as int) =~= s);
    false
}

proof fn lemma_without_user_grows(users: Seq<Seq<char>>, user: Seq<char>, k: int)
    requires
        0 <= k <= users.len(),
    ensures
        without_user(users.take(k), user).len() <= without_user(users, user).len(),
    decreases users.len() - k,
{
    if k < users.len() {
        lemma_without_user_grows(users, user, k + 1);
        assert(users.take(k + 1).drop_last() =~= users.take(k));
    } else {
        assert(users.take(k) =~= users);
    }
}

/// The actions to carry out, in order, to stop watching for a user.
pub fn stop_watching(state: &WatcherState, user_id: &str) -> (r: Vec<SessionAction>)
    ensures
        r@ == stop_plan(state@, user_id@),
{
    let mut plan: Vec<SessionAction> = Vec::new();
    plan.push(SessionAction::Unwatch);
    if !others_watch(&state.watchers, user_id) {
        plan.push(SessionAction::StopDebounce);
    }
    plan.push(SessionAction::DiscardPending);
    plan.push(SessionAction::StopRetry);
    plan.push(SessionAction::StopBatches);
    assert(plan@ =~= stop_plan(state@, user_id@));
    plan
}

/// The actions to carry out, in order, to restart: those that stop, then
/// those that start.
pub fn restart_watching(state: &WatcherState, user_id: &str, config: &MediaConfig, settings: &Settings)
    -> (r: Vec<SessionAction>)
    ensures
        r@ == stop_plan(state@, user_id@) + start_plan(
            config.folders.len() as nat,
            settings.scan_on_startup,
            settings.live_scan,
        ),
{
    let mut plan = stop_watching(state, user_id);
    let mut start = start_watching(config, settings);
    plan.append(&mut start);
    plan
}

/// How many debounce loops, retry loops and metadata batches are alive.
pub struct Threads {
    pub debounce: nat,
    pub retry: nat,
    pub batches: nat,
}

/// The threads alive after an action: a spawn adds one, a full scan leaves a
/// metadata batch behind, a stop ends and joins all of its kind.
pub open spec fn threads_after(threads: Threads, action: SessionAction) -> Threads {
    match action {
        SessionAction::StopDebounce => Threads { debounce: 0, ..threads },
        SessionAction::SpawnDebounce => Threads { debounce: threads.debounce + 1, ..threads },
        SessionAction::StopRetry => Threads { retry: 0, ..threads },
        SessionAction::SpawnRetry => Threads { retry: threads.retry + 1, ..threads },
        SessionAction::FullScan => Threads { batches: threads.batches + 1, ..threads },
        SessionAction::StopBatches => Threads { batches: 0, ..threads },
        _ => threads,
    }
}

/// The threads alive after the actions `plan`, carried out in order.
pub open spec fn threads_after_all(threads: Threads, plan: Seq<SessionAction>) -> Threads
    decreases plan.len(),
{
    if plan.len() == 0 {
        threads
    } else {
        threads_after(threads_after_all(threads, plan.drop_last()), plan.last())
    }
}

/// Carrying out two plans in a row is carrying out the first, then the second.
pub proof fn lemma_threads_after_concat(threads: Threads, a: Seq<SessionAction>, b: Seq<
    SessionAction,
>)
    ensures
        threads_after_all(threads, a + b) == threads_after_all(threads_after_all(threads, a), b),
    decreases b.len(),
{
    if b.len() == 0 {
        assert(a + b =~= a);
    } else {
        lemma_threads_after_concat(threads, a, b.drop_last());
        assert((a + b).drop_last() =~= a + b.drop_last());
        assert((a + b).last() == b.last());
    }
}

proof fn lemma_threads_after_push(threads: Threads, plan: Seq<SessionAction>, action: SessionAction)
    ensures
        threads_after_all(threads, plan.push(action)) == threads_after(
            threads_after_all(threads, plan),
            action,
        ),
{
    assert(plan.push(action).drop_last() =~= plan);
}

proof fn lemma_threads_after_start(threads: Threads, folders: nat, scan: bool, live: bool)
    ensures
        threads_after_all(threads, start_plan(folders, scan, live)).debounce == if folders > 0
            && live {
            1nat
        } else {
            0nat
        },
        threads_after_all(threads, start_plan(folders, scan, live)).retry == if folders > 0 && live {
            1nat
        } else {
            threads.retry
        },
{
    let none = Seq::<SessionAction>::empty();
    let plan_0 = none.push(SessionAction::StopDebounce);
    lemma_threads_after_push(threads, none, SessionAction::StopDebounce);
    let plan_1 = plan_0.push(SessionAction::DiscardPending);
    lemma_threads_after_push(threads, plan_0, SessionAction::DiscardPending);
    if folders == 0 {
        assert(start_plan(folders, scan, live) =~= plan_1);
    } else {
        let plan_2 = if scan {
            plan_1.push(SessionAction::FullScan)
        } else {
            plan_1
        };
        if scan {
            lemma_threads_after_push(threads, plan_1, SessionAction::FullScan);
        }
        if live {
            let plan_3 = plan_2.push(SessionAction::SpawnDebounce);
            let plan_4 = plan_3.push(SessionAction::Watch);
            let plan_5 = plan_4.push(SessionAction::StopRetry);
            let plan_6 = plan_5.push(SessionAction::SpawnRetry);
            lemma_threads_after_push(threads, plan_2, SessionAction::SpawnDebounce);
            lemma_threads_after_push(threads, plan_3, SessionAction::Watch);
            lemma_threads_after_push(threads, plan_4, SessionAction::StopRetry);
            lemma_threads_after_push(threads, plan_5, SessionAction::SpawnRetry);
            assert(start_plan(folders, scan, live) =~= plan_6);
        } else {
            assert(start_plan(folders, scan, live) =~= plan_2);
        }
    }
}

proof fn lemma_threads_after_stop(threads: Threads, state: WatcherStateView, user: Seq<char>)
    ensures
        threads_after_all(threads, stop_plan(state, user)).debounce == if without_user(
            state.watchers,
            user,
        ).len() == 0 {
            0nat
        } else {
            threads.debounce
        },
        threads_after_all(threads, stop_plan(state, user)).retry == 0,
        threads_after_all(threads, stop_plan(state, user)).batches == 0,
{
    let none = Seq::<SessionAction>::empty();
    let plan_1 = none.push(SessionAction::Unwatch);
    lemma_threads_after_push(threads, none, SessionAction::Unwatch);
    let plan_2 = if without_user(state.watchers, user).len() == 0 {
        plan_1.push(SessionAction::StopDebounce)
    } else {
        plan_1
    };
    if without_user(state.watchers, user).len() == 0 {
        lemma_threads_after_push(threads, plan_1, SessionAction::StopDebounce);
    }
    let plan_3 = plan_2.push(SessionAction::DiscardPending);
    lemma_threads_after_push(threads, plan_2, SessionAction::DiscardPending);
    let plan_4 = plan_3.push(SessionAction::StopRetry);
    lemma_threads_after_push(threads, plan_3, SessionAction::StopRetry);
    let plan_5 = plan_4.push(SessionAction::StopBatches);
    lemma_threads_after_push(threads, plan_4, SessionAction::StopBatches);
    assert(stop_plan(state, user) =~= plan_5);
}

/// Once the last session is stopped nothing is left that could write: no
/// debounce loop, no retry loop and no metadata batch, however many there
/// were.
pub proof fn law_stop_leaves_no_writer(threads: Threads, state: WatcherStateView, user: Seq<char>)
    requires
        without_user(state.watchers, user).len() == 0,
    ensures
        threads_after_all(threads, stop_plan(state, user)) == (Threads {
            debounce: 0,
            retry: 0,
            batches: 0,
        }),
{
    lemma_threads_after_stop(threads, state, user);
}

/// What the buffer holds after an action, as long as no notification
/// arrives: nothing once it was discarded, and what it held otherwise.
pub open spec fn pending_after(pending: Seq<PendingChangeView>, action: SessionAction) -> Seq<
    PendingChangeView,
> {
    match action {
        SessionAction::DiscardPending => Seq::empty(),
        _ => pending,
    }
}

/// What the buffer holds after the actions `plan`, carried out in order.
pub open spec fn pending_after_all(pending: Seq<PendingChangeView>, plan: Seq<SessionAction>)
    -> Seq<PendingChangeView>
    decreases plan.len(),
{
    if plan.len() == 0 {
        pending
    } else {
        pending_after(pending_after_all(pending, plan.drop_last()), plan.last())
    }
}

proof fn lemma_pending_after_push(
    pending: Seq<PendingChangeView>,
    plan: Seq<SessionAction>,
    action: SessionAction,
)
    ensures
        pending_after_all(pending, plan.push(action)) == pending_after(
            pending_after_all(pending, plan),
            action,
        ),
{
    assert(plan.push(action).drop_last() =~= plan);
}

/// The buffer is discarded with the session: whatever it held when the
/// session is stopped, it is empty afterwards, and a session that is started
/// begins with an empty buffer. In both plans the discard comes after the
/// watchers that could fill the buffer are dropped.
pub proof fn law_buffer_is_discarded_with_the_session(
    pending: Seq<PendingChangeView>,
    state: WatcherStateView,
    user: Seq<char>,
    folders: nat,
    scan_on_startup: bool,
    live_scan: bool,
)
    ensures
        pending_after_all(pending, stop_plan(state, user)) == Seq::<PendingChangeView>::empty(),
        pending_after_all(pending, start_plan(folders, scan_on_startup, live_scan)) == Seq::<
            PendingChangeView,
        >::empty(),
        start_plan(folders, scan_on_startup, live_scan)[0] == SessionAction::StopDebounce,
        start_plan(folders, scan_on_startup, live_scan)[1] == SessionAction::DiscardPending,
{
    let none = Seq::<SessionAction>::empty();
    // stopping
    let s1 = none.push(SessionAction::Unwatch);
    lemma_pending_after_push(pending, none, SessionAction::Unwatch);
    let s2 = if without_user(state.watchers, user).len() == 0 {
        s1.push(SessionAction::StopDebounce)
    } else {
        s1
    };
    if without_user(state.watchers, user).len() == 0 {
        lemma_pending_after_push(pending, s1, SessionAction::StopDebounce);
    }
    let s3 = s2.push(SessionAction::DiscardPending);
    lemma_pending_after_push(pending, s2, SessionAction::DiscardPending);
    let s4 = s3.push(SessionAction::StopRetry);
    lemma_pending_after_push(pending, s3, SessionAction::StopRetry);
    let s5 = s4.push(SessionAction::StopBatches);
    lemma_pending_after_push(pending, s4, SessionAction::StopBatches);
    assert(stop_plan(state, user) =~= s5);
    // starting
    let plan_0 = none.push(SessionAction::StopDebounce);
    lemma_pending_after_push(pending, none, SessionAction::StopDebounce);
    let plan_1 = plan_0.push(SessionAction::DiscardPending);
    lemma_pending_after_push(pending, plan_0, SessionAction::DiscardPending);
    if folders == 0 {
        assert(start_plan(folders, scan_on_startup, live_scan) =~= plan_1);
    } else {
        let plan_2 = if scan_on_startup {
            plan_1.push(SessionAction::FullScan)
        } else {
            plan_1
        };
        if scan_on_startup {
            lemma_pending_after_push(pending, plan_1, SessionAction::FullScan);
        }
        if live_scan {
            let plan_3 = plan_2.push(SessionAction::SpawnDebounce);
            let plan_4 = plan_3.push(SessionAction::Watch);
            let plan_5 = plan_4.push(SessionAction::StopRetry);
            let plan_6 = plan_5.push(SessionAction::SpawnRetry);
            lemma_pending_after_push(pending, plan_2, SessionAction::SpawnDebounce);
            lemma_pending_after_push(pending, plan_3, SessionAction::Watch);
            lemma_pending_after_push(pending, plan_4, SessionAction::StopRetry);
            lemma_pending_after_push(pending, plan_5, SessionAction::SpawnRetry);
            assert(start_plan(folders, scan_on_startup, live_scan) =~= plan_6);
        } else {
            assert(start_plan(folders, scan_on_startup, live_scan) =~= plan_2);
        }
    }
}

/// Discards the notifications that were buffered.
pub fn discard_pending(pending: &mut Vec<PendingChange>)
    ensures
        final(pending).deep_view() == pending_after(
            old(pending).deep_view(),
            SessionAction::DiscardPending,
        ),
{
    pending.clear();
    assert(pending.deep_view() =~= Seq::empty());
}

/// Starting, stopping and restarting never leave more than one debounce loop
/// or more than one retry loop alive, if there was at most one of each
/// before.
pub proof fn law_at_most_one_loop_of_each_kind(
    threads: Threads,
    state: WatcherStateView,
    user: Seq<char>,
    folders: nat,
    scan_on_startup: bool,
    live_scan: bool,
)
    requires
        threads.debounce <= 1,
        threads.retry <= 1,
    ensures
        threads_after_all(threads, start_plan(folders, scan_on_startup, live_scan)).debounce <= 1,
        threads_after_all(threads, start_plan(folders, scan_on_startup, live_scan)).retry <= 1,
        threads_after_all(threads, stop_plan(state, user)).debounce <= 1,
        threads_after_all(threads, stop_plan(state, user)).retry <= 1,
        threads_after_all(
            threads,
            stop_plan(state, user) + start_plan(folders, scan_on_startup, live_scan),
        ).debounce <= 1,
        threads_after_all(
            threads,
            stop_plan(state, user) + start_plan(folders, scan_on_startup, live_scan),
        ).retry <= 1,
{
    lemma_threads_after_start(threads, folders, scan_on_startup, live_scan);
    lemma_threads_after_stop(threads, state, user);
    lemma_threads_after_concat(
        threads,
        stop_plan(state, user),
        start_plan(folders, scan_on_startup, live_scan),
    );
    lemma_threads_after_start(
        threads_after_all(threads, stop_plan(state, user)),
        folders,
        scan_on_startup,
        live_scan,
    );
}

/// A session that is started and at once restarted, with folders configured
/// and live scanning on, is left with exactly one debounce loop and exactly
/// one retry loop, whatever state the restart found.
pub proof fn law_restart_leaves_one_loop_of_each_kind(
    state: WatcherStateView,
    user: Seq<char>,
    folders: nat,
    scan_on_startup: bool,
)
    requires
        folders > 0,
    ensures
        threads_after_all(
            threads_after_all(
                Threads { debounce: 0, retry: 0, batches: 0 },
                start_plan(folders, scan_on_startup, true),
            ),
            stop_plan(state, user) + start_plan(folders, scan_on_startup, true),
        ).debounce == 1,
        threads_after_all(
            threads_after_all(
                Threads { debounce: 0, retry: 0, batches: 0 },
                start_plan(folders, scan_on_startup, true),
            ),
            stop_plan(state, user) + start_plan(folders, scan_on_startup, true),
        ).retry == 1,
{
    let zero = Threads { debounce: 0, retry: 0, batches: 0 };
    let started = threads_after_all(zero, start_plan(folders, scan_on_startup, true));
    lemma_threads_after_start(zero, folders, scan_on_startup, true);
    lemma_threads_after_stop(started, state, user);
    lemma_threads_after_concat(
        started,
        stop_plan(state, user),
        start_plan(folders, scan_on_startup, true),
    );
    lemma_threads_after_start(
        threads_after_all(started, stop_plan(state, user)),
        folders,
        scan_on_startup,
        true,
    );
}

} // verus!
