//! Conversion history: the list of finished jobs, newest first, with
//! archive (soft delete), restore and purge; and the timestamps it records.

use vstd::prelude::*;

use crate::paths::{ext_of, path_extension};
use crate::text::{dec, push_dec, string_of};

verus! {

#[derive(Debug, Clone)]
pub struct HistoryEntry {
    pub id: u64,
    pub source: String,
    pub output: String,
    pub target: String,
    pub when: String,
    /// Soft-deleted entries live in the archive view until restored or purged.
    pub archived: bool,
    pub archived_at: Option<String>,
}

/// A history entry as plain values.
pub struct EntryView {
    pub id: u64,
    pub source: Seq<char>,
    pub output: Seq<char>,
    pub target: Seq<char>,
    pub when: Seq<char>,
    pub archived: bool,
    pub archived_at: Option<Seq<char>>,
}

impl DeepView for HistoryEntry {
    type V = EntryView;

    open spec fn deep_view(&self) -> EntryView {
        EntryView {
            id: self.id,
            source: self.source@,
            output: self.output@,
            target: self.target@,
            when: self.when@,
            archived: self.archived,
            archived_at: self.archived_at.deep_view(),
        }
    }
}

impl HistoryEntry {
    /// A copy of an entry.
    pub fn copy(&self) -> (r: HistoryEntry)
        ensures
            r.deep_view() == self.deep_view(),
    {
        HistoryEntry {
            id: self.id,
            source: string_of(self.source.as_str()),
            output: string_of(self.output.as_str()),
            target: string_of(self.target.as_str()),
            when: string_of(self.when.as_str()),
            archived: self.archived,
            archived_at: match &self.archived_at {
                Some(a) => Some(string_of(a.as_str())),
                None => None,
            },
        }
    }
}

/// The largest id in the history (0 when empty).
pub open spec fn max_id(entries: Seq<EntryView>) -> nat
    decreases entries.len(),
{
    if entries.len() == 0 {
        0
    } else {
        let m = max_id(entries.drop_last());
        if entries.last().id > m { entries.last().id as nat } else { m }
    }
}

proof fn lemma_max_id(entries: Seq<EntryView>)
    ensures
        forall|k: int| 0 <= k < entries.len() ==> (#[trigger] entries[k]).id <= max_id(entries),
        entries.len() == 0 ==> max_id(entries) == 0,
        entries.len() > 0 ==> exists|k: int| 0 <= k < entries.len() && (#[trigger] entries[k]).id == max_id(entries),
    decreases entries.len(),
{
    if entries.len() > 0 {
        lemma_max_id(entries.drop_last());
        assert forall|k: int| 0 <= k < entries.len() implies (#[trigger] entries[k]).id <= max_id(entries) by {
            if k < entries.len() - 1 {
                assert(entries[k] == entries.drop_last()[k]);
            }
        }
        if entries.len() > 1 && entries.last().id <= max_id(entries.drop_last()) {
            let k = choose|k: int| 0 <= k < entries.len() - 1 && (#[trigger] entries.drop_last()[k]).id == max_id(entries.drop_last());
            assert(entries[k] == entries.drop_last()[k]);
        }
    }
}

/// The id a new entry gets: one more than the largest id so far.
pub fn next_history_id(entries: &Vec<HistoryEntry>) -> (r: u64)
    requires
        forall|k: int| 0 <= k < entries@.len() ==> (#[trigger] entries@[k]).id < u64::MAX,
    ensures
        r == max_id(entries.deep_view()) + 1,
        forall|k: int| 0 <= k < entries@.len() ==> (#[trigger] entries@[k]).id < r,
{
    let ghost all = entries.deep_view();
    let n = entries.len();
    let mut m: u64 = 0;
    let mut i: usize = 0;
    while i < n
        invariant
            n == entries@.len(),
            all == entries.deep_view(),
            forall|k: int| 0 <= k < entries@.len() ==> (#[trigger] entries@[k]).id < u64::MAX,
            i <= n,
            m == max_id(all.take(i as int)),
            m < u64::MAX,
        decreases n - i,
    {
        assert(all.take(i + 1).drop_last() =~= all.take(i as int));
        assert(all[i as int].id == entries@[i as int].id);
        if entries[i].id > m {
            m = entries[i].id;
        }
        i = i + 1;
    }
    assert(all.take(n as int) =~= all);
    proof {
        lemma_max_id(all);
        assert forall|k: int| 0 <= k < entries@.len() implies (#[trigger] entries@[k]).id < m + 1 by {
            assert(all[k].id == entries@[k].id);
        }
    }
    m + 1
}

/// A fresh entry for a finished output: its extension as the target, not
/// archived, no source recorded.
pub open spec fn fresh_entry(id: u64, output: Seq<char>, when: Seq<char>) -> EntryView {
    EntryView {
        id,
        source: Seq::empty(),
        output,
        target: match ext_of(output) {
            Some(e) => e,
            None => Seq::empty(),
        },
        when,
        archived: false,
        archived_at: None,
    }
}

pub fn new_history_entry(id: u64, output: &str, when: &str) -> (r: HistoryEntry)
    ensures
        r.deep_view() == fresh_entry(id, output@, when@),
{
    let target = match path_extension(output) {
        Some(e) => e,
        None => String::new(),
    };
    HistoryEntry {
        id,
        source: String::new(),
        output: string_of(output),
        target,
        when: string_of(when),
        archived: false,
        archived_at: None,
    }
}

/// Records a finished output at the front (the list is newest-first), with
/// an id above every id so far.
pub fn add_history(entries: &mut Vec<HistoryEntry>, output: &str, when: &str)
    requires
        forall|k: int| 0 <= k < old(entries)@.len() ==> (#[trigger] old(entries)@[k]).id < u64::MAX,
    ensures
        final(entries).deep_view() == seq![fresh_entry((max_id(old(entries).deep_view()) + 1) as u64, output@, when@)]
            + old(entries).deep_view(),
        forall|k: int| 0 <= k < old(entries)@.len() ==> (#[trigger] old(entries)@[k]).id < final(entries)@[0].id,
{
    let id = next_history_id(entries);
    let e = new_history_entry(id, output, when);
    entries.insert(0, e);
    assert(entries.deep_view() =~= seq![fresh_entry(id, output@, when@)] + old(entries).deep_view());
}

/// Index of the first entry with `id`.
pub open spec fn find_entry(entries: Seq<EntryView>, id: u64) -> Option<int>
    decreases entries.len(),
{
    if entries.len() == 0 {
        None
    } else if entries[0].id == id {
        Some(0)
    } else {
        match find_entry(entries.drop_first(), id) {
            Some(k) => Some(k + 1),
            None => None,
        }
    }
}

proof fn lemma_find_entry(entries: Seq<EntryView>, id: u64, i: int)
    requires
        0 <= i <= entries.len(),
        forall|k: int| 0 <= k < i ==> (#[trigger] entries[k]).id != id,
    ensures
        i < entries.len() && entries[i].id == id ==> find_entry(entries, id) == Some(i),
        i == entries.len() ==> find_entry(entries, id) is None,
    decreases i,
{
    if i > 0 {
        let t = entries.drop_first();
        assert forall|k: int| 0 <= k < i - 1 implies (#[trigger] t[k]).id != id by {
            assert(t[k] == entries[k + 1]);
        }
        if i < entries.len() {
            assert(t[i - 1] == entries[i]);
        }
        lemma_find_entry(t, id, i - 1);
    }
}

fn find_index(entries: &Vec<HistoryEntry>, id: u64) -> (r: Option<usize>)
    ensures
        r is Some ==> r->0 < entries@.len(),
        match find_entry(entries.deep_view(), id) {
            Some(k) => r is Some && r->0 as int == k,
            None => r is None,
        },
{
    let ghost all = entries.deep_view();
    let n = entries.len();
    let mut i: usize = 0;
    while i < n
        invariant
            n == all.len(),
            all == entries.deep_view(),
            i <= n,
            forall|k: int| 0 <= k < i ==> (#[trigger] all[k]).id != id,
        decreases n - i,
    {
        assert(all[i as int].id == entries@[i as int].id);
        if entries[i].id == id {
            proof {
                lemma_find_entry(all, id, i as int);
            }
            return Some(i);
        }
        i = i + 1;
    }
    proof {
        lemma_find_entry(all, id, n as int);
    }
    None
}

/// An entry moved to the archive at time `when`.
pub open spec fn archived_entry(e: EntryView, when: Seq<char>) -> EntryView {
    EntryView { archived: true, archived_at: Some(when), ..e }
}

/// An entry brought back from the archive.
pub open spec fn restored_entry(e: EntryView) -> EntryView {
    EntryView { archived: false, archived_at: None, ..e }
}

/// The history after archiving the first entry with `id`.
pub open spec fn archive_spec(h: Seq<EntryView>, id: u64, when: Seq<char>) -> Seq<EntryView> {
    match find_entry(h, id) {
        Some(k) => h.update(k, archived_entry(h[k], when)),
        None => h,
    }
}

/// The history after restoring the first entry with `id`.
pub open spec fn restore_spec(h: Seq<EntryView>, id: u64) -> Seq<EntryView> {
    match find_entry(h, id) {
        Some(k) => h.update(k, restored_entry(h[k])),
        None => h,
    }
}

/// Moves the first entry with `id` to the archive; false when there is none.
pub fn archive_history(entries: &mut Vec<HistoryEntry>, id: u64, when: &str) -> (found: bool)
    ensures
        found == find_entry(old(entries).deep_view(), id) is Some,
        final(entries).deep_view() == archive_spec(old(entries).deep_view(), id, when@),
{
    match find_index(entries, id) {
        Some(k) => {
            let mut e = entries[k].copy();
            e.archived = true;
            e.archived_at = Some(string_of(when));
            entries.set(k, e);
            assert(entries.deep_view() =~= old(entries).deep_view().update(k as int,
                archived_entry(old(entries).deep_view()[k as int], when@)));
            true
        },
        None => false,
    }
}

/// Brings the first entry with `id` back from the archive; false when there is none.
pub fn restore_history(entries: &mut Vec<HistoryEntry>, id: u64) -> (found: bool)
    ensures
        found == find_entry(old(entries).deep_view(), id) is Some,
        final(entries).deep_view() == restore_spec(old(entries).deep_view(), id),
{
    match find_index(entries, id) {
        Some(k) => {
            let mut e = entries[k].copy();
            e.archived = false;
            e.archived_at = None;
            entries.set(k, e);
            assert(entries.deep_view() =~= old(entries).deep_view().update(k as int,
                restored_entry(old(entries).deep_view()[k as int])));
            true
        },
        None => false,
    }
}

pub open spec fn other_id(id: u64) -> spec_fn(EntryView) -> bool {
    |e: EntryView| e.id != id
}

/// Second-stage delete: every entry with `id` is gone for good, the rest
/// keep their order. (The converted file itself is left alone.)
pub fn purge_history(entries: &mut Vec<HistoryEntry>, id: u64)
    ensures
        final(entries).deep_view() == old(entries).deep_view().filter(other_id(id)),
{
    let ghost all = entries.deep_view();
    let n = entries.len();
    let mut kept: Vec<HistoryEntry> = Vec::new();
    let mut i: usize = 0;
    while i < n
        invariant
            n == all.len(),
            all == entries.deep_view(),
            i <= n,
            kept.deep_view() == all.take(i as int).filter(other_id(id)),
        decreases n - i,
    {
        reveal_with_fuel(Seq::<_>::filter, 1);
        let ghost cur = all.take(i + 1);
        assert(cur.drop_last() =~= all.take(i as int));
        assert(cur.last() == entries@[i as int].deep_view());
        if entries[i].id != id {
            let ghost before = kept.deep_view();
            kept.push(entries[i].copy());
            assert(kept.deep_view() =~= before.push(cur.last()));
        }
        i = i + 1;
    }
    assert(all.take(n as int) =~= all);
    *entries = kept;
}

/// The order of the history file: oldest first (the list is newest-first).
pub fn history_file_order(entries: &Vec<HistoryEntry>) -> (r: Vec<HistoryEntry>)
    ensures
        r.deep_view() == entries.deep_view().reverse(),
{
    let n = entries.len();
    let mut out: Vec<HistoryEntry> = Vec::new();
    let mut i: usize = 0;
    while i < n
        invariant
            n == entries@.len(),
            i <= n,
            out.deep_view() == entries.deep_view().reverse().take(i as int),
        decreases n - i,
    {
        let ghost before = out.deep_view();
        assert(entries.deep_view().reverse()[i as int] == entries@[n - 1 - i].deep_view());
        let item = entries[n - 1 - i].copy();
        out.push(item);
        assert(out.deep_view() =~= before.push(entries@[n - 1 - i].deep_view()));
        assert(out.deep_view() =~= entries.deep_view().reverse().take(i + 1));
        i = i + 1;
    }
    assert(entries.deep_view().reverse().take(n as int) =~= entries.deep_view().reverse());
    out
}

/// The history list from the file's lines (oldest first): newest first.
pub fn history_from_file(lines: Vec<HistoryEntry>) -> (r: Vec<HistoryEntry>)
    ensures
        r.deep_view() == lines.deep_view().reverse(),
{
    history_file_order(&lines)
}

/// The message for an id with no entry.
pub fn missing_entry_message(id: u64) -> (r: String)
    ensures
        r@ == "no history entry #"@ + dec(id as nat),
{
    let mut s = string_of("no history entry #");
    push_dec(&mut s, id);
    s
}

} // verus!

verus! {

proof fn lemma_find_entry_found(h: Seq<EntryView>, id: u64)
    ensures
        find_entry(h, id) matches Some(k) ==> 0 <= k < h.len() && h[k].id == id
            && forall|j: int| 0 <= j < k ==> (#[trigger] h[j]).id != id,
        find_entry(h, id) is None ==> forall|j: int| 0 <= j < h.len() ==> (#[trigger] h[j]).id != id,
    decreases h.len(),
{
    if h.len() > 0 && h[0].id != id {
        let t = h.drop_first();
        lemma_find_entry_found(t, id);
        assert forall|j: int| 1 <= j < h.len() implies h[j] == t[j - 1] by {}
    }
}

proof fn lemma_find_entry_same_ids(h: Seq<EntryView>, g: Seq<EntryView>, id: u64)
    requires
        h.len() == g.len(),
        forall|j: int| 0 <= j < h.len() ==> (#[trigger] h[j]).id == g[j].id,
    ensures
        find_entry(h, id) == find_entry(g, id),
    decreases h.len(),
{
    if h.len() > 0 {
        let (t, u) = (h.drop_first(), g.drop_first());
        assert forall|j: int| 0 <= j < t.len() implies (#[trigger] t[j]).id == u[j].id by {
            assert(t[j] == h[j + 1] && u[j] == g[j + 1]);
        }
        lemma_find_entry_same_ids(t, u, id);
    }
}

/// Restoring an archived entry undoes archiving it: an entry that was not
/// archived comes back exactly as it was.
pub proof fn lemma_restore_undoes_archive(h: Seq<EntryView>, id: u64, when: Seq<char>)
    requires
        find_entry(h, id) matches Some(k) ==> !h[k].archived && h[k].archived_at is None,
    ensures
        restore_spec(archive_spec(h, id, when), id) == h,
{
    lemma_find_entry_found(h, id);
    let a = archive_spec(h, id, when);
    assert forall|j: int| 0 <= j < h.len() implies (#[trigger] h[j]).id == a[j].id by {}
    lemma_find_entry_same_ids(h, a, id);
    match find_entry(h, id) {
        Some(k) => {
            assert(restore_spec(a, id) =~= h);
        },
        None => {},
    }
}

/// Adding a finished output keeps the ids of the history distinct: the new
/// entry, first in the list, has an id above every id so far.
pub proof fn lemma_add_keeps_ids_distinct(h: Seq<EntryView>, output: Seq<char>, when: Seq<char>)
    requires
        forall|i: int, j: int| 0 <= i < j < h.len() ==> (#[trigger] h[i]).id != (#[trigger] h[j]).id,
        forall|k: int| 0 <= k < h.len() ==> (#[trigger] h[k]).id < u64::MAX,
    ensures
        ({
            let g = seq![fresh_entry((max_id(h) + 1) as u64, output, when)] + h;
            &&& g[0].id == max_id(h) + 1
            &&& forall|i: int, j: int| 0 <= i < j < g.len() ==> (#[trigger] g[i]).id != (#[trigger] g[j]).id
        }),
{
    lemma_max_id(h);
    let g = seq![fresh_entry((max_id(h) + 1) as u64, output, when)] + h;
    assert(max_id(h) < u64::MAX) by {
        if h.len() > 0 {
            let k = choose|k: int| 0 <= k < h.len() && (#[trigger] h[k]).id == max_id(h);
            assert(h[k].id < u64::MAX);
        }
    }
    assert forall|i: int, j: int| 0 <= i < j < g.len() implies (#[trigger] g[i]).id != (#[trigger] g[j]).id by {
        if i == 0 {
            assert(g[j] == h[j - 1]);
            assert(h[j - 1].id <= max_id(h));
        } else {
            assert(g[i] == h[i - 1]);
            assert(g[j] == h[j - 1]);
        }
    }
}

/// Archiving and then restoring an entry leaves the history as restoring it
/// alone would, whatever state the entry was in: the entry is live again
/// with no archive time, every other entry is untouched. Both steps find the
/// entry exactly when the history has one with the id.
pub proof fn lemma_archive_then_restore(h: Seq<EntryView>, id: u64, when: Seq<char>)
    ensures
        find_entry(archive_spec(h, id, when), id) == find_entry(h, id),
        restore_spec(archive_spec(h, id, when), id) == restore_spec(h, id),
{
    lemma_find_entry_found(h, id);
    let a = archive_spec(h, id, when);
    assert forall|j: int| 0 <= j < h.len() implies (#[trigger] h[j]).id == a[j].id by {}
    lemma_find_entry_same_ids(h, a, id);
    match find_entry(h, id) {
        Some(k) => {
            assert(restore_spec(a, id) =~= restore_spec(h, id));
        },
        None => {},
    }
}

/// Archiving marks the first entry with the id, and only that entry; the
/// list keeps its length and order.
pub proof fn lemma_archive_marks_entry(h: Seq<EntryView>, id: u64, when: Seq<char>)
    ensures
        archive_spec(h, id, when).len() == h.len(),
        find_entry(h, id) matches Some(k) ==> archive_spec(h, id, when)[k].archived
            && archive_spec(h, id, when)[k].archived_at == Some(when)
            && archive_spec(h, id, when)[k].id == id,
        forall|j: int| 0 <= j < h.len() && Some(j) != find_entry(h, id)
            ==> #[trigger] archive_spec(h, id, when)[j] == h[j],
{
    lemma_find_entry_found(h, id);
}

/// After a purge no entry has the id, and every other entry is still there.
pub proof fn lemma_purge_removes_only_id(h: Seq<EntryView>, id: u64)
    ensures
        forall|j: int| 0 <= j < h.filter(other_id(id)).len() ==> (#[trigger] h.filter(other_id(id))[j]).id != id,
        forall|j: int| 0 <= j < h.len() && h[j].id != id ==> h.filter(other_id(id)).contains(#[trigger] h[j]),
{
    assert forall|j: int| 0 <= j < h.filter(other_id(id)).len() implies (#[trigger] h.filter(other_id(id))[j]).id != id by {
        h.lemma_filter_pred(other_id(id), j);
    }
    assert forall|j: int| 0 <= j < h.len() && h[j].id != id implies h.filter(other_id(id)).contains(#[trigger] h[j]) by {
        h.lemma_filter_contains(other_id(id), j);
    }
}

/// Saving the history to its file and loading it back gives the same list.
pub proof fn lemma_file_roundtrip(h: Seq<EntryView>)
    ensures
        h.reverse().reverse() == h,
{
    assert(h.reverse().reverse() =~= h);
}

} // verus!
