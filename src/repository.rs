//! The persistence gateway: an in-memory store of trackers, lines and
//! duration segments with storage-assigned ids, soft deletion and
//! newest-first reads.
use vstd::prelude::*;

use crate::error::{AppError, EntityKind, Violation};
use crate::model::{TrackerEntry, TrackerEntryLine, TrackerEntryLineDuration};

verus! {

/// The three tables, each in creation order. Rows are never removed: deletion
/// only sets `is_deleted`.
#[verifier::ext_equal]
pub struct Tables {
    pub entries: Seq<TrackerEntry>,
    pub lines: Seq<TrackerEntryLine>,
    pub durations: Seq<TrackerEntryLineDuration>,
}

/// The elements of `s` that satisfy `keep`, the last one first.
pub open spec fn newest_first<A>(s: Seq<A>, keep: spec_fn(A) -> bool) -> Seq<A>
    decreases s.len(),
{
    if s.len() == 0 {
        Seq::empty()
    } else {
        let rest = newest_first(s.drop_first(), keep);
        if keep(s[0]) {
            rest.push(s[0])
        } else {
            rest
        }
    }
}

/// An element is listed by `newest_first` exactly when it stands in `s` and is kept.
pub proof fn lemma_newest_first_contains<A>(s: Seq<A>, keep: spec_fn(A) -> bool, x: A)
    ensures
        newest_first(s, keep).contains(x) <==> exists|k: int|
            0 <= k < s.len() && s[k] == x && keep(x),
    decreases s.len(),
{
    if s.len() > 0 {
        let t = s.drop_first();
        lemma_newest_first_contains(t, keep, x);
        let rest = newest_first(t, keep);
        if newest_first(s, keep).contains(x) {
            if rest.contains(x) {
                let k = choose|k: int| 0 <= k < t.len() && t[k] == x && keep(x);
                assert(s[k + 1] == x);
            } else {
                assert(keep(s[0]) && rest.push(s[0]).last() == s[0]);
                let j = choose|j: int| 0 <= j < rest.push(s[0]).len() && rest.push(s[0])[j] == x;
                assert(j == rest.len());
                assert(s[0] == x);
            }
        }
        if exists|k: int| 0 <= k < s.len() && s[k] == x && keep(x) {
            let k = choose|k: int| 0 <= k < s.len() && s[k] == x && keep(x);
            if k == 0 {
                assert(newest_first(s, keep) == rest.push(s[0]));
                assert(rest.push(s[0])[rest.len() as int] == x);
            } else {
                assert(t[k - 1] == x);
                let j = choose|j: int| 0 <= j < rest.len() && rest[j] == x;
                if keep(s[0]) {
                    assert(rest.push(s[0])[j] == x);
                }
            }
        }
    }
}

/// Nothing kept, nothing listed.
pub proof fn lemma_newest_first_none<A>(s: Seq<A>, keep: spec_fn(A) -> bool)
    requires
        forall|k: int| 0 <= k < s.len() ==> !keep(#[trigger] s[k]),
    ensures
        newest_first(s, keep) == Seq::<A>::empty(),
    decreases s.len(),
{
    if s.len() > 0 {
        let t = s.drop_first();
        assert forall|k: int| 0 <= k < t.len() implies !keep(#[trigger] t[k]) by {
            assert(t[k] == s[k + 1]);
        }
        lemma_newest_first_none(t, keep);
    }
}

/// Exactly one element kept: it is all that is listed.
pub proof fn lemma_newest_first_single<A>(s: Seq<A>, keep: spec_fn(A) -> bool, k: int)
    requires
        0 <= k < s.len(),
        keep(s[k]),
        forall|j: int| 0 <= j < s.len() && j != k ==> !keep(#[trigger] s[j]),
    ensures
        newest_first(s, keep) == seq![s[k]],
    decreases s.len(),
{
    let t = s.drop_first();
    if k == 0 {
        assert forall|j: int| 0 <= j < t.len() implies !keep(#[trigger] t[j]) by {
            assert(t[j] == s[j + 1]);
        }
        lemma_newest_first_none(t, keep);
        assert(Seq::<A>::empty().push(s[0]) =~= seq![s[0]]);
    } else {
        assert forall|j: int| 0 <= j < t.len() && j != k - 1 implies !keep(#[trigger] t[j]) by {
            assert(t[j] == s[j + 1]);
        }
        lemma_newest_first_single(t, keep, k - 1);
    }
}

/// Two sequences that keep the same positions, holding equal values there,
/// list the same.
pub proof fn lemma_newest_first_frame<A>(s1: Seq<A>, s2: Seq<A>, keep: spec_fn(A) -> bool)
    requires
        s1.len() == s2.len(),
        forall|k: int| 0 <= k < s1.len() ==> keep(#[trigger] s1[k]) == keep(s2[k]),
        forall|k: int| 0 <= k < s1.len() && keep(#[trigger] s1[k]) ==> s1[k] == s2[k],
    ensures
        newest_first(s1, keep) == newest_first(s2, keep),
    decreases s1.len(),
{
    if s1.len() > 0 {
        let t1 = s1.drop_first();
        let t2 = s2.drop_first();
        assert forall|k: int| 0 <= k < t1.len() implies keep(#[trigger] t1[k]) == keep(t2[k]) by {
            assert(t1[k] == s1[k + 1] && t2[k] == s2[k + 1]);
        }
        assert forall|k: int| 0 <= k < t1.len() && keep(#[trigger] t1[k]) implies t1[k] == t2[k] by {
            assert(t1[k] == s1[k + 1] && t2[k] == s2[k + 1]);
        }
        lemma_newest_first_frame(t1, t2, keep);
        assert(keep(s1[0]) == keep(s2[0]));
    }
}

/// Listing newest first turns an ascending `key` into a descending one.
pub proof fn lemma_newest_first_descends<A>(
    s: Seq<A>,
    keep: spec_fn(A) -> bool,
    key: spec_fn(A) -> int,
)
    requires
        forall|i: int, j: int| 0 <= i < j < s.len() ==> key(#[trigger] s[i]) <= key(#[trigger] s[j]),
    ensures
        forall|i: int, j: int|
            0 <= i < j < newest_first(s, keep).len() ==> key(#[trigger] newest_first(s, keep)[i])
                >= key(#[trigger] newest_first(s, keep)[j]),
    decreases s.len(),
{
    if s.len() > 0 {
        let t = s.drop_first();
        assert forall|i: int, j: int| 0 <= i < j < t.len() implies key(#[trigger] t[i]) <= key(
            #[trigger] t[j],
        ) by {
            assert(t[i] == s[i + 1] && t[j] == s[j + 1]);
        }
        lemma_newest_first_descends(t, keep, key);
        let rest = newest_first(t, keep);
        if keep(s[0]) {
            let r = rest.push(s[0]);
            assert forall|i: int, j: int| 0 <= i < j < r.len() implies key(#[trigger] r[i]) >= key(
                #[trigger] r[j],
            ) by {
                if j == rest.len() {
                    assert(rest.contains(rest[i]));
                    lemma_newest_first_contains(t, keep, rest[i]);
                    let k = choose|k: int| 0 <= k < t.len() && t[k] == rest[i] && keep(rest[i]);
                    assert(t[k] == s[k + 1]);
                } else {
                    assert(r[i] == rest[i] && r[j] == rest[j]);
                }
            }
        }
    }
}

/// Listing newest first turns a strictly ascending `key` into a strictly descending one.
pub proof fn lemma_newest_first_strictly_descends<A>(
    s: Seq<A>,
    keep: spec_fn(A) -> bool,
    key: spec_fn(A) -> int,
)
    requires
        forall|i: int, j: int| 0 <= i < j < s.len() ==> key(#[trigger] s[i]) < key(#[trigger] s[j]),
    ensures
        forall|i: int, j: int|
            0 <= i < j < newest_first(s, keep).len() ==> key(#[trigger] newest_first(s, keep)[i])
                > key(#[trigger] newest_first(s, keep)[j]),
    decreases s.len(),
{
    if s.len() > 0 {
        let t = s.drop_first();
        assert forall|i: int, j: int| 0 <= i < j < t.len() implies key(#[trigger] t[i]) < key(
            #[trigger] t[j],
        ) by {
            assert(t[i] == s[i + 1] && t[j] == s[j + 1]);
        }
        lemma_newest_first_strictly_descends(t, keep, key);
        let rest = newest_first(t, keep);
        if keep(s[0]) {
            let r = rest.push(s[0]);
            assert forall|i: int, j: int| 0 <= i < j < r.len() implies key(#[trigger] r[i]) > key(
                #[trigger] r[j],
            ) by {
                if j == rest.len() {
                    assert(rest.contains(rest[i]));
                    lemma_newest_first_contains(t, keep, rest[i]);
                    let k = choose|k: int| 0 <= k < t.len() && t[k] == rest[i] && keep(rest[i]);
                    assert(t[k] == s[k + 1]);
                } else {
                    assert(r[i] == rest[i] && r[j] == rest[j]);
                }
            }
        }
    }
}

/// The live trackers of `s`, the last created first.
pub open spec fn live_entries_newest_first(s: Seq<TrackerEntry>) -> Seq<TrackerEntry> {
    newest_first(s, |e: TrackerEntry| !e.is_deleted)
}

/// The live lines of `s`, the last created first.
pub open spec fn live_lines_newest_first(s: Seq<TrackerEntryLine>) -> Seq<TrackerEntryLine> {
    newest_first(s, |l: TrackerEntryLine| !l.is_deleted)
}

/// `l` is a live line of tracker `entry_id`.
pub open spec fn is_line_of_entry(l: TrackerEntryLine, entry_id: i64) -> bool {
    !l.is_deleted && l.entry_id == entry_id
}

/// The live lines of `s` under tracker `entry_id`, the last created first.
pub open spec fn entry_lines_newest_first(s: Seq<TrackerEntryLine>, entry_id: i64) -> Seq<
    TrackerEntryLine,
> {
    newest_first(s, |l: TrackerEntryLine| is_line_of_entry(l, entry_id))
}

/// `d` is a live segment of line `line_id`.
pub open spec fn is_segment_of(d: TrackerEntryLineDuration, line_id: i64) -> bool {
    !d.is_deleted && d.entry_line_id == line_id
}

/// The live segments of `s` that belong to line `line_id`, the last started first.
pub open spec fn segments_newest_first(s: Seq<TrackerEntryLineDuration>, line_id: i64) -> Seq<
    TrackerEntryLineDuration,
> {
    newest_first(s, |d: TrackerEntryLineDuration| is_segment_of(d, line_id))
}

/// `e` marked deleted.
pub open spec fn deleted_entry(e: TrackerEntry) -> TrackerEntry {
    TrackerEntry {
        id: e.id,
        label: e.label,
        created_at: e.created_at,
        updated_at: e.updated_at,
        is_deleted: true,
    }
}

/// `l` marked deleted.
pub open spec fn deleted_line(l: TrackerEntryLine) -> TrackerEntryLine {
    TrackerEntryLine {
        id: l.id,
        entry_id: l.entry_id,
        desc: l.desc,
        started_at: l.started_at,
        ended_at: l.ended_at,
        created_at: l.created_at,
        updated_at: l.updated_at,
        is_deleted: true,
    }
}

/// `d` marked deleted.
pub open spec fn deleted_duration(d: TrackerEntryLineDuration) -> TrackerEntryLineDuration {
    TrackerEntryLineDuration {
        id: d.id,
        entry_line_id: d.entry_line_id,
        started_at: d.started_at,
        ended_at: d.ended_at,
        created_at: d.created_at,
        updated_at: d.updated_at,
        is_deleted: true,
    }
}

/// `e` with the row id `id`.
pub open spec fn entry_with_id(e: TrackerEntry, id: i64) -> TrackerEntry {
    TrackerEntry {
        id,
        label: e.label,
        created_at: e.created_at,
        updated_at: e.updated_at,
        is_deleted: e.is_deleted,
    }
}

/// `l` with the row id `id`.
pub open spec fn line_with_id(l: TrackerEntryLine, id: i64) -> TrackerEntryLine {
    TrackerEntryLine {
        id,
        entry_id: l.entry_id,
        desc: l.desc,
        started_at: l.started_at,
        ended_at: l.ended_at,
        created_at: l.created_at,
        updated_at: l.updated_at,
        is_deleted: l.is_deleted,
    }
}

/// `d` with the row id `id`.
pub open spec fn duration_with_id(d: TrackerEntryLineDuration, id: i64) -> TrackerEntryLineDuration {
    TrackerEntryLineDuration {
        id,
        entry_line_id: d.entry_line_id,
        started_at: d.started_at,
        ended_at: d.ended_at,
        created_at: d.created_at,
        updated_at: d.updated_at,
        is_deleted: d.is_deleted,
    }
}

/// The stored tracker `old` after an update that carries `e`: label and `updated_at` change.
pub open spec fn relabeled_entry(old: TrackerEntry, e: TrackerEntry) -> TrackerEntry {
    TrackerEntry {
        id: old.id,
        label: e.label,
        created_at: old.created_at,
        updated_at: e.updated_at,
        is_deleted: old.is_deleted,
    }
}

/// The stored line `old` after an update that carries `l`: description and `updated_at` change.
pub open spec fn redescribed_line(old: TrackerEntryLine, l: TrackerEntryLine) -> TrackerEntryLine {
    TrackerEntryLine {
        id: old.id,
        entry_id: old.entry_id,
        desc: l.desc,
        started_at: old.started_at,
        ended_at: old.ended_at,
        created_at: old.created_at,
        updated_at: l.updated_at,
        is_deleted: old.is_deleted,
    }
}

/// The stored segment `old` after an update that carries `d`: its start, end and
/// `updated_at` change.
pub open spec fn retimed_duration(
    old: TrackerEntryLineDuration,
    d: TrackerEntryLineDuration,
) -> TrackerEntryLineDuration {
    TrackerEntryLineDuration {
        id: old.id,
        entry_line_id: old.entry_line_id,
        started_at: d.started_at,
        ended_at: d.ended_at,
        created_at: old.created_at,
        updated_at: d.updated_at,
        is_deleted: old.is_deleted,
    }
}

/// The segments of `s` are stored in `started_at` order.
pub open spec fn starts_ordered(s: Seq<TrackerEntryLineDuration>) -> bool {
    forall|i: int, j: int|
        0 <= i < j < s.len() ==> (#[trigger] s[i]).started_at <= (#[trigger] s[j]).started_at
}

/// A segment starting at `t` would be stored before a later-starting one.
pub open spec fn starts_before_latest(s: Seq<TrackerEntryLineDuration>, t: i64) -> bool {
    s.len() > 0 && t < s.last().started_at
}

/// Position `k` of `s` may take the start `t` and keep `s` in `started_at` order.
pub open spec fn start_fits(s: Seq<TrackerEntryLineDuration>, k: int, t: i64) -> bool {
    &&& (k == 0 || s[k - 1].started_at <= t)
    &&& (k == s.len() - 1 || t <= s[k + 1].started_at)
}

impl Tables {
    /// Three empty tables.
    pub open spec fn empty() -> Tables {
        Tables { entries: Seq::empty(), lines: Seq::empty(), durations: Seq::empty() }
    }

    /// These tables with the trackers replaced by `entries`.
    pub open spec fn with_entries(self, entries: Seq<TrackerEntry>) -> Tables {
        Tables { entries, lines: self.lines, durations: self.durations }
    }

    /// These tables with the lines replaced by `lines`.
    pub open spec fn with_lines(self, lines: Seq<TrackerEntryLine>) -> Tables {
        Tables { entries: self.entries, lines, durations: self.durations }
    }

    /// These tables with the segments replaced by `durations`.
    pub open spec fn with_durations(self, durations: Seq<TrackerEntryLineDuration>) -> Tables {
        Tables { entries: self.entries, lines: self.lines, durations }
    }

    /// Ids are handed out as 1, 2, 3, ... in creation order, so the row with
    /// id `k` sits at position `k - 1`.
    pub open spec fn ids_dense(self) -> bool {
        &&& self.entries.len() <= i64::MAX
        &&& self.lines.len() <= i64::MAX
        &&& self.durations.len() <= i64::MAX
        &&& forall|i: int| 0 <= i < self.entries.len() ==> #[trigger] self.entries[i].id == i + 1
        &&& forall|i: int| 0 <= i < self.lines.len() ==> #[trigger] self.lines[i].id == i + 1
        &&& forall|i: int|
            0 <= i < self.durations.len() ==> #[trigger] self.durations[i].id == i + 1
    }

    /// The tracker row with id `id`, deleted or not.
    pub open spec fn entry_row(self, id: i64) -> Option<TrackerEntry> {
        if 1 <= id <= self.entries.len() {
            Some(self.entries[id - 1])
        } else {
            None
        }
    }

    /// The line row with id `id`, deleted or not.
    pub open spec fn line_row(self, id: i64) -> Option<TrackerEntryLine> {
        if 1 <= id <= self.lines.len() {
            Some(self.lines[id - 1])
        } else {
            None
        }
    }

    /// The segment row with id `id`, deleted or not.
    pub open spec fn duration_row(self, id: i64) -> Option<TrackerEntryLineDuration> {
        if 1 <= id <= self.durations.len() {
            Some(self.durations[id - 1])
        } else {
            None
        }
    }

    /// The tracker with id `id`, unless there is none or it is deleted.
    pub open spec fn live_entry(self, id: i64) -> Option<TrackerEntry> {
        if 1 <= id <= self.entries.len() && !self.entries[id - 1].is_deleted {
            Some(self.entries[id - 1])
        } else {
            None
        }
    }

    /// The line with id `id`, unless there is none or it is deleted.
    pub open spec fn live_line(self, id: i64) -> Option<TrackerEntryLine> {
        if 1 <= id <= self.lines.len() && !self.lines[id - 1].is_deleted {
            Some(self.lines[id - 1])
        } else {
            None
        }
    }

    /// The segments after soft-deleting every live segment of line `line_id`.
    pub open spec fn durations_deleted_for_line(self, line_id: i64) -> Seq<TrackerEntryLineDuration> {
        Seq::new(
            self.durations.len(),
            |k: int|
                if is_segment_of(self.durations[k], line_id) {
                    deleted_duration(self.durations[k])
                } else {
                    self.durations[k]
                },
        )
    }

    /// The segments after soft-deleting every live segment of a live line of
    /// tracker `entry_id`.
    pub open spec fn durations_deleted_for_entry(self, entry_id: i64) -> Seq<
        TrackerEntryLineDuration,
    > {
        Seq::new(
            self.durations.len(),
            |k: int|
                if !self.durations[k].is_deleted && self.live_line(
                    self.durations[k].entry_line_id,
                ) is Some && self.lines[self.durations[k].entry_line_id - 1].entry_id == entry_id {
                    deleted_duration(self.durations[k])
                } else {
                    self.durations[k]
                },
        )
    }

    /// The lines after soft-deleting every live line of tracker `entry_id`.
    pub open spec fn lines_deleted_for_entry(self, entry_id: i64) -> Seq<TrackerEntryLine> {
        Seq::new(
            self.lines.len(),
            |i: int|
                if self.lines[i].entry_id == entry_id && !self.lines[i].is_deleted {
                    deleted_line(self.lines[i])
                } else {
                    self.lines[i]
                },
        )
    }
}

/// The in-memory persistence gateway.
pub struct TrackerRepository {
    entries: Vec<TrackerEntry>,
    lines: Vec<TrackerEntryLine>,
    durations: Vec<TrackerEntryLineDuration>,
}

impl View for TrackerRepository {
    type V = Tables;

    closed spec fn view(&self) -> Tables {
        Tables { entries: self.entries@, lines: self.lines@, durations: self.durations@ }
    }
}

impl TrackerRepository {
    /// The store keeps its ids dense and its segments in `started_at` order.
    pub open spec fn wf(&self) -> bool {
        &&& self@.ids_dense()
        &&& starts_ordered(self@.durations)
    }

    /// An empty store.
    pub fn new() -> (r: Self)
        ensures
            r.wf(),
            r@ == Tables::empty(),
    {
        let r = TrackerRepository { entries: Vec::new(), lines: Vec::new(), durations: Vec::new() };
        assert(r@ =~= Tables::empty());
        r
    }

    /// A store holding the given rows, each table in id order; `None` unless the
    /// ids of each table are exactly 1, 2, 3, ... and the segments are in
    /// `started_at` order.
    pub fn from_rows(
        entries: Vec<TrackerEntry>,
        lines: Vec<TrackerEntryLine>,
        durations: Vec<TrackerEntryLineDuration>,
    ) -> (r: Option<Self>)
        ensures
            r is Some <==> (Tables {
                entries: entries@,
                lines: lines@,
                durations: durations@,
            }).ids_dense() && starts_ordered(durations@),
            r matches Some(repo) ==> repo.wf() && repo@ == (Tables {
                entries: entries@,
                lines: lines@,
                durations: durations@,
            }),
    {
        let ghost t = Tables { entries: entries@, lines: lines@, durations: durations@ };
        if entries.len() as u64 > i64::MAX as u64 || lines.len() as u64 > i64::MAX as u64
            || durations.len() as u64 > i64::MAX as u64 {
            return None;
        }
        let mut i: usize = 0;
        while i < entries.len()
            invariant
                i <= entries@.len() <= i64::MAX,
                forall|j: int| 0 <= j < i ==> #[trigger] entries@[j].id == j + 1,
            decreases entries@.len() - i,
        {
            if entries[i].id != i as i64 + 1 {
                return None;
            }
            i += 1;
        }
        let mut i: usize = 0;
        while i < lines.len()
            invariant
                i <= lines@.len() <= i64::MAX,
                forall|j: int| 0 <= j < i ==> #[trigger] lines@[j].id == j + 1,
            decreases lines@.len() - i,
        {
            if lines[i].id != i as i64 + 1 {
                return None;
            }
            i += 1;
        }
        let mut i: usize = 0;
        while i < durations.len()
            invariant
                i <= durations@.len() <= i64::MAX,
                forall|j: int| 0 <= j < i ==> #[trigger] durations@[j].id == j + 1,
                forall|a: int, b: int|
                    0 <= a < b < i ==> (#[trigger] durations@[a]).started_at <= (
                    #[trigger] durations@[b]).started_at,
            decreases durations@.len() - i,
        {
            if durations[i].id != i as i64 + 1 {
                return None;
            }
            if i > 0 && durations[i - 1].started_at > durations[i].started_at {
                return None;
            }
            i += 1;
        }
        let r = TrackerRepository { entries, lines, durations };
        assert(r@ =~= t);
        Some(r)
    }

    /// Stores `entry` under the next id and hands the stored row back.
    pub fn create_entry(&mut self, entry: TrackerEntry) -> (r: Result<TrackerEntry, AppError>)
        requires
            old(self).wf(),
        ensures
            final(self).wf(),
            old(self)@.entries.len() < i64::MAX ==> {
                let row = entry_with_id(entry, (old(self)@.entries.len() + 1) as i64);
                &&& r == Ok::<TrackerEntry, AppError>(row)
                &&& final(self)@ == old(self)@.with_entries(old(self)@.entries.push(row))
            },
            old(self)@.entries.len() >= i64::MAX ==> {
                &&& r == Err::<TrackerEntry, AppError>(AppError::StorageFailure(EntityKind::Entry))
                &&& final(self)@ == old(self)@
            },
    {
        if self.entries.len() as u64 >= i64::MAX as u64 {
            return Err(AppError::StorageFailure(EntityKind::Entry));
        }
        let id = self.entries.len() as i64 + 1;
        let row = TrackerEntry {
            id,
            label: entry.label,
            created_at: entry.created_at,
            updated_at: entry.updated_at,
            is_deleted: entry.is_deleted,
        };
        let out = row.copy();
        self.entries.push(row);
        assert(self@ =~= old(self)@.with_entries(old(self)@.entries.push(out)));
        Ok(out)
    }

    /// The live tracker with id `id`.
    pub fn get_entry(&self, id: i64) -> (r: Option<TrackerEntry>)
        requires
            self.wf(),
        ensures
            r == self@.live_entry(id),
    {
        if 1 <= id && id <= self.entries.len() as i64 {
            let e = &self.entries[(id - 1) as usize];
            if !e.is_deleted {
                return Some(e.copy());
            }
        }
        None
    }

    /// The tracker row with id `id`, deleted or not.
    pub fn find_entry_row(&self, id: i64) -> (r: Option<TrackerEntry>)
        requires
            self.wf(),
        ensures
            r == self@.entry_row(id),
    {
        if 1 <= id && id <= self.entries.len() as i64 {
            Some(self.entries[(id - 1) as usize].copy())
        } else {
            None
        }
    }

    /// Every live tracker, the last created first.
    pub fn get_all_entries(&self) -> (r: Vec<TrackerEntry>)
        requires
            self.wf(),
        ensures
            r@ == live_entries_newest_first(self@.entries),
    {
        let mut out: Vec<TrackerEntry> = Vec::new();
        let mut i: usize = self.entries.len();
        while i > 0
            invariant
                i <= self.entries@.len(),
                out@ == live_entries_newest_first(self.entries@.subrange(i as int, self.entries@.len() as int)),
            decreases i,
        {
            i -= 1;
            let ghost s = self.entries@.subrange(i as int, self.entries@.len() as int);
            assert(s.drop_first() =~= self.entries@.subrange(i + 1, self.entries@.len() as int));
            if !self.entries[i].is_deleted {
                out.push(self.entries[i].copy());
            }
        }
        assert(self.entries@.subrange(0, self.entries@.len() as int) =~= self.entries@);
        out
    }

    /// Sets the label and `updated_at` of the tracker row `entry.id` from `entry`.
    pub fn update_entry(&mut self, entry: &TrackerEntry) -> (r: Result<TrackerEntry, AppError>)
        requires
            old(self).wf(),
        ensures
            final(self).wf(),
            match old(self)@.entry_row(entry.id) {
                Some(row) => {
                    &&& r == Ok::<TrackerEntry, AppError>(relabeled_entry(row, *entry))
                    &&& final(self)@ == old(self)@.with_entries(
                        old(self)@.entries.update(entry.id - 1, relabeled_entry(row, *entry)),
                    )
                },
                None => {
                    &&& r == Err::<TrackerEntry, AppError>(AppError::NotFound(EntityKind::Entry, entry.id))
                    &&& final(self)@ == old(self)@
                },
            },
    {
        if entry.id < 1 || entry.id > self.entries.len() as i64 {
            return Err(AppError::NotFound(EntityKind::Entry, entry.id));
        }
        let idx = (entry.id - 1) as usize;
        self.entries[idx].label = entry.label.clone();
        self.entries[idx].updated_at = entry.updated_at;
        assert(self@ =~= old(self)@.with_entries(
            old(self)@.entries.update(entry.id - 1, relabeled_entry(old(self)@.entries[entry.id - 1], *entry)),
        ));
        Ok(self.entries[idx].copy())
    }

    /// Soft-deletes the tracker `entry.id` if it is live.
    pub fn delete_entry(&mut self, entry: &TrackerEntry) -> (r: Result<(), AppError>)
        requires
            old(self).wf(),
        ensures
            final(self).wf(),
            r is Ok,
            old(self)@.live_entry(entry.id) is Some ==> final(self)@ == old(self)@.with_entries(
                old(self)@.entries.update(entry.id - 1, deleted_entry(old(self)@.entries[entry.id - 1])),
            ),
            old(self)@.live_entry(entry.id) is None ==> final(self)@ == old(self)@,
    {
        if 1 <= entry.id && entry.id <= self.entries.len() as i64 {
            let idx = (entry.id - 1) as usize;
            if !self.entries[idx].is_deleted {
                self.entries[idx].is_deleted = true;
                assert(self@ =~= old(self)@.with_entries(
                    old(self)@.entries.update(entry.id - 1, deleted_entry(old(self)@.entries[entry.id - 1])),
                ));
            }
        }
        Ok(())
    }

    /// Stores `line` under the next id and hands the stored row back.
    pub fn create_entry_line(&mut self, line: TrackerEntryLine) -> (r: Result<
        TrackerEntryLine,
        AppError,
    >)
        requires
            old(self).wf(),
        ensures
            final(self).wf(),
            old(self)@.lines.len() < i64::MAX ==> {
                let row = line_with_id(line, (old(self)@.lines.len() + 1) as i64);
                &&& r == Ok::<TrackerEntryLine, AppError>(row)
                &&& final(self)@ == old(self)@.with_lines(old(self)@.lines.push(row))
            },
            old(self)@.lines.len() >= i64::MAX ==> {
                &&& r == Err::<TrackerEntryLine, AppError>(
                    AppError::StorageFailure(EntityKind::Line),
                )
                &&& final(self)@ == old(self)@
            },
    {
        if self.lines.len() as u64 >= i64::MAX as u64 {
            return Err(AppError::StorageFailure(EntityKind::Line));
        }
        let id = self.lines.len() as i64 + 1;
        let row = TrackerEntryLine {
            id,
            entry_id: line.entry_id,
            desc: line.desc,
            started_at: line.started_at,
            ended_at: line.ended_at,
            created_at: line.created_at,
            updated_at: line.updated_at,
            is_deleted: line.is_deleted,
        };
        let out = row.copy();
        self.lines.push(row);
        assert(self@ =~= old(self)@.with_lines(old(self)@.lines.push(out)));
        Ok(out)
    }

    /// The live line with id `id`.
    pub fn get_entry_line(&self, id: i64) -> (r: Option<TrackerEntryLine>)
        requires
            self.wf(),
        ensures
            r == self@.live_line(id),
    {
        if 1 <= id && id <= self.lines.len() as i64 {
            let l = &self.lines[(id - 1) as usize];
            if !l.is_deleted {
                return Some(l.copy());
            }
        }
        None
    }

    /// The line row with id `id`, deleted or not.
    pub fn find_line_row(&self, id: i64) -> (r: Option<TrackerEntryLine>)
        requires
            self.wf(),
        ensures
            r == self@.line_row(id),
    {
        if 1 <= id && id <= self.lines.len() as i64 {
            Some(self.lines[(id - 1) as usize].copy())
        } else {
            None
        }
    }

    /// Every live line, the last created first.
    pub fn get_all_entry_lines(&self) -> (r: Vec<TrackerEntryLine>)
        requires
            self.wf(),
        ensures
            r@ == live_lines_newest_first(self@.lines),
    {
        let mut out: Vec<TrackerEntryLine> = Vec::new();
        let mut i: usize = self.lines.len();
        while i > 0
            invariant
                i <= self.lines@.len(),
                out@ == live_lines_newest_first(
                    self.lines@.subrange(i as int, self.lines@.len() as int),
                ),
            decreases i,
        {
            i -= 1;
            let ghost s = self.lines@.subrange(i as int, self.lines@.len() as int);
            assert(s.drop_first() =~= self.lines@.subrange(i + 1, self.lines@.len() as int));
            if !self.lines[i].is_deleted {
                out.push(self.lines[i].copy());
            }
        }
        assert(self.lines@.subrange(0, self.lines@.len() as int) =~= self.lines@);
        out
    }

    /// The live lines of tracker `entry.id`, the last created first.
    pub fn get_lines_for_entry(&self, entry: &TrackerEntry) -> (r: Vec<TrackerEntryLine>)
        requires
            self.wf(),
        ensures
            r@ == entry_lines_newest_first(self@.lines, entry.id),
    {
        let mut out: Vec<TrackerEntryLine> = Vec::new();
        let mut i: usize = self.lines.len();
        while i > 0
            invariant
                i <= self.lines@.len(),
                out@ == entry_lines_newest_first(
                    self.lines@.subrange(i as int, self.lines@.len() as int),
                    entry.id,
                ),
            decreases i,
        {
            i -= 1;
            let ghost s = self.lines@.subrange(i as int, self.lines@.len() as int);
            assert(s.drop_first() =~= self.lines@.subrange(i + 1, self.lines@.len() as int));
            if !self.lines[i].is_deleted && self.lines[i].entry_id == entry.id {
                out.push(self.lines[i].copy());
            }
        }
        assert(self.lines@.subrange(0, self.lines@.len() as int) =~= self.lines@);
        out
    }

    /// Sets the description and `updated_at` of the line row `line.id` from `line`.
    pub fn update_entry_line(&mut self, line: &TrackerEntryLine) -> (r: Result<
        TrackerEntryLine,
        AppError,
    >)
        requires
            old(self).wf(),
        ensures
            final(self).wf(),
            match old(self)@.line_row(line.id) {
                Some(row) => {
                    &&& r == Ok::<TrackerEntryLine, AppError>(redescribed_line(row, *line))
                    &&& final(self)@ == old(self)@.with_lines(
                        old(self)@.lines.update(line.id - 1, redescribed_line(row, *line)),
                    )
                },
                None => {
                    &&& r == Err::<TrackerEntryLine, AppError>(
                        AppError::NotFound(EntityKind::Line, line.id),
                    )
                    &&& final(self)@ == old(self)@
                },
            },
    {
        if line.id < 1 || line.id > self.lines.len() as i64 {
            return Err(AppError::NotFound(EntityKind::Line, line.id));
        }
        let idx = (line.id - 1) as usize;
        self.lines[idx].desc = line.desc.clone();
        self.lines[idx].updated_at = line.updated_at;
        assert(self@ =~= old(self)@.with_lines(
            old(self)@.lines.update(line.id - 1, redescribed_line(old(self)@.lines[line.id - 1], *line)),
        ));
        Ok(self.lines[idx].copy())
    }

    /// Soft-deletes the line `line.id`, with its live segments, if it is live.
    pub fn delete_entry_line(&mut self, line: &TrackerEntryLine) -> (r: Result<(), AppError>)
        requires
            old(self).wf(),
        ensures
            final(self).wf(),
            r is Ok,
            old(self)@.live_line(line.id) is Some ==> final(self)@ == (Tables {
                entries: old(self)@.entries,
                lines: old(self)@.lines.update(
                    line.id - 1,
                    deleted_line(old(self)@.lines[line.id - 1]),
                ),
                durations: old(self)@.durations_deleted_for_line(line.id),
            }),
            old(self)@.live_line(line.id) is None ==> final(self)@ == old(self)@,
    {
        if line.id < 1 || line.id > self.lines.len() as i64 {
            return Ok(());
        }
        let idx = (line.id - 1) as usize;
        if self.lines[idx].is_deleted {
            return Ok(());
        }
        let ghost target = old(self)@.durations_deleted_for_line(line.id);
        let mut k: usize = 0;
        while k < self.durations.len()
            invariant
                self.wf(),
                k <= self.durations@.len(),
                self.durations@.len() == old(self)@.durations.len(),
                self.entries@ == old(self)@.entries,
                self.lines@ == old(self)@.lines,
                target == old(self)@.durations_deleted_for_line(line.id),
                forall|j: int| 0 <= j < k ==> #[trigger] self.durations@[j] == target[j],
                forall|j: int|
                    k <= j < self.durations@.len() ==> #[trigger] self.durations@[j]
                        == old(self)@.durations[j],
            decreases self.durations@.len() - k,
        {
            if self.durations[k].entry_line_id == line.id && !self.durations[k].is_deleted {
                self.durations[k].is_deleted = true;
            }
            k += 1;
        }
        self.lines[idx].is_deleted = true;
        assert(self@ =~= (Tables {
            entries: old(self)@.entries,
            lines: old(self)@.lines.update(line.id - 1, deleted_line(old(self)@.lines[line.id - 1])),
            durations: target,
        }));
        Ok(())
    }

    /// Soft-deletes every live line of tracker `entry.id`, with their live segments.
    pub fn delete_lines_for_entry(&mut self, entry: &TrackerEntry) -> (r: Result<(), AppError>)
        requires
            old(self).wf(),
        ensures
            final(self).wf(),
            r is Ok,
            final(self)@ == (Tables {
                entries: old(self)@.entries,
                lines: old(self)@.lines_deleted_for_entry(entry.id),
                durations: old(self)@.durations_deleted_for_entry(entry.id),
            }),
    {
        let ghost dtarget = old(self)@.durations_deleted_for_entry(entry.id);
        let mut k: usize = 0;
        while k < self.durations.len()
            invariant
                self.wf(),
                k <= self.durations@.len(),
                self.durations@.len() == old(self)@.durations.len(),
                self.entries@ == old(self)@.entries,
                self.lines@ == old(self)@.lines,
                dtarget == old(self)@.durations_deleted_for_entry(entry.id),
                forall|j: int| 0 <= j < k ==> #[trigger] self.durations@[j] == dtarget[j],
                forall|j: int|
                    k <= j < self.durations@.len() ==> #[trigger] self.durations@[j]
                        == old(self)@.durations[j],
            decreases self.durations@.len() - k,
        {
            let lid = self.durations[k].entry_line_id;
            if !self.durations[k].is_deleted && 1 <= lid && lid <= self.lines.len() as i64 {
                let l = (lid - 1) as usize;
                if !self.lines[l].is_deleted && self.lines[l].entry_id == entry.id {
                    self.durations[k].is_deleted = true;
                }
            }
            k += 1;
        }
        let ghost target = old(self)@.lines_deleted_for_entry(entry.id);
        let mut i: usize = 0;
        while i < self.lines.len()
            invariant
                self.wf(),
                i <= self.lines@.len(),
                self.lines@.len() == old(self)@.lines.len(),
                self.entries@ == old(self)@.entries,
                self.durations@ == dtarget,
                target == old(self)@.lines_deleted_for_entry(entry.id),
                forall|j: int| 0 <= j < i ==> #[trigger] self.lines@[j] == target[j],
                forall|j: int|
                    i <= j < self.lines@.len() ==> #[trigger] self.lines@[j] == old(self)@.lines[j],
            decreases self.lines@.len() - i,
        {
            if self.lines[i].entry_id == entry.id && !self.lines[i].is_deleted {
                self.lines[i].is_deleted = true;
            }
            i += 1;
        }
        assert(self@ =~= (Tables {
            entries: old(self)@.entries,
            lines: target,
            durations: dtarget,
        }));
        Ok(())
    }

    /// Stores `duration` under the next id and hands the stored row back.
    pub fn create_line_duration(&mut self, duration: TrackerEntryLineDuration) -> (r: Result<
        TrackerEntryLineDuration,
        AppError,
    >)
        requires
            old(self).wf(),
        ensures
            final(self).wf(),
            old(self)@.durations.len() < i64::MAX && !starts_before_latest(
                old(self)@.durations,
                duration.started_at,
            ) ==> {
                let row = duration_with_id(duration, (old(self)@.durations.len() + 1) as i64);
                &&& r == Ok::<TrackerEntryLineDuration, AppError>(row)
                &&& final(self)@ == old(self)@.with_durations(old(self)@.durations.push(row))
            },
            old(self)@.durations.len() >= i64::MAX ==> {
                &&& r == Err::<TrackerEntryLineDuration, AppError>(
                    AppError::StorageFailure(EntityKind::Duration),
                )
                &&& final(self)@ == old(self)@
            },
            old(self)@.durations.len() < i64::MAX && starts_before_latest(
                old(self)@.durations,
                duration.started_at,
            ) ==> {
                &&& r == Err::<TrackerEntryLineDuration, AppError>(
                    AppError::ValidationError(Violation::OutOfOrder, duration.entry_line_id),
                )
                &&& final(self)@ == old(self)@
            },
    {
        if self.durations.len() as u64 >= i64::MAX as u64 {
            return Err(AppError::StorageFailure(EntityKind::Duration));
        }
        let n = self.durations.len();
        if n > 0 && duration.started_at < self.durations[n - 1].started_at {
            return Err(AppError::ValidationError(Violation::OutOfOrder, duration.entry_line_id));
        }
        let id = self.durations.len() as i64 + 1;
        let row = TrackerEntryLineDuration {
            id,
            entry_line_id: duration.entry_line_id,
            started_at: duration.started_at,
            ended_at: duration.ended_at,
            created_at: duration.created_at,
            updated_at: duration.updated_at,
            is_deleted: duration.is_deleted,
        };
        self.durations.push(row);
        assert(self@ =~= old(self)@.with_durations(old(self)@.durations.push(row)));
        Ok(row)
    }

    /// The segment row with id `id`, deleted or not.
    pub fn find_duration_row(&self, id: i64) -> (r: Option<TrackerEntryLineDuration>)
        requires
            self.wf(),
        ensures
            r == self@.duration_row(id),
    {
        if 1 <= id && id <= self.durations.len() as i64 {
            Some(self.durations[(id - 1) as usize])
        } else {
            None
        }
    }

    /// The live segments of line `line.id`, the last started first.
    pub fn get_line_durations(&self, line: &TrackerEntryLine) -> (r: Vec<TrackerEntryLineDuration>)
        requires
            self.wf(),
        ensures
            r@ == segments_newest_first(self@.durations, line.id),
            forall|i: int, j: int|
                0 <= i < j < r@.len() ==> (#[trigger] r@[i]).started_at >= (#[trigger] r@[j]).started_at,
    {
        proof {
            lemma_newest_first_descends(
                self@.durations,
                |d: TrackerEntryLineDuration| is_segment_of(d, line.id),
                |d: TrackerEntryLineDuration| d.started_at as int,
            );
        }
        let mut out: Vec<TrackerEntryLineDuration> = Vec::new();
        let mut i: usize = self.durations.len();
        while i > 0
            invariant
                i <= self.durations@.len(),
                out@ == segments_newest_first(
                    self.durations@.subrange(i as int, self.durations@.len() as int),
                    line.id,
                ),
            decreases i,
        {
            i -= 1;
            let ghost s = self.durations@.subrange(i as int, self.durations@.len() as int);
            assert(s.drop_first() =~= self.durations@.subrange(i + 1, self.durations@.len() as int));
            if !self.durations[i].is_deleted && self.durations[i].entry_line_id == line.id {
                out.push(self.durations[i]);
            }
        }
        assert(self.durations@.subrange(0, self.durations@.len() as int) =~= self.durations@);
        out
    }

    /// Sets the start, end and `updated_at` of the segment row `duration.id` from `duration`.
    pub fn update_line_duration(&mut self, duration: &TrackerEntryLineDuration) -> (r: Result<
        TrackerEntryLineDuration,
        AppError,
    >)
        requires
            old(self).wf(),
        ensures
            final(self).wf(),
            match old(self)@.duration_row(duration.id) {
                Some(row) => if start_fits(old(self)@.durations, duration.id - 1, duration.started_at) {
                    &&& r == Ok::<TrackerEntryLineDuration, AppError>(
                        retimed_duration(row, *duration),
                    )
                    &&& final(self)@ == old(self)@.with_durations(
                        old(self)@.durations.update(duration.id - 1, retimed_duration(row, *duration)),
                    )
                } else {
                    &&& r == Err::<TrackerEntryLineDuration, AppError>(
                        AppError::ValidationError(Violation::OutOfOrder, row.entry_line_id),
                    )
                    &&& final(self)@ == old(self)@
                },
                None => {
                    &&& r == Err::<TrackerEntryLineDuration, AppError>(
                        AppError::NotFound(EntityKind::Duration, duration.id),
                    )
                    &&& final(self)@ == old(self)@
                },
            },
    {
        if duration.id < 1 || duration.id > self.durations.len() as i64 {
            return Err(AppError::NotFound(EntityKind::Duration, duration.id));
        }
        let idx = (duration.id - 1) as usize;
        let old_row = self.durations[idx];
        if (idx > 0 && self.durations[idx - 1].started_at > duration.started_at) || (idx + 1
            < self.durations.len() && duration.started_at > self.durations[idx + 1].started_at) {
            return Err(AppError::ValidationError(Violation::OutOfOrder, old_row.entry_line_id));
        }
        let row = TrackerEntryLineDuration {
            id: old_row.id,
            entry_line_id: old_row.entry_line_id,
            started_at: duration.started_at,
            ended_at: duration.ended_at,
            created_at: old_row.created_at,
            updated_at: duration.updated_at,
            is_deleted: old_row.is_deleted,
        };
        self.durations[idx] = row;
        assert(self@ =~= old(self)@.with_durations(
            old(self)@.durations.update(duration.id - 1, row),
        ));
        Ok(row)
    }

    /// Soft-deletes the segment `duration.id` if it is live.
    pub fn delete_line_duration(&mut self, duration: &TrackerEntryLineDuration) -> (r: Result<
        (),
        AppError,
    >)
        requires
            old(self).wf(),
        ensures
            final(self).wf(),
            r is Ok,
            match old(self)@.duration_row(duration.id) {
                Some(row) => final(self)@ == old(self)@.with_durations(
                    old(self)@.durations.update(
                        duration.id - 1,
                        if row.is_deleted { row } else { deleted_duration(row) },
                    ),
                ),
                None => final(self)@ == old(self)@,
            },
    {
        if 1 <= duration.id && duration.id <= self.durations.len() as i64 {
            let idx = (duration.id - 1) as usize;
            if !self.durations[idx].is_deleted {
                self.durations[idx].is_deleted = true;
            }
            assert(self@ =~= old(self)@.with_durations(
                old(self)@.durations.update(
                    duration.id - 1,
                    if old(self)@.durations[duration.id - 1].is_deleted {
                        old(self)@.durations[duration.id - 1]
                    } else {
                        deleted_duration(old(self)@.durations[duration.id - 1])
                    },
                ),
            ));
        }
        Ok(())
    }

    /// How many tracker rows are stored, deleted ones included.
    pub fn entry_count(&self) -> (r: usize)
        ensures
            r == self@.entries.len(),
    {
        self.entries.len()
    }

    /// How many line rows are stored, deleted ones included.
    pub fn line_count(&self) -> (r: usize)
        ensures
            r == self@.lines.len(),
    {
        self.lines.len()
    }

    /// How many segment rows are stored, deleted ones included.
    pub fn duration_count(&self) -> (r: usize)
        ensures
            r == self@.durations.len(),
    {
        self.durations.len()
    }
}

} // verus!
