//! The tracking session service: the rules by which lines and their duration
//! segments are created, closed and resumed, over the persistence gateway.
use vstd::prelude::*;

use crate::dto::{
    duration_view, duration_views, entry_view, entry_views, shows_line, TrackerEntryCreateDto,
    TrackerEntryDeleteDto, TrackerEntryLineCreateDto, TrackerEntryLineDeleteDto,
    TrackerEntryLineDurationViewDto, TrackerEntryLineUpdateDto, TrackerEntryLineViewDto,
    TrackerEntryUpdateDto, TrackerEntryViewDto,
};
use crate::error::{AppError, EntityKind, Violation};
use crate::model::{TrackerEntry, TrackerEntryLine, TrackerEntryLineDuration};
use crate::repository::{
    deleted_entry, deleted_line, is_segment_of, lemma_newest_first_contains,
    lemma_newest_first_descends, lemma_newest_first_frame, live_entries_newest_first,
    live_lines_newest_first, newest_first, segments_newest_first, Tables, TrackerRepository,
};

verus! {

/// What the service holds: the stored tables and the latest time it has used.
#[verifier::ext_equal]
pub struct SessionState {
    pub tables: Tables,
    pub clock: i64,
}

/// The time an operation runs at: the reading `now`, but never before `clock`.
pub open spec fn later(clock: i64, now: i64) -> i64 {
    if now > clock {
        now
    } else {
        clock
    }
}

/// `d` is a live segment of line `line_id` that is still running.
pub open spec fn is_running_segment_of(d: TrackerEntryLineDuration, line_id: i64) -> bool {
    is_segment_of(d, line_id) && d.ended_at is None
}

/// Line `line_id` has a live segment that is still running.
pub open spec fn has_running_segment(s: Seq<TrackerEntryLineDuration>, line_id: i64) -> bool {
    exists|k: int| 0 <= k < s.len() && is_running_segment_of(#[trigger] s[k], line_id)
}

/// No line has two live running segments.
pub open spec fn running_segments_unique(s: Seq<TrackerEntryLineDuration>) -> bool {
    forall|k1: int, k2: int|
        0 <= k1 < s.len() && 0 <= k2 < s.len() && is_running_segment_of(
            #[trigger] s[k1],
            s[k1].entry_line_id,
        ) && is_running_segment_of(#[trigger] s[k2], s[k1].entry_line_id) ==> k1 == k2
}

/// How many live running segments line `line_id` has.
pub open spec fn running_segment_count(s: Seq<TrackerEntryLineDuration>, line_id: i64) -> nat
    decreases s.len(),
{
    if s.len() == 0 {
        0
    } else {
        running_segment_count(s.drop_first(), line_id) + if is_running_segment_of(
            s[0],
            line_id,
        ) {
            1nat
        } else {
            0nat
        }
    }
}

/// The tracker row that creating `label` at time `t` stores under `id`.
pub open spec fn new_entry_row(id: i64, label: String, t: i64) -> TrackerEntry {
    TrackerEntry { id, label, created_at: t, updated_at: t, is_deleted: false }
}

/// The line row that starting `desc` under `entry_id` at time `t` stores under `id`.
pub open spec fn new_line_row(id: i64, entry_id: i64, desc: String, t: i64) -> TrackerEntryLine {
    TrackerEntryLine {
        id,
        entry_id,
        desc,
        started_at: t,
        ended_at: None,
        created_at: t,
        updated_at: t,
        is_deleted: false,
    }
}

/// The running segment row that time `t` opens on line `line_id`, stored under `id`.
pub open spec fn new_segment_row(id: i64, line_id: i64, t: i64) -> TrackerEntryLineDuration {
    TrackerEntryLineDuration {
        id,
        entry_line_id: line_id,
        started_at: t,
        ended_at: None,
        created_at: t,
        updated_at: t,
        is_deleted: false,
    }
}

/// `d` closed at time `t`.
pub open spec fn closed_segment(d: TrackerEntryLineDuration, t: i64) -> TrackerEntryLineDuration {
    TrackerEntryLineDuration {
        id: d.id,
        entry_line_id: d.entry_line_id,
        started_at: d.started_at,
        ended_at: Some(t),
        created_at: d.created_at,
        updated_at: t,
        is_deleted: d.is_deleted,
    }
}

/// `e` with label `label`, edited at time `t`.
pub open spec fn entry_with_label(e: TrackerEntry, label: String, t: i64) -> TrackerEntry {
    TrackerEntry {
        id: e.id,
        label,
        created_at: e.created_at,
        updated_at: t,
        is_deleted: e.is_deleted,
    }
}

/// `l` with description `desc`, edited at time `t`.
pub open spec fn line_with_desc(l: TrackerEntryLine, desc: String, t: i64) -> TrackerEntryLine {
    TrackerEntryLine {
        id: l.id,
        entry_id: l.entry_id,
        desc,
        started_at: l.started_at,
        ended_at: l.ended_at,
        created_at: l.created_at,
        updated_at: t,
        is_deleted: l.is_deleted,
    }
}

/// The segments `s` after closing, at time `t`, every running segment of line `line_id`.
pub open spec fn close_running_segments(
    s: Seq<TrackerEntryLineDuration>,
    line_id: i64,
    t: i64,
) -> Seq<TrackerEntryLineDuration> {
    Seq::new(
        s.len(),
        |k: int|
            if is_running_segment_of(s[k], line_id) {
                closed_segment(s[k], t)
            } else {
                s[k]
            },
    )
}

/// `v` lists the lines `ls`, each with its live segments in `t`, newest first.
pub open spec fn shows_lines(v: Seq<TrackerEntryLineViewDto>, ls: Seq<TrackerEntryLine>, t: Tables) -> bool {
    &&& v.len() == ls.len()
    &&& forall|j: int|
        0 <= j < v.len() ==> shows_line(
            #[trigger] v[j],
            ls[j],
            segments_newest_first(t.durations, ls[j].id),
        )
}

/// The live lines of `t` that have a running segment, newest first.
pub open spec fn running_lines(t: Tables) -> Seq<TrackerEntryLine> {
    newest_first(t.lines, |l: TrackerEntryLine| !l.is_deleted && has_running_segment(t.durations, l.id))
}

/// The segments of `t` after closing, at time `at`, the running segments of every
/// live line whose id is above `above`.
spec fn close_running_above(t: Tables, above: int, at: i64) -> Seq<TrackerEntryLineDuration> {
    Seq::new(
        t.durations.len(),
        |k: int|
            if is_running_segment_of(t.durations[k], t.durations[k].entry_line_id) && t.live_line(
                t.durations[k].entry_line_id,
            ) is Some && t.durations[k].entry_line_id > above {
                closed_segment(t.durations[k], at)
            } else {
                t.durations[k]
            },
    )
}

/// The segments of `t` after closing, at time `at`, the running segment of every live line.
pub open spec fn close_all_running(t: Tables, at: i64) -> Seq<TrackerEntryLineDuration> {
    Seq::new(
        t.durations.len(),
        |k: int|
            if is_running_segment_of(t.durations[k], t.durations[k].entry_line_id) && t.live_line(
                t.durations[k].entry_line_id,
            ) is Some {
                closed_segment(t.durations[k], at)
            } else {
                t.durations[k]
            },
    )
}

/// Rows are stored in the order of their timestamps: trackers and lines by
/// `created_at`, segments by `started_at`.
pub open spec fn in_time_order(t: Tables) -> bool {
    &&& forall|i: int, j: int|
        0 <= i < j < t.entries.len() ==> (#[trigger] t.entries[i]).created_at
            <= (#[trigger] t.entries[j]).created_at
    &&& forall|i: int, j: int|
        0 <= i < j < t.lines.len() ==> (#[trigger] t.lines[i]).created_at
            <= (#[trigger] t.lines[j]).created_at
    &&& forall|i: int, j: int|
        0 <= i < j < t.durations.len() ==> (#[trigger] t.durations[i]).started_at
            <= (#[trigger] t.durations[j]).started_at
}

/// No creation time, segment start or segment end lies after `clock`.
pub open spec fn not_after(t: Tables, clock: i64) -> bool {
    &&& forall|i: int| 0 <= i < t.entries.len() ==> (#[trigger] t.entries[i]).created_at <= clock
    &&& forall|i: int| 0 <= i < t.lines.len() ==> (#[trigger] t.lines[i]).created_at <= clock
    &&& forall|k: int| 0 <= k < t.durations.len() ==> (#[trigger] t.durations[k]).started_at <= clock
    &&& forall|k: int|
        0 <= k < t.durations.len() ==> match (#[trigger] t.durations[k]).ended_at {
            Some(e) => e <= clock,
            None => true,
        }
}

/// `c` is a creation time, a segment start or a segment end stored in `t`.
pub open spec fn is_stored_time(t: Tables, c: i64) -> bool {
    ||| exists|i: int| 0 <= i < t.entries.len() && (#[trigger] t.entries[i]).created_at == c
    ||| exists|i: int| 0 <= i < t.lines.len() && (#[trigger] t.lines[i]).created_at == c
    ||| exists|k: int| 0 <= k < t.durations.len() && (#[trigger] t.durations[k]).started_at == c
    ||| exists|k: int|
        0 <= k < t.durations.len() && (#[trigger] t.durations[k]).ended_at == Some(c)
}

/// Stored rows the service can take over: every segment belongs to a stored line,
/// none ends before it starts, and no line has two live running segments.
pub open spec fn rows_consistent(t: Tables) -> bool {
    &&& t.ids_dense()
    &&& running_segments_unique(t.durations)
    &&& forall|k: int|
        0 <= k < t.durations.len() ==> 1 <= (#[trigger] t.durations[k]).entry_line_id
            <= t.lines.len()
    &&& forall|k: int|
        0 <= k < t.durations.len() ==> match (#[trigger] t.durations[k]).ended_at {
            Some(e) => t.durations[k].started_at <= e,
            None => true,
        }
    &&& in_time_order(t)
}

impl SessionState {
    /// This state with its tables replaced by `tables`.
    pub open spec fn with_tables(self, tables: Tables) -> SessionState {
        SessionState { tables, clock: self.clock }
    }

    /// The state with its clock moved on to `later(clock, now)`.
    pub open spec fn advanced(self, now: i64) -> SessionState {
        SessionState { tables: self.tables, clock: later(self.clock, now) }
    }

    /// What holds of the state at every observation point.
    pub open spec fn inv(self) -> bool {
        let t = self.tables;
        &&& t.ids_dense()
        &&& running_segments_unique(t.durations)
        &&& forall|k: int|
            0 <= k < t.durations.len() ==> 1 <= (#[trigger] t.durations[k]).entry_line_id
                <= t.lines.len()
        &&& forall|k: int|
            0 <= k < t.durations.len() ==> match (#[trigger] t.durations[k]).ended_at {
                Some(e) => t.durations[k].started_at <= e,
                None => true,
            }
        &&& in_time_order(t)
        &&& not_after(t, self.clock)
    }

    /// The trackers a reader sees: the live ones, newest first.
    pub open spec fn trackers(self) -> Seq<TrackerEntryViewDto> {
        entry_views(live_entries_newest_first(self.tables.entries))
    }

    /// The lines a reader sees: the live ones, newest first.
    pub open spec fn visible_lines(self) -> Seq<TrackerEntryLine> {
        live_lines_newest_first(self.tables.lines)
    }

    /// Outcome of creating a tracker labelled `label` in state `self`.
    pub open spec fn create_tracker_post(
        self,
        label: String,
        s2: SessionState,
        r: Result<TrackerEntryViewDto, AppError>,
    ) -> bool {
        let n = self.tables.entries.len();
        if n < i64::MAX {
            let row = new_entry_row((n + 1) as i64, label, self.clock);
            &&& s2 == self.with_tables(self.tables.with_entries(self.tables.entries.push(row)))
            &&& r == Ok::<TrackerEntryViewDto, AppError>(entry_view(row))
        } else {
            &&& s2 == self
            &&& r == Err::<TrackerEntryViewDto, AppError>(
                AppError::StorageFailure(EntityKind::Entry),
            )
        }
    }

    /// Outcome of renaming tracker `entry_id` to `label`.
    pub open spec fn rename_tracker_post(
        self,
        entry_id: i64,
        label: String,
        s2: SessionState,
        r: Result<TrackerEntryViewDto, AppError>,
    ) -> bool {
        let t = self.tables;
        if t.live_entry(entry_id) is None {
            &&& s2 == self
            &&& r == Err::<TrackerEntryViewDto, AppError>(
                AppError::NotFound(EntityKind::Entry, entry_id),
            )
        } else {
            let e = entry_with_label(t.entries[entry_id - 1], label, self.clock);
            &&& s2 == self.with_tables(t.with_entries(t.entries.update(entry_id - 1, e)))
            &&& r == Ok::<TrackerEntryViewDto, AppError>(entry_view(e))
        }
    }

    /// Outcome of starting a line described `desc` under tracker `entry_id`.
    pub open spec fn start_tracking_post(
        self,
        entry_id: i64,
        desc: String,
        s2: SessionState,
        r: Result<TrackerEntryLineViewDto, AppError>,
    ) -> bool {
        let t = self.tables;
        if t.live_entry(entry_id) is None {
            &&& s2 == self
            &&& r == Err::<TrackerEntryLineViewDto, AppError>(
                AppError::NotFound(EntityKind::Entry, entry_id),
            )
        } else if t.lines.len() >= i64::MAX {
            &&& s2 == self
            &&& r == Err::<TrackerEntryLineViewDto, AppError>(
                AppError::StorageFailure(EntityKind::Line),
            )
        } else if t.durations.len() >= i64::MAX {
            &&& s2 == self
            &&& r == Err::<TrackerEntryLineViewDto, AppError>(
                AppError::StorageFailure(EntityKind::Duration),
            )
        } else {
            let line = new_line_row((t.lines.len() + 1) as i64, entry_id, desc, self.clock);
            let seg = new_segment_row((t.durations.len() + 1) as i64, line.id, self.clock);
            &&& s2 == self.with_tables(
                Tables {
                    entries: t.entries,
                    lines: t.lines.push(line),
                    durations: t.durations.push(seg),
                },
            )
            &&& r matches Ok(v) && shows_line(v, line, seq![seg])
        }
    }

    /// Outcome of stopping line `line_id`: its running segment is closed.
    pub open spec fn stop_tracking_post(
        self,
        line_id: i64,
        s2: SessionState,
        r: Result<TrackerEntryLineViewDto, AppError>,
    ) -> bool {
        let t = self.tables;
        if t.live_line(line_id) is None {
            &&& s2 == self
            &&& r == Err::<TrackerEntryLineViewDto, AppError>(
                AppError::NotFound(EntityKind::Line, line_id),
            )
        } else if !has_running_segment(t.durations, line_id) {
            &&& s2 == self
            &&& r == Err::<TrackerEntryLineViewDto, AppError>(
                AppError::ValidationError(Violation::NoActiveDuration, line_id),
            )
        } else {
            &&& s2 == self.with_tables(
                t.with_durations(close_running_segments(t.durations, line_id, self.clock)),
            )
            &&& r matches Ok(v) && shows_line(
                v,
                t.lines[line_id - 1],
                segments_newest_first(s2.tables.durations, line_id),
            )
        }
    }

    /// Outcome of resuming line `line_id`: a new running segment is opened.
    pub open spec fn resume_tracking_post(
        self,
        line_id: i64,
        s2: SessionState,
        r: Result<TrackerEntryLineViewDto, AppError>,
    ) -> bool {
        let t = self.tables;
        if t.live_line(line_id) is None {
            &&& s2 == self
            &&& r == Err::<TrackerEntryLineViewDto, AppError>(
                AppError::NotFound(EntityKind::Line, line_id),
            )
        } else if has_running_segment(t.durations, line_id) {
            &&& s2 == self
            &&& r == Err::<TrackerEntryLineViewDto, AppError>(
                AppError::ValidationError(Violation::AlreadyActive, line_id),
            )
        } else if t.durations.len() >= i64::MAX {
            &&& s2 == self
            &&& r == Err::<TrackerEntryLineViewDto, AppError>(
                AppError::StorageFailure(EntityKind::Duration),
            )
        } else {
            let seg = new_segment_row((t.durations.len() + 1) as i64, line_id, self.clock);
            &&& s2 == self.with_tables(t.with_durations(t.durations.push(seg)))
            &&& r matches Ok(v) && shows_line(
                v,
                t.lines[line_id - 1],
                segments_newest_first(s2.tables.durations, line_id),
            )
        }
    }

    /// Outcome of giving line `line_id` the description `desc`.
    pub open spec fn update_tracked_post(
        self,
        line_id: i64,
        desc: String,
        s2: SessionState,
        r: Result<TrackerEntryLineViewDto, AppError>,
    ) -> bool {
        let t = self.tables;
        if t.live_line(line_id) is None {
            &&& s2 == self
            &&& r == Err::<TrackerEntryLineViewDto, AppError>(
                AppError::NotFound(EntityKind::Line, line_id),
            )
        } else {
            let l = line_with_desc(t.lines[line_id - 1], desc, self.clock);
            &&& s2 == self.with_tables(t.with_lines(t.lines.update(line_id - 1, l)))
            &&& r matches Ok(v) && shows_line(v, l, segments_newest_first(t.durations, line_id))
        }
    }

    /// Outcome of removing line `line_id`: it and its live segments are soft-deleted.
    pub open spec fn remove_tracked_post(
        self,
        line_id: i64,
        s2: SessionState,
        r: Result<(), AppError>,
    ) -> bool {
        let t = self.tables;
        if t.live_line(line_id) is None {
            &&& s2 == self
            &&& r == Err::<(), AppError>(AppError::NotFound(EntityKind::Line, line_id))
        } else {
            &&& s2 == self.with_tables(
                Tables {
                    entries: t.entries,
                    lines: t.lines.update(line_id - 1, deleted_line(t.lines[line_id - 1])),
                    durations: t.durations_deleted_for_line(line_id),
                },
            )
            &&& r == Ok::<(), AppError>(())
        }
    }

    /// Outcome of deleting tracker `entry_id`: its live lines with their live
    /// segments, then itself, are soft-deleted.
    pub open spec fn delete_tracker_post(
        self,
        entry_id: i64,
        s2: SessionState,
        r: Result<(), AppError>,
    ) -> bool {
        let t = self.tables;
        if t.live_entry(entry_id) is None {
            &&& s2 == self
            &&& r == Err::<(), AppError>(AppError::NotFound(EntityKind::Entry, entry_id))
        } else {
            &&& s2 == self.with_tables(
                Tables {
                    entries: t.entries.update(entry_id - 1, deleted_entry(t.entries[entry_id - 1])),
                    lines: t.lines_deleted_for_entry(entry_id),
                    durations: t.durations_deleted_for_entry(entry_id),
                },
            )
            &&& r == Ok::<(), AppError>(())
        }
    }

    /// Outcome of stopping every running line: each is stopped and shown, newest first.
    pub open spec fn stop_all_post(
        self,
        s2: SessionState,
        r: Result<Vec<TrackerEntryLineViewDto>, AppError>,
    ) -> bool {
        let t = self.tables;
        &&& s2 == self.with_tables(t.with_durations(close_all_running(t, self.clock)))
        &&& r matches Ok(v) && shows_lines(v@, running_lines(t), s2.tables)
    }
}

/// The tracking session service.
pub struct TrackerService {
    repo: TrackerRepository,
    clock: i64,
}

impl View for TrackerService {
    type V = SessionState;

    closed spec fn view(&self) -> SessionState {
        SessionState { tables: self.repo@, clock: self.clock }
    }
}

impl TrackerService {
    /// The service is in a state it can be observed in.
    pub open spec fn inv(&self) -> bool {
        self@.inv()
    }

    /// A service over an empty store.
    pub fn create_service() -> (r: Self)
        ensures
            r.inv(),
            r@.tables == Tables::empty(),
            r@.clock == 0,
    {
        TrackerService { repo: TrackerRepository::new(), clock: 0 }
    }

    /// The latest tracker `created_at`, but at least 0, if trackers are stored in
    /// `created_at` order.
    fn latest_entry_time(repo: &TrackerRepository) -> (r: Option<i64>)
        requires
            repo.wf(),
        ensures
            r is Some <==> forall|i: int, j: int|
                0 <= i < j < repo@.entries.len() ==> (#[trigger] repo@.entries[i]).created_at
                    <= (#[trigger] repo@.entries[j]).created_at,
            r matches Some(c) ==> c >= 0 && forall|i: int|
                0 <= i < repo@.entries.len() ==> (#[trigger] repo@.entries[i]).created_at <= c,
            r matches Some(c) ==> c == 0 || exists|i: int|
                0 <= i < repo@.entries.len() && (#[trigger] repo@.entries[i]).created_at == c,
    {
        let ghost e = repo@.entries;
        let n = repo.entry_count();
        let mut prev: i64 = i64::MIN;
        let mut i: usize = 0;
        while i < n
            invariant
                repo.wf(),
                e == repo@.entries,
                n == e.len(),
                i <= n,
                forall|a: int, b: int|
                    0 <= a < b < i ==> (#[trigger] e[a]).created_at <= (#[trigger] e[b]).created_at,
                forall|a: int| 0 <= a < i ==> (#[trigger] e[a]).created_at <= prev,
                i == 0 ==> prev == i64::MIN,
                i > 0 ==> prev == e[i - 1].created_at,
            decreases n - i,
        {
            let row = match repo.find_entry_row(i as i64 + 1) {
                Some(x) => x,
                None => {
                    return None;
                },
            };
            if row.created_at < prev {
                assert(e[i - 1].created_at > e[i as int].created_at);
                return None;
            }
            prev = row.created_at;
            i += 1;
        }
        if prev > 0 {
            assert(e[n - 1].created_at == prev);
            Some(prev)
        } else {
            Some(0)
        }
    }

    /// The latest line `created_at`, but at least 0, if lines are stored in
    /// `created_at` order.
    fn latest_line_time(repo: &TrackerRepository) -> (r: Option<i64>)
        requires
            repo.wf(),
        ensures
            r is Some <==> forall|i: int, j: int|
                0 <= i < j < repo@.lines.len() ==> (#[trigger] repo@.lines[i]).created_at
                    <= (#[trigger] repo@.lines[j]).created_at,
            r matches Some(c) ==> c >= 0 && forall|i: int|
                0 <= i < repo@.lines.len() ==> (#[trigger] repo@.lines[i]).created_at <= c,
            r matches Some(c) ==> c == 0 || exists|i: int|
                0 <= i < repo@.lines.len() && (#[trigger] repo@.lines[i]).created_at == c,
    {
        let ghost e = repo@.lines;
        let n = repo.line_count();
        let mut prev: i64 = i64::MIN;
        let mut i: usize = 0;
        while i < n
            invariant
                repo.wf(),
                e == repo@.lines,
                n == e.len(),
                i <= n,
                forall|a: int, b: int|
                    0 <= a < b < i ==> (#[trigger] e[a]).created_at <= (#[trigger] e[b]).created_at,
                forall|a: int| 0 <= a < i ==> (#[trigger] e[a]).created_at <= prev,
                i == 0 ==> prev == i64::MIN,
                i > 0 ==> prev == e[i - 1].created_at,
            decreases n - i,
        {
            let row = match repo.find_line_row(i as i64 + 1) {
                Some(x) => x,
                None => {
                    return None;
                },
            };
            if row.created_at < prev {
                assert(e[i - 1].created_at > e[i as int].created_at);
                return None;
            }
            prev = row.created_at;
            i += 1;
        }
        if prev > 0 {
            assert(e[n - 1].created_at == prev);
            Some(prev)
        } else {
            Some(0)
        }
    }

    /// A service over stored rows, with its clock at the latest stored creation,
    /// start or end time (or 0 if that is later); `None` unless the rows are
    /// consistent.
    pub fn restore(repo: TrackerRepository) -> (r: Option<Self>)
        requires
            repo.wf(),
        ensures
            r is Some <==> rows_consistent(repo@),
            r matches Some(svc) ==> svc.inv() && svc@.tables == repo@,
            r matches Some(svc) ==> {
                &&& svc@.clock >= 0
                &&& not_after(repo@, svc@.clock)
                &&& svc@.clock == 0 || is_stored_time(repo@, svc@.clock)
            },
    {
        let ghost t = repo@;
        let ghost d = t.durations;
        let entry_time = match Self::latest_entry_time(&repo) {
            Some(c) => c,
            None => {
                return None;
            },
        };
        let line_time = match Self::latest_line_time(&repo) {
            Some(c) => c,
            None => {
                return None;
            },
        };
        let n_lines = repo.line_count();
        let n = repo.duration_count();
        let mut seen: Vec<bool> = vec![false; n_lines];
        let mut clock: i64 = if entry_time > line_time {
            entry_time
        } else {
            line_time
        };
        let mut prev: i64 = i64::MIN;
        let mut i: usize = 0;
        while i < n
            invariant
                repo.wf(),
                repo@ == t,
                d == t.durations,
                n == d.len(),
                n_lines == t.lines.len(),
                i <= n,
                seen@.len() == n_lines,
                forall|l: int|
                    0 <= l < n_lines ==> (#[trigger] seen@[l] <==> exists|k: int|
                        0 <= k < i && is_running_segment_of(#[trigger] d[k], (l + 1) as i64)),
                forall|k1: int, k2: int|
                    0 <= k1 < i && 0 <= k2 < i && is_running_segment_of(
                        #[trigger] d[k1],
                        d[k1].entry_line_id,
                    ) && is_running_segment_of(#[trigger] d[k2], d[k1].entry_line_id) ==> k1
                        == k2,
                forall|k: int| 0 <= k < i ==> 1 <= (#[trigger] d[k]).entry_line_id <= n_lines,
                forall|k: int|
                    0 <= k < i ==> match (#[trigger] d[k]).ended_at {
                        Some(e) => d[k].started_at <= e,
                        None => true,
                    },
                forall|k: int| 0 <= k < i ==> (#[trigger] d[k]).started_at <= clock,
                forall|k: int|
                    0 <= k < i ==> match (#[trigger] d[k]).ended_at {
                        Some(e) => e <= clock,
                        None => true,
                    },
                clock >= 0,
                clock == 0 || is_stored_time(t, clock),
                forall|k: int| 0 <= k < t.entries.len() ==> (#[trigger] t.entries[k]).created_at <= clock,
                forall|k: int| 0 <= k < t.lines.len() ==> (#[trigger] t.lines[k]).created_at <= clock,
                forall|a: int, b: int|
                    0 <= a < b < t.entries.len() ==> (#[trigger] t.entries[a]).created_at
                        <= (#[trigger] t.entries[b]).created_at,
                forall|a: int, b: int|
                    0 <= a < b < t.lines.len() ==> (#[trigger] t.lines[a]).created_at
                        <= (#[trigger] t.lines[b]).created_at,
                forall|a: int, b: int|
                    0 <= a < b < i ==> (#[trigger] d[a]).started_at <= (#[trigger] d[b]).started_at,
                forall|a: int| 0 <= a < i ==> (#[trigger] d[a]).started_at <= prev,
                i == 0 ==> prev == i64::MIN,
                i > 0 ==> prev == d[i - 1].started_at,
            decreases n - i,
        {
            let seg = match repo.find_duration_row(i as i64 + 1) {
                Some(x) => x,
                None => {
                    return None;
                },
            };
            assert(seg == d[i as int]);
            if seg.started_at < prev {
                assert(d[i - 1].started_at > d[i as int].started_at);
                return None;
            }
            prev = seg.started_at;
            if seg.entry_line_id < 1 || seg.entry_line_id > n_lines as i64 {
                return None;
            }
            match seg.ended_at {
                Some(e) => {
                    if e < seg.started_at {
                        return None;
                    }
                },
                None => {
                    if !seg.is_deleted {
                        let l = (seg.entry_line_id - 1) as usize;
                        if seen[l] {
                            proof {
                                let k = choose|k: int|
                                    0 <= k < i && is_running_segment_of(
                                        #[trigger] d[k],
                                        (l + 1) as i64,
                                    );
                                assert(is_running_segment_of(d[k], d[k].entry_line_id));
                                assert(is_running_segment_of(d[i as int], d[k].entry_line_id));
                            }
                            return None;
                        }
                        seen[l] = true;
                        proof {
                            assert(is_running_segment_of(d[i as int], (l + 1) as i64));
                        }
                    }
                },
            }
            if seg.started_at > clock {
                clock = seg.started_at;
                assert(d[i as int].started_at == clock);
            }
            if let Some(e) = seg.ended_at {
                if e > clock {
                    clock = e;
                    assert(d[i as int].ended_at == Some(clock));
                }
            }
            proof {
                assert forall|l: int|
                    0 <= l < n_lines implies (#[trigger] seen@[l] <==> exists|k: int|
                        0 <= k < i + 1 && is_running_segment_of(#[trigger] d[k], (l + 1) as i64)) by {
                    if is_running_segment_of(d[i as int], (l + 1) as i64) {
                        assert(seen@[l]);
                    }
                    if exists|k: int|
                        0 <= k < i + 1 && is_running_segment_of(#[trigger] d[k], (l + 1) as i64) {
                        let k = choose|k: int|
                            0 <= k < i + 1 && is_running_segment_of(#[trigger] d[k], (l + 1) as i64);
                        if k < i {
                            assert(exists|k: int|
                                0 <= k < i && is_running_segment_of(#[trigger] d[k], (l + 1) as i64));
                        }
                    }
                }
                assert forall|k1: int, k2: int|
                    0 <= k1 < i + 1 && 0 <= k2 < i + 1 && is_running_segment_of(
                        #[trigger] d[k1],
                        d[k1].entry_line_id,
                    ) && is_running_segment_of(#[trigger] d[k2], d[k1].entry_line_id) implies k1
                    == k2 by {
                    if k1 == i && k2 < i {
                        assert(seen@[d[k1].entry_line_id - 1]);
                    } else if k2 == i && k1 < i {
                        assert(is_running_segment_of(d[k1], (d[k1].entry_line_id - 1 + 1) as i64));
                    }
                }
            }
            i += 1;
        }
        let svc = TrackerService { repo, clock };
        assert(svc@.tables == t);
        Some(svc)
    }

    /// The gateway the service runs over, for reading its rows.
    pub fn repository(&self) -> (r: &TrackerRepository)
        requires
            self.inv(),
        ensures
            r.wf(),
            r@ == self@.tables,
    {
        &self.repo
    }

    /// The latest time the service has used.
    pub fn clock(&self) -> (r: i64)
        ensures
            r == self@.clock,
    {
        self.clock
    }

    fn advance(&mut self, now: i64)
        requires
            old(self).inv(),
        ensures
            final(self).inv(),
            final(self)@ == old(self)@.advanced(now),
    {
        if now > self.clock {
            self.clock = now;
        }
        assert(self@ =~= old(self)@.advanced(now));
    }

    /// Creates a tracker labelled `dto.label` at time `later(clock, now)`.
    pub fn create_tracker(&mut self, dto: TrackerEntryCreateDto, now: i64) -> (r: Result<
        TrackerEntryViewDto,
        AppError,
    >)
        requires
            old(self).inv(),
        ensures
            final(self).inv(),
            old(self)@.advanced(now).create_tracker_post(dto.label, final(self)@, r),
    {
        self.advance(now);
        let ghost s = self@;
        let t = self.clock;
        let entry = TrackerEntry {
            id: 0,
            label: dto.label,
            created_at: t,
            updated_at: t,
            is_deleted: false,
        };
        let res = self.repo.create_entry(entry);
        assert(self@ =~= s || self@ =~= s.with_tables(self.repo@));
        match res {
            Ok(row) => Ok(TrackerEntryViewDto::from(row)),
            Err(e) => Err(e),
        }
    }

    /// Gives tracker `dto.id` the label `dto.label` at time `later(clock, now)`.
    pub fn rename_tracker(&mut self, dto: TrackerEntryUpdateDto, now: i64) -> (r: Result<
        TrackerEntryViewDto,
        AppError,
    >)
        requires
            old(self).inv(),
        ensures
            final(self).inv(),
            old(self)@.advanced(now).rename_tracker_post(dto.id, dto.label, final(self)@, r),
    {
        self.advance(now);
        let ghost s = self@;
        let mut entry = match self.repo.get_entry(dto.id) {
            Some(e) => e,
            None => {
                return Err(AppError::NotFound(EntityKind::Entry, dto.id));
            },
        };
        entry.label = dto.label;
        entry.updated_at = self.clock;
        let updated = match self.repo.update_entry(&entry) {
            Ok(e) => e,
            Err(e) => {
                return Err(e);
            },
        };
        assert(self@ =~= s.with_tables(s.tables.with_entries(self@.tables.entries)));
        Ok(TrackerEntryViewDto::from(updated))
    }

    /// Every live tracker, newest first.
    pub fn get_trackers(&self) -> (r: Result<Vec<TrackerEntryViewDto>, AppError>)
        requires
            self.inv(),
        ensures
            r matches Ok(v) && v@ == self@.trackers(),
            r matches Ok(v) && forall|i: int, j: int|
                0 <= i < j < v@.len() ==> (#[trigger] v@[i]).created_at >= (#[trigger] v@[j]).created_at,
    {
        proof {
            lemma_newest_first_descends(
                self@.tables.entries,
                |e: TrackerEntry| !e.is_deleted,
                |e: TrackerEntry| e.created_at as int,
            );
        }
        let entries = self.repo.get_all_entries();
        let mut out: Vec<TrackerEntryViewDto> = Vec::new();
        let mut i: usize = 0;
        while i < entries.len()
            invariant
                i <= entries@.len(),
                out@ == entry_views(entries@.subrange(0, i as int)),
            decreases entries@.len() - i,
        {
            out.push(TrackerEntryViewDto::from(entries[i].copy()));
            assert(entries@.subrange(0, i + 1) =~= entries@.subrange(0, i as int).push(entries@[i as int]));
            i += 1;
            assert(out@ =~= entry_views(entries@.subrange(0, i as int)));
        }
        assert(entries@.subrange(0, entries@.len() as int) =~= entries@);
        Ok(out)
    }

    /// The view of `line` with its live segments as stored now, newest first.
    fn line_view(&self, line: TrackerEntryLine) -> (r: TrackerEntryLineViewDto)
        requires
            self.inv(),
        ensures
            shows_line(r, line, segments_newest_first(self@.tables.durations, line.id)),
    {
        let segs = self.repo.get_line_durations(&line);
        let mut v = TrackerEntryLineViewDto::from_line(line);
        let mut views: Vec<TrackerEntryLineDurationViewDto> = Vec::new();
        let mut i: usize = 0;
        while i < segs.len()
            invariant
                i <= segs@.len(),
                views@ == duration_views(segs@.subrange(0, i as int)),
            decreases segs@.len() - i,
        {
            views.push(TrackerEntryLineDurationViewDto::from(segs[i]));
            assert(segs@.subrange(0, i + 1) =~= segs@.subrange(0, i as int).push(segs@[i as int]));
            i += 1;
            assert(views@ =~= duration_views(segs@.subrange(0, i as int)));
        }
        assert(segs@.subrange(0, segs@.len() as int) =~= segs@);
        v.durations = views;
        v
    }

    /// The running segment of `line`, if it has one.
    fn running_segment_of(&self, line: &TrackerEntryLine) -> (r: Option<TrackerEntryLineDuration>)
        requires
            self.inv(),
        ensures
            r is Some <==> has_running_segment(self@.tables.durations, line.id),
            r matches Some(d) ==> {
                &&& 1 <= d.id <= self@.tables.durations.len()
                &&& self@.tables.durations[d.id - 1] == d
                &&& is_running_segment_of(d, line.id)
            },
    {
        let ghost durs = self@.tables.durations;
        let ghost keep = |d: TrackerEntryLineDuration| is_segment_of(d, line.id);
        let segs = self.repo.get_line_durations(line);
        assert(segs@ == newest_first(durs, keep));
        let mut i: usize = 0;
        while i < segs.len()
            invariant
                self.inv(),
                durs == self@.tables.durations,
                segs@ == newest_first(durs, keep),
                keep == (|d: TrackerEntryLineDuration| is_segment_of(d, line.id)),
                i <= segs@.len(),
                forall|j: int| 0 <= j < i ==> (#[trigger] segs@[j]).ended_at is Some,
            decreases segs@.len() - i,
        {
            if segs[i].ended_at.is_none() {
                proof {
                    let x = segs@[i as int];
                    assert(segs@.contains(x));
                    lemma_newest_first_contains(durs, keep, x);
                    let k = choose|k: int| 0 <= k < durs.len() && durs[k] == x && keep(x);
                    assert(durs[k].id == k + 1);
                    assert(is_running_segment_of(durs[k], line.id));
                }
                return Some(segs[i]);
            }
            i += 1;
        }
        proof {
            if has_running_segment(durs, line.id) {
                let k = choose|k: int| 0 <= k < durs.len() && is_running_segment_of(durs[k], line.id);
                lemma_newest_first_contains(durs, keep, durs[k]);
                let j = choose|j: int| 0 <= j < segs@.len() && segs@[j] == durs[k];
                assert(segs@[j].ended_at is Some);
            }
        }
        None
    }

    /// Every live line, newest first, each with its live segments, newest first.
    pub fn get_tracker_lines(&self) -> (r: Result<Vec<TrackerEntryLineViewDto>, AppError>)
        requires
            self.inv(),
        ensures
            r matches Ok(v) && shows_lines(v@, self@.visible_lines(), self@.tables),
            r matches Ok(v) && forall|i: int, j: int|
                0 <= i < j < v@.len() ==> (#[trigger] v@[i]).created_at >= (#[trigger] v@[j]).created_at,
            r matches Ok(v) && forall|k: int, i: int, j: int|
                0 <= k < v@.len() && 0 <= i < j < v@[k].durations@.len() ==> (
                #[trigger] v@[k].durations@[i]).started_at >= (
                #[trigger] v@[k].durations@[j]).started_at,
    {
        proof {
            lemma_newest_first_descends(
                self@.tables.lines,
                |l: TrackerEntryLine| !l.is_deleted,
                |l: TrackerEntryLine| l.created_at as int,
            );
        }
        let lines = self.repo.get_all_entry_lines();
        let mut out: Vec<TrackerEntryLineViewDto> = Vec::new();
        let mut i: usize = 0;
        while i < lines.len()
            invariant
                self.inv(),
                lines@ == self@.visible_lines(),
                i <= lines@.len(),
                shows_lines(out@, lines@.subrange(0, i as int), self@.tables),
            decreases lines@.len() - i,
        {
            let v = self.line_view(lines[i].copy());
            out.push(v);
            i += 1;
        }
        assert(lines@.subrange(0, lines@.len() as int) =~= lines@);
        proof {
            assert forall|k: int, i: int, j: int|
                0 <= k < out@.len() && 0 <= i < j < out@[k].durations@.len() implies (
                #[trigger] out@[k].durations@[i]).started_at >= (
                #[trigger] out@[k].durations@[j]).started_at by {
                lemma_newest_first_descends(
                    self@.tables.durations,
                    |d: TrackerEntryLineDuration| is_segment_of(d, lines@[k].id),
                    |d: TrackerEntryLineDuration| d.started_at as int,
                );
            }
        }
        Ok(out)
    }

    fn start_line(&mut self, dto: TrackerEntryLineCreateDto) -> (r: Result<
        TrackerEntryLineViewDto,
        AppError,
    >)
        requires
            old(self).inv(),
        ensures
            final(self).inv(),
            old(self)@.start_tracking_post(dto.entry_id, dto.desc, final(self)@, r),
    {
        let ghost s = self@;
        match self.repo.get_entry(dto.entry_id) {
            Some(_) => {},
            None => {
                return Err(AppError::NotFound(EntityKind::Entry, dto.entry_id));
            },
        }
        if self.repo.line_count() as u64 >= i64::MAX as u64 {
            return Err(AppError::StorageFailure(EntityKind::Line));
        }
        if self.repo.duration_count() as u64 >= i64::MAX as u64 {
            return Err(AppError::StorageFailure(EntityKind::Duration));
        }
        let t = self.clock;
        let line = TrackerEntryLine {
            id: 0,
            entry_id: dto.entry_id,
            desc: dto.desc,
            started_at: t,
            ended_at: None,
            created_at: t,
            updated_at: t,
            is_deleted: false,
        };
        let created_line = match self.repo.create_entry_line(line) {
            Ok(l) => l,
            Err(e) => {
                return Err(e);
            },
        };
        let seg = TrackerEntryLineDuration {
            id: 0,
            entry_line_id: created_line.id,
            started_at: t,
            ended_at: None,
            created_at: t,
            updated_at: t,
            is_deleted: false,
        };
        let created_seg = match self.repo.create_line_duration(seg) {
            Ok(d) => d,
            Err(e) => {
                return Err(e);
            },
        };
        let mut v = TrackerEntryLineViewDto::from_line(created_line);
        v.durations = vec![TrackerEntryLineDurationViewDto::from(created_seg)];
        proof {
            let t2 = self@.tables;
            assert(duration_views(seq![created_seg]) =~= seq![duration_view(created_seg)]);
            assert(v.durations@ =~= seq![duration_view(created_seg)]);
            assert(self@ =~= s.with_tables(
                Tables {
                    entries: s.tables.entries,
                    lines: s.tables.lines.push(created_line),
                    durations: s.tables.durations.push(created_seg),
                },
            ));
            let n = s.tables.durations.len() as int;
            assert forall|k1: int, k2: int|
                0 <= k1 < t2.durations.len() && 0 <= k2 < t2.durations.len() && is_running_segment_of(
                    #[trigger] t2.durations[k1],
                    t2.durations[k1].entry_line_id,
                ) && is_running_segment_of(
                    #[trigger] t2.durations[k2],
                    t2.durations[k1].entry_line_id,
                ) implies k1 == k2 by {
                if k1 < n && k2 < n {
                    assert(s.tables.durations[k1] == t2.durations[k1]);
                    assert(s.tables.durations[k2] == t2.durations[k2]);
                } else if k1 < n {
                    assert(s.tables.durations[k1].entry_line_id <= s.tables.lines.len());
                } else if k2 < n {
                    assert(s.tables.durations[k2].entry_line_id <= s.tables.lines.len());
                }
            }
        }
        Ok(v)
    }

    /// Starts a line under tracker `dto.entry_id` with its first running segment, at time
    /// `later(clock, now)`.
    pub fn start_tracking(&mut self, dto: TrackerEntryLineCreateDto, now: i64) -> (r: Result<
        TrackerEntryLineViewDto,
        AppError,
    >)
        requires
            old(self).inv(),
        ensures
            final(self).inv(),
            old(self)@.advanced(now).start_tracking_post(dto.entry_id, dto.desc, final(self)@, r),
    {
        self.advance(now);
        self.start_line(dto)
    }

    fn stop_line(&mut self, line_id: i64) -> (r: Result<TrackerEntryLineViewDto, AppError>)
        requires
            old(self).inv(),
        ensures
            final(self).inv(),
            old(self)@.stop_tracking_post(line_id, final(self)@, r),
    {
        let ghost s = self@;
        let line = match self.repo.get_entry_line(line_id) {
            Some(l) => l,
            None => {
                return Err(AppError::NotFound(EntityKind::Line, line_id));
            },
        };
        let d = match self.running_segment_of(&line) {
            Some(d) => d,
            None => {
                return Err(AppError::ValidationError(Violation::NoActiveDuration, line_id));
            },
        };
        let t = self.clock;
        let closed = TrackerEntryLineDuration {
            id: d.id,
            entry_line_id: d.entry_line_id,
            started_at: d.started_at,
            ended_at: Some(t),
            created_at: d.created_at,
            updated_at: t,
            is_deleted: d.is_deleted,
        };
        match self.repo.update_line_duration(&closed) {
            Ok(_) => {},
            Err(e) => {
                return Err(e);
            },
        }
        proof {
            let old_d = s.tables.durations;
            let target = close_running_segments(old_d, line_id, t);
            assert forall|k: int| 0 <= k < old_d.len() implies self@.tables.durations[k]
                == target[k] by {
                if k != d.id - 1 && is_running_segment_of(old_d[k], line_id) {
                    assert(is_running_segment_of(old_d[d.id - 1], old_d[k].entry_line_id));
                }
            }
            assert(self@.tables.durations =~= target);
            assert(self@ =~= s.with_tables(s.tables.with_durations(target)));
            let nd = self@.tables.durations;
            assert forall|k1: int, k2: int|
                0 <= k1 < nd.len() && 0 <= k2 < nd.len() && is_running_segment_of(
                    #[trigger] nd[k1],
                    nd[k1].entry_line_id,
                ) && is_running_segment_of(#[trigger] nd[k2], nd[k1].entry_line_id) implies k1
                == k2 by {
                assert(old_d[k1] == nd[k1]);
                assert(old_d[k2] == nd[k2]);
            }
        }
        Ok(self.line_view(line))
    }

    /// Closes the running segment of line `line_id` at time `later(clock, now)`.
    pub fn stop_tracking(&mut self, line_id: i64, now: i64) -> (r: Result<
        TrackerEntryLineViewDto,
        AppError,
    >)
        requires
            old(self).inv(),
        ensures
            final(self).inv(),
            old(self)@.advanced(now).stop_tracking_post(line_id, final(self)@, r),
    {
        self.advance(now);
        self.stop_line(line_id)
    }

    fn resume_line(&mut self, line_id: i64) -> (r: Result<TrackerEntryLineViewDto, AppError>)
        requires
            old(self).inv(),
        ensures
            final(self).inv(),
            old(self)@.resume_tracking_post(line_id, final(self)@, r),
    {
        let ghost s = self@;
        let line = match self.repo.get_entry_line(line_id) {
            Some(l) => l,
            None => {
                return Err(AppError::NotFound(EntityKind::Line, line_id));
            },
        };
        if self.running_segment_of(&line).is_some() {
            return Err(AppError::ValidationError(Violation::AlreadyActive, line_id));
        }
        let t = self.clock;
        let seg = TrackerEntryLineDuration {
            id: 0,
            entry_line_id: line.id,
            started_at: t,
            ended_at: None,
            created_at: t,
            updated_at: t,
            is_deleted: false,
        };
        match self.repo.create_line_duration(seg) {
            Ok(_) => {},
            Err(e) => {
                return Err(e);
            },
        }
        proof {
            let old_d = s.tables.durations;
            let nd = self@.tables.durations;
            let n = old_d.len() as int;
            assert(self@ =~= s.with_tables(s.tables.with_durations(nd)));
            assert forall|k1: int, k2: int|
                0 <= k1 < nd.len() && 0 <= k2 < nd.len() && is_running_segment_of(
                    #[trigger] nd[k1],
                    nd[k1].entry_line_id,
                ) && is_running_segment_of(#[trigger] nd[k2], nd[k1].entry_line_id) implies k1
                == k2 by {
                if k1 < n && k2 < n {
                    assert(old_d[k1] == nd[k1]);
                    assert(old_d[k2] == nd[k2]);
                } else if k1 < n {
                    assert(old_d[k1] == nd[k1]);
                    assert(is_running_segment_of(old_d[k1], line_id));
                } else if k2 < n {
                    assert(old_d[k2] == nd[k2]);
                    assert(is_running_segment_of(old_d[k2], line_id));
                }
            }
        }
        Ok(self.line_view(line))
    }

    /// Opens a new running segment on line `line_id` at time `later(clock, now)`.
    pub fn resume_tracking(&mut self, line_id: i64, now: i64) -> (r: Result<
        TrackerEntryLineViewDto,
        AppError,
    >)
        requires
            old(self).inv(),
        ensures
            final(self).inv(),
            old(self)@.advanced(now).resume_tracking_post(line_id, final(self)@, r),
    {
        self.advance(now);
        self.resume_line(line_id)
    }

    /// Gives line `dto.id` the description `dto.desc` at time `later(clock, now)`.
    pub fn update_tracked(&mut self, dto: TrackerEntryLineUpdateDto, now: i64) -> (r: Result<
        TrackerEntryLineViewDto,
        AppError,
    >)
        requires
            old(self).inv(),
        ensures
            final(self).inv(),
            old(self)@.advanced(now).update_tracked_post(dto.id, dto.desc, final(self)@, r),
    {
        self.advance(now);
        let ghost s = self@;
        let mut line = match self.repo.get_entry_line(dto.id) {
            Some(l) => l,
            None => {
                return Err(AppError::NotFound(EntityKind::Line, dto.id));
            },
        };
        line.desc = dto.desc;
        line.updated_at = self.clock;
        let updated = match self.repo.update_entry_line(&line) {
            Ok(l) => l,
            Err(e) => {
                return Err(e);
            },
        };
        assert(self@ =~= s.with_tables(s.tables.with_lines(self@.tables.lines)));
        Ok(self.line_view(updated))
    }

    /// Soft-deletes line `dto.id`.
    pub fn remove_tracked(&mut self, dto: TrackerEntryLineDeleteDto) -> (r: Result<(), AppError>)
        requires
            old(self).inv(),
        ensures
            final(self).inv(),
            old(self)@.remove_tracked_post(dto.id, final(self)@, r),
    {
        let ghost s = self@;
        let line = match self.repo.get_entry_line(dto.id) {
            Some(l) => l,
            None => {
                return Err(AppError::NotFound(EntityKind::Line, dto.id));
            },
        };
        match self.repo.delete_entry_line(&line) {
            Ok(()) => {},
            Err(e) => {
                return Err(e);
            },
        }
        proof {
            let nd = self@.tables.durations;
            let od = s.tables.durations;
            assert(self@ =~= s.with_tables(self@.tables));
            assert forall|k1: int, k2: int|
                0 <= k1 < nd.len() && 0 <= k2 < nd.len() && is_running_segment_of(
                    #[trigger] nd[k1],
                    nd[k1].entry_line_id,
                ) && is_running_segment_of(#[trigger] nd[k2], nd[k1].entry_line_id) implies k1
                == k2 by {
                assert(od[k1] == nd[k1]);
                assert(od[k2] == nd[k2]);
            }
        }
        Ok(())
    }

    /// Soft-deletes every live line of tracker `dto.id`, then the tracker itself.
    pub fn delete_tracker(&mut self, dto: TrackerEntryDeleteDto) -> (r: Result<(), AppError>)
        requires
            old(self).inv(),
        ensures
            final(self).inv(),
            old(self)@.delete_tracker_post(dto.id, final(self)@, r),
    {
        let ghost s = self@;
        let entry = match self.repo.get_entry(dto.id) {
            Some(e) => e,
            None => {
                return Err(AppError::NotFound(EntityKind::Entry, dto.id));
            },
        };
        match self.repo.delete_lines_for_entry(&entry) {
            Ok(()) => {},
            Err(e) => {
                return Err(e);
            },
        }
        match self.repo.delete_entry(&entry) {
            Ok(()) => {},
            Err(e) => {
                return Err(e);
            },
        }
        assert(self@.tables =~= Tables {
            entries: s.tables.entries.update(dto.id - 1, deleted_entry(s.tables.entries[dto.id - 1])),
            lines: s.tables.lines_deleted_for_entry(dto.id),
            durations: s.tables.durations_deleted_for_entry(dto.id),
        });
        Ok(())
    }

    /// Stops, at time `later(clock, now)`, every live line that has a running segment,
    /// and returns those lines, newest first. A line whose stop fails is passed over.
    pub fn stop_all_active_tracking(&mut self, now: i64) -> (r: Result<
        Vec<TrackerEntryLineViewDto>,
        AppError,
    >)
        requires
            old(self).inv(),
        ensures
            final(self).inv(),
            old(self)@.advanced(now).stop_all_post(final(self)@, r),
    {
        self.advance(now);
        let ghost s = self@;
        let ghost lines = s.tables.lines;
        let ghost d0 = s.tables.durations;
        let ghost keep = |l: TrackerEntryLine| !l.is_deleted && has_running_segment(d0, l.id);
        let n = self.repo.line_count();
        let mut out: Vec<TrackerEntryLineViewDto> = Vec::new();
        let mut i: usize = n;
        proof {
            assert(lines.subrange(n as int, n as int) =~= Seq::<TrackerEntryLine>::empty());
            assert(self@.tables.durations =~= close_running_above(s.tables, n as int, s.clock));
        }
        while i > 0
            invariant
                self.inv(),
                s.inv(),
                i <= n,
                n == lines.len(),
                lines == s.tables.lines,
                d0 == s.tables.durations,
                self@.clock == s.clock,
                self@.tables.entries == s.tables.entries,
                self@.tables.lines == lines,
                self@.tables.durations == close_running_above(s.tables, i as int, s.clock),
                keep == (|l: TrackerEntryLine| !l.is_deleted && has_running_segment(d0, l.id)),
                shows_lines(
                    out@,
                    newest_first(lines.subrange(i as int, n as int), keep),
                    self@.tables,
                ),
            decreases i,
        {
            let id = i as i64;
            i -= 1;
            let ghost cur = self@.tables.durations;
            let ghost old_out = out@;
            let ghost prev = newest_first(lines.subrange(i + 1, n as int), keep);
            proof {
                assert(lines.subrange(i as int, n as int).drop_first() =~= lines.subrange(
                    i + 1,
                    n as int,
                ));
                assert(lines.subrange(i as int, n as int)[0] == lines[i as int]);
                assert(lines[i as int].id == id);
                assert forall|k: int| 0 <= k < cur.len() implies is_running_segment_of(
                    #[trigger] cur[k],
                    id,
                ) == is_running_segment_of(d0[k], id) by {}
                if has_running_segment(d0, id) {
                    let k = choose|k: int| 0 <= k < d0.len() && is_running_segment_of(d0[k], id);
                    assert(is_running_segment_of(cur[k], id));
                }
                if has_running_segment(cur, id) {
                    let k = choose|k: int| 0 <= k < cur.len() && is_running_segment_of(cur[k], id);
                    assert(is_running_segment_of(d0[k], id));
                }
            }
            match self.repo.get_entry_line(id) {
                Some(line) => {
                    if self.running_segment_of(&line).is_some() {
                        match self.stop_line(id) {
                            Ok(v) => {
                                out.push(v);
                            },
                            Err(_) => {},
                        }
                    }
                },
                None => {},
            }
            proof {
                let nd = self@.tables.durations;
                assert(nd =~= close_running_above(s.tables, i as int, s.clock));
                let al = newest_first(lines.subrange(i as int, n as int), keep);
                if keep(lines[i as int]) {
                    assert(al == prev.push(lines[i as int]));
                    assert forall|j: int| 0 <= j < prev.len() implies shows_line(
                        #[trigger] out@[j],
                        al[j],
                        segments_newest_first(nd, al[j].id),
                    ) by {
                        assert(out@[j] == old_out[j]);
                        assert(al[j] == prev[j]);
                        assert(prev.contains(prev[j]));
                        lemma_newest_first_contains(lines.subrange(i + 1, n as int), keep, prev[j]);
                        let other = prev[j].id;
                        assert(other != id);
                        let kf = |d: TrackerEntryLineDuration| is_segment_of(d, other);
                        lemma_newest_first_frame(cur, nd, kf);
                    }
                } else {
                    assert(al == prev);
                }
            }
        }
        proof {
            assert(lines.subrange(0, n as int) =~= lines);
            assert(self@.tables.durations =~= close_all_running(s.tables, s.clock));
            assert(running_lines(s.tables) == newest_first(lines, keep));
            assert(self@ =~= s.with_tables(s.tables.with_durations(close_all_running(s.tables, s.clock))));
        }
        Ok(out)
    }

    /// The tracker row with id `id`, deleted or not.
    pub fn find_entry_row(&self, id: i64) -> (r: Option<TrackerEntry>)
        requires
            self.inv(),
        ensures
            r == self@.tables.entry_row(id),
    {
        self.repo.find_entry_row(id)
    }

    /// The line row with id `id`, deleted or not.
    pub fn find_line_row(&self, id: i64) -> (r: Option<TrackerEntryLine>)
        requires
            self.inv(),
        ensures
            r == self@.tables.line_row(id),
    {
        self.repo.find_line_row(id)
    }
}

} // verus!
