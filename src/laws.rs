//! Properties of the tracking service that span its operations.
use vstd::prelude::*;

use crate::dto::{TrackerEntryLineViewDto, TrackerEntryViewDto};
use crate::error::AppError;
use crate::repository::{
    deleted_entry, is_segment_of, lemma_newest_first_contains, lemma_newest_first_single,
    lemma_newest_first_strictly_descends, newest_first,
    live_entries_newest_first, live_lines_newest_first, segments_newest_first,
};
use crate::service::{
    running_lines, has_running_segment, is_running_segment_of, running_segment_count, running_segments_unique,
    SessionState,
};

verus! {

proof fn lemma_count_zero(s: Seq<crate::model::TrackerEntryLineDuration>, line_id: i64)
    requires
        forall|k: int| 0 <= k < s.len() ==> !is_running_segment_of(#[trigger] s[k], line_id),
    ensures
        running_segment_count(s, line_id) == 0,
    decreases s.len(),
{
    if s.len() > 0 {
        let t = s.drop_first();
        assert forall|k: int| 0 <= k < t.len() implies !is_running_segment_of(
            #[trigger] t[k],
            line_id,
        ) by {
            assert(t[k] == s[k + 1]);
        }
        lemma_count_zero(t, line_id);
    }
}

proof fn lemma_count_at_most_one(s: Seq<crate::model::TrackerEntryLineDuration>, line_id: i64)
    requires
        running_segments_unique(s),
    ensures
        running_segment_count(s, line_id) <= 1,
    decreases s.len(),
{
    if s.len() > 0 {
        let t = s.drop_first();
        if is_running_segment_of(s[0], line_id) {
            assert forall|k: int| 0 <= k < t.len() implies !is_running_segment_of(
                #[trigger] t[k],
                line_id,
            ) by {
                assert(t[k] == s[k + 1]);
                if is_running_segment_of(s[k + 1], line_id) {
                    assert(is_running_segment_of(s[0], s[0].entry_line_id));
                }
            }
            lemma_count_zero(t, line_id);
        } else {
            assert forall|k1: int, k2: int|
                0 <= k1 < t.len() && 0 <= k2 < t.len() && is_running_segment_of(
                    #[trigger] t[k1],
                    t[k1].entry_line_id,
                ) && is_running_segment_of(#[trigger] t[k2], t[k1].entry_line_id) implies k1
                == k2 by {
                assert(t[k1] == s[k1 + 1] && t[k2] == s[k2 + 1]);
            }
            lemma_count_at_most_one(t, line_id);
        }
    }
}

/// In every state the service can be observed in, each line has at most one
/// live segment that is still running.
pub proof fn lemma_one_running_segment_per_line(s: SessionState, line_id: i64)
    requires
        s.inv(),
    ensures
        running_segment_count(s.tables.durations, line_id) <= 1,
{
    lemma_count_at_most_one(s.tables.durations, line_id);
}

/// Tracker `entry_id` is stored and deleted, and so is every line under it.
pub open spec fn tracker_gone(s: SessionState, entry_id: i64) -> bool {
    &&& s.tables.entry_row(entry_id) matches Some(e) && e.is_deleted
    &&& forall|i: int|
        0 <= i < s.tables.lines.len() && (#[trigger] s.tables.lines[i]).entry_id == entry_id
            ==> s.tables.lines[i].is_deleted
}

/// `s2` is what one successful or failed call of a service operation makes of `s`.
pub open spec fn step(s: SessionState, s2: SessionState) -> bool {
    ||| exists|label: String, now: i64, r: Result<TrackerEntryViewDto, AppError>|
        #[trigger] s.advanced(now).create_tracker_post(label, s2, r)
    ||| exists|id: i64, label: String, now: i64, r: Result<TrackerEntryViewDto, AppError>|
        #[trigger] s.advanced(now).rename_tracker_post(id, label, s2, r)
    ||| exists|
        entry_id: i64,
        desc: String,
        now: i64,
        r: Result<TrackerEntryLineViewDto, AppError>,
    | #[trigger] s.advanced(now).start_tracking_post(entry_id, desc, s2, r)
    ||| exists|line_id: i64, now: i64, r: Result<TrackerEntryLineViewDto, AppError>|
        #[trigger] s.advanced(now).stop_tracking_post(line_id, s2, r)
    ||| exists|line_id: i64, now: i64, r: Result<TrackerEntryLineViewDto, AppError>|
        #[trigger] s.advanced(now).resume_tracking_post(line_id, s2, r)
    ||| exists|line_id: i64, desc: String, now: i64, r: Result<TrackerEntryLineViewDto, AppError>|
        #[trigger] s.advanced(now).update_tracked_post(line_id, desc, s2, r)
    ||| exists|line_id: i64, r: Result<(), AppError>| #[trigger] s.remove_tracked_post(line_id, s2, r)
    ||| exists|entry_id: i64, r: Result<(), AppError>| #[trigger] s.delete_tracker_post(entry_id, s2, r)
    ||| exists|now: i64, r: Result<Vec<TrackerEntryLineViewDto>, AppError>|
        #[trigger] s.advanced(now).stop_all_post(s2, r)
}

/// A deleted tracker is neither listed by `get_trackers` nor has a line listed
/// by `get_tracker_lines`, while its row stays stored, marked deleted.
pub proof fn lemma_gone_tracker_hidden(s: SessionState, entry_id: i64)
    requires
        s.tables.ids_dense(),
        tracker_gone(s, entry_id),
    ensures
        forall|j: int| 0 <= j < s.trackers().len() ==> (#[trigger] s.trackers()[j]).id != entry_id,
        forall|j: int|
            0 <= j < s.visible_lines().len() ==> (#[trigger] s.visible_lines()[j]).entry_id
                != entry_id,
{
    let t = s.tables;
    let live_e = |e: crate::model::TrackerEntry| !e.is_deleted;
    let live_l = |l: crate::model::TrackerEntryLine| !l.is_deleted;
    let es = live_entries_newest_first(t.entries);
    assert forall|j: int| 0 <= j < s.trackers().len() implies (#[trigger] s.trackers()[j]).id
        != entry_id by {
        assert(es.contains(es[j]));
        lemma_newest_first_contains(t.entries, live_e, es[j]);
        let k = choose|k: int| 0 <= k < t.entries.len() && t.entries[k] == es[j] && live_e(es[j]);
        assert(t.entries[k].id == k + 1);
    }
    let ls = live_lines_newest_first(t.lines);
    assert forall|j: int| 0 <= j < s.visible_lines().len() implies (
    #[trigger] s.visible_lines()[j]).entry_id != entry_id by {
        assert(ls.contains(ls[j]));
        lemma_newest_first_contains(t.lines, live_l, ls[j]);
    }
}

/// Deleting a tracker leaves it gone: it and all its lines stay stored, marked
/// deleted, and the reads list none of them.
pub proof fn lemma_delete_tracker_hides(
    s: SessionState,
    entry_id: i64,
    s2: SessionState,
    r: Result<(), AppError>,
)
    requires
        s.inv(),
        s.delete_tracker_post(entry_id, s2, r),
        r is Ok,
    ensures
        tracker_gone(s2, entry_id),
        forall|j: int| 0 <= j < s2.trackers().len() ==> (#[trigger] s2.trackers()[j]).id != entry_id,
        forall|j: int|
            0 <= j < s2.visible_lines().len() ==> (#[trigger] s2.visible_lines()[j]).entry_id
                != entry_id,
{
    let t = s.tables;
    assert(s2.tables.entries[entry_id - 1] == deleted_entry(t.entries[entry_id - 1]));
    lemma_gone_tracker_hidden(s2, entry_id);
}

/// Once a tracker is gone, no operation brings it or any of its lines back.
pub proof fn lemma_gone_tracker_stays_gone(s: SessionState, s2: SessionState, entry_id: i64)
    requires
        s.inv(),
        step(s, s2),
        tracker_gone(s, entry_id),
    ensures
        tracker_gone(s2, entry_id),
{
    let t = s.tables;
    let t2 = s2.tables;
    if exists|label: String, now: i64, r: Result<TrackerEntryViewDto, AppError>|
        #[trigger] s.advanced(now).create_tracker_post(label, s2, r) {
        let (label, now, r) = choose|label: String, now: i64, r: Result<TrackerEntryViewDto, AppError>|
            #[trigger] s.advanced(now).create_tracker_post(label, s2, r);
        assert(t2.entry_row(entry_id) == t.entry_row(entry_id));
    } else if exists|id: i64, label: String, now: i64, r: Result<TrackerEntryViewDto, AppError>|
        #[trigger] s.advanced(now).rename_tracker_post(id, label, s2, r) {
        let (id, label, now, r) = choose|
            id: i64,
            label: String,
            now: i64,
            r: Result<TrackerEntryViewDto, AppError>,
        | #[trigger] s.advanced(now).rename_tracker_post(id, label, s2, r);
        assert(t2.entry_row(entry_id) matches Some(e) && e.is_deleted);
    } else if exists|
        eid: i64,
        desc: String,
        now: i64,
        r: Result<TrackerEntryLineViewDto, AppError>,
    | #[trigger] s.advanced(now).start_tracking_post(eid, desc, s2, r) {
        let (eid, desc, now, r) = choose|
            eid: i64,
            desc: String,
            now: i64,
            r: Result<TrackerEntryLineViewDto, AppError>,
        | #[trigger] s.advanced(now).start_tracking_post(eid, desc, s2, r);
        assert(t2.entry_row(entry_id) == t.entry_row(entry_id));
        assert forall|i: int|
            0 <= i < t2.lines.len() && (#[trigger] t2.lines[i]).entry_id == entry_id implies t2.lines[i].is_deleted by {
            if i < t.lines.len() {
                assert(t2.lines[i] == t.lines[i]);
            }
        }
    } else if exists|line_id: i64, now: i64, r: Result<TrackerEntryLineViewDto, AppError>|
        #[trigger] s.advanced(now).stop_tracking_post(line_id, s2, r) {
        let (line_id, now, r) = choose|line_id: i64, now: i64, r: Result<TrackerEntryLineViewDto, AppError>|
            #[trigger] s.advanced(now).stop_tracking_post(line_id, s2, r);
        assert(t2.entries == t.entries && t2.lines == t.lines);
    } else if exists|line_id: i64, now: i64, r: Result<TrackerEntryLineViewDto, AppError>|
        #[trigger] s.advanced(now).resume_tracking_post(line_id, s2, r) {
        let (line_id, now, r) = choose|line_id: i64, now: i64, r: Result<TrackerEntryLineViewDto, AppError>|
            #[trigger] s.advanced(now).resume_tracking_post(line_id, s2, r);
        assert(t2.entries == t.entries && t2.lines == t.lines);
    } else if exists|line_id: i64, desc: String, now: i64, r: Result<TrackerEntryLineViewDto, AppError>|
        #[trigger] s.advanced(now).update_tracked_post(line_id, desc, s2, r) {
        let (line_id, desc, now, r) = choose|
            line_id: i64,
            desc: String,
            now: i64,
            r: Result<TrackerEntryLineViewDto, AppError>,
        | #[trigger] s.advanced(now).update_tracked_post(line_id, desc, s2, r);
        assert(t2.entries == t.entries);
        assert forall|i: int|
            0 <= i < t2.lines.len() && (#[trigger] t2.lines[i]).entry_id == entry_id implies t2.lines[i].is_deleted by {
            assert(t.lines[i].entry_id == t2.lines[i].entry_id);
        }
    } else if exists|line_id: i64, r: Result<(), AppError>| #[trigger] s.remove_tracked_post(line_id, s2, r) {
        let (line_id, r) = choose|line_id: i64, r: Result<(), AppError>|
            #[trigger] s.remove_tracked_post(line_id, s2, r);
        assert(t2.entries == t.entries);
        assert forall|i: int|
            0 <= i < t2.lines.len() && (#[trigger] t2.lines[i]).entry_id == entry_id implies t2.lines[i].is_deleted by {
            assert(t.lines[i].entry_id == t2.lines[i].entry_id);
        }
    } else if exists|eid: i64, r: Result<(), AppError>| #[trigger] s.delete_tracker_post(eid, s2, r) {
        let (eid, r) = choose|eid: i64, r: Result<(), AppError>| #[trigger] s.delete_tracker_post(eid, s2, r);
        assert(t2.entry_row(entry_id) matches Some(e) && e.is_deleted);
        assert forall|i: int|
            0 <= i < t2.lines.len() && (#[trigger] t2.lines[i]).entry_id == entry_id implies t2.lines[i].is_deleted by {
            assert(t.lines[i].entry_id == t2.lines[i].entry_id);
        }
    } else {
        let (now, r) = choose|now: i64, r: Result<Vec<TrackerEntryLineViewDto>, AppError>|
            #[trigger] s.advanced(now).stop_all_post(s2, r);
        assert(t2.entries == t.entries && t2.lines == t.lines);
    }
}

/// Starting a line and then stopping it leaves the line listed with exactly one
/// segment, closed, whose end is not before its start.
pub proof fn lemma_start_then_stop(
    s: SessionState,
    entry_id: i64,
    desc: String,
    now1: i64,
    s1: SessionState,
    r1: Result<TrackerEntryLineViewDto, AppError>,
    now2: i64,
    s2: SessionState,
    r2: Result<TrackerEntryLineViewDto, AppError>,
)
    requires
        s.inv(),
        s.advanced(now1).start_tracking_post(entry_id, desc, s1, r1),
        r1 is Ok,
        s1.advanced(now2).stop_tracking_post(r1->Ok_0.id, s2, r2),
    ensures
        r2 is Ok,
        s2.visible_lines().contains(s2.tables.lines[r1->Ok_0.id - 1]),
        segments_newest_first(s2.tables.durations, r1->Ok_0.id).len() == 1,
        segments_newest_first(s2.tables.durations, r1->Ok_0.id)[0].ended_at matches Some(e) && e
            - segments_newest_first(s2.tables.durations, r1->Ok_0.id)[0].started_at >= 0,
{
    let t = s.tables;
    let line_id = (t.lines.len() + 1) as i64;
    let n = t.durations.len() as int;
    let d1 = s1.tables.durations;
    assert(r1->Ok_0.id == line_id);
    assert(is_running_segment_of(d1[n], line_id));
    let d2 = s2.tables.durations;
    let keep = |d: crate::model::TrackerEntryLineDuration| is_segment_of(d, line_id);
    assert forall|j: int| 0 <= j < d2.len() && j != n implies !keep(#[trigger] d2[j]) by {
        assert(d1[j] == t.durations[j]);
    }
    lemma_newest_first_single(d2, keep, n);
    lemma_newest_first_contains(
        s2.tables.lines,
        |l: crate::model::TrackerEntryLine| !l.is_deleted,
        s2.tables.lines[line_id - 1],
    );
}

/// After stopping every running line, no live line has a running segment left.
pub proof fn lemma_stop_all_leaves_nothing_running(
    s: SessionState,
    now: i64,
    s2: SessionState,
    r: Result<Vec<TrackerEntryLineViewDto>, AppError>,
    line_id: i64,
)
    requires
        s.inv(),
        s.advanced(now).stop_all_post(s2, r),
        s2.tables.live_line(line_id) is Some,
    ensures
        !has_running_segment(s2.tables.durations, line_id),
{
    let d2 = s2.tables.durations;
    if has_running_segment(d2, line_id) {
        let k = choose|k: int| 0 <= k < d2.len() && is_running_segment_of(#[trigger] d2[k], line_id);
        assert(is_running_segment_of(s.tables.durations[k], line_id));
    }
}

/// Stopping every running line returns exactly the live lines that had a
/// running segment, each once, and leaves each of them with its segments closed.
pub proof fn lemma_stop_all_returns_running_lines(
    s: SessionState,
    now: i64,
    s2: SessionState,
    r: Result<Vec<TrackerEntryLineViewDto>, AppError>,
    line_id: i64,
)
    requires
        s.inv(),
        s.advanced(now).stop_all_post(s2, r),
    ensures
        r is Ok,
        (s.tables.live_line(line_id) is Some && has_running_segment(s.tables.durations, line_id))
            <==> exists|j: int| 0 <= j < r->Ok_0@.len() && (#[trigger] r->Ok_0@[j]).id == line_id,
        forall|i: int, j: int|
            0 <= i < j < r->Ok_0@.len() ==> (#[trigger] r->Ok_0@[i]).id != (#[trigger] r->Ok_0@[j]).id,
        s.tables.live_line(line_id) is Some ==> !has_running_segment(s2.tables.durations, line_id),
{
    let t = s.tables;
    let v = r->Ok_0@;
    let keep = |l: crate::model::TrackerEntryLine| !l.is_deleted && has_running_segment(t.durations, l.id);
    let rl = running_lines(t);
    assert(rl == newest_first(t.lines, keep));
    if s.tables.live_line(line_id) is Some && has_running_segment(t.durations, line_id) {
        let x = t.lines[line_id - 1];
        lemma_newest_first_contains(t.lines, keep, x);
        let j = choose|j: int| 0 <= j < rl.len() && rl[j] == x;
        assert(v[j].id == line_id);
    }
    if exists|j: int| 0 <= j < v.len() && (#[trigger] v[j]).id == line_id {
        let j = choose|j: int| 0 <= j < v.len() && (#[trigger] v[j]).id == line_id;
        assert(rl.contains(rl[j]));
        lemma_newest_first_contains(t.lines, keep, rl[j]);
        let k = choose|k: int| 0 <= k < t.lines.len() && t.lines[k] == rl[j] && keep(rl[j]);
        assert(t.lines[k].id == k + 1);
    }
    lemma_newest_first_strictly_descends(t.lines, keep, |l: crate::model::TrackerEntryLine| l.id as int);
    if s.tables.live_line(line_id) is Some {
        lemma_stop_all_leaves_nothing_running(s, now, s2, r, line_id);
    }
}

} // verus!
