//! The projections handed to callers, and the requests they send.
use vstd::prelude::*;

use crate::model::{TrackerEntry, TrackerEntryLine, TrackerEntryLineDuration};

verus! {

/// Request to create a tracker; only `label` is used, the times are set by the service.
pub struct TrackerEntryCreateDto {
    pub label: String,
    pub created_at: i64,
    pub updated_at: i64,
}

/// A tracker as callers see it.
pub struct TrackerEntryViewDto {
    pub id: i64,
    pub label: String,
    pub created_at: i64,
    pub updated_at: i64,
}

/// Request to rename a tracker.
pub struct TrackerEntryUpdateDto {
    pub id: i64,
    pub label: String,
    pub updated_at: i64,
}

/// Request to delete a tracker and, with it, all its lines.
#[derive(Debug, Clone, Copy, PartialEq, Eq, Structural)]
pub struct TrackerEntryDeleteDto {
    pub id: i64,
}

/// Request to start a line under a tracker; `entry_id` and `desc` are used.
pub struct TrackerEntryLineCreateDto {
    pub entry_id: i64,
    pub desc: String,
    pub started_at: i64,
    pub created_at: i64,
    pub updated_at: i64,
}

/// A duration segment as callers see it.
#[derive(Debug, Clone, Copy, PartialEq, Eq, Structural)]
pub struct TrackerEntryLineDurationViewDto {
    pub id: i64,
    pub entry_line_id: i64,
    pub started_at: i64,
    pub ended_at: Option<i64>,
    pub created_at: i64,
    pub updated_at: i64,
}

/// A line as callers see it, with its live segments, newest first.
pub struct TrackerEntryLineViewDto {
    pub id: i64,
    pub entry_id: i64,
    pub desc: String,
    pub started_at: i64,
    pub ended_at: Option<i64>,
    pub created_at: i64,
    pub updated_at: i64,
    pub durations: Vec<TrackerEntryLineDurationViewDto>,
}

/// Request to edit a line; its description is what changes.
pub struct TrackerEntryLineUpdateDto {
    pub id: i64,
    pub entry_id: i64,
    pub desc: String,
    pub started_at: i64,
    pub ended_at: Option<i64>,
    pub updated_at: i64,
}

/// Request to remove a line.
#[derive(Debug, Clone, Copy, PartialEq, Eq, Structural)]
pub struct TrackerEntryLineDeleteDto {
    pub id: i64,
}

/// What callers see of tracker row `e`.
pub open spec fn entry_view(e: TrackerEntry) -> TrackerEntryViewDto {
    TrackerEntryViewDto {
        id: e.id,
        label: e.label,
        created_at: e.created_at,
        updated_at: e.updated_at,
    }
}

/// What callers see of each tracker row of `s`, in order.
pub open spec fn entry_views(s: Seq<TrackerEntry>) -> Seq<TrackerEntryViewDto> {
    s.map_values(|e: TrackerEntry| entry_view(e))
}

/// What callers see of segment row `d`.
pub open spec fn duration_view(d: TrackerEntryLineDuration) -> TrackerEntryLineDurationViewDto {
    TrackerEntryLineDurationViewDto {
        id: d.id,
        entry_line_id: d.entry_line_id,
        started_at: d.started_at,
        ended_at: d.ended_at,
        created_at: d.created_at,
        updated_at: d.updated_at,
    }
}

/// What callers see of each segment row of `s`, in order.
pub open spec fn duration_views(s: Seq<TrackerEntryLineDuration>) -> Seq<
    TrackerEntryLineDurationViewDto,
> {
    s.map_values(|d: TrackerEntryLineDuration| duration_view(d))
}

/// `v` shows the fields of `line` and exactly the segments `segs`, in that order.
pub open spec fn shows_line(
    v: TrackerEntryLineViewDto,
    line: TrackerEntryLine,
    segs: Seq<TrackerEntryLineDuration>,
) -> bool {
    &&& v.id == line.id
    &&& v.entry_id == line.entry_id
    &&& v.desc == line.desc
    &&& v.started_at == line.started_at
    &&& v.ended_at == line.ended_at
    &&& v.created_at == line.created_at
    &&& v.updated_at == line.updated_at
    &&& v.durations@ == duration_views(segs)
}

impl TrackerEntryLineDurationViewDto {
    /// Whether the segment is still running.
    pub open spec fn is_open(&self) -> bool {
        self.ended_at is None
    }
}

impl TrackerEntryViewDto {
    /// A field-by-field copy.
    pub fn copy(&self) -> (r: Self)
        ensures
            r == *self,
    {
        TrackerEntryViewDto {
            id: self.id,
            label: self.label.clone(),
            created_at: self.created_at,
            updated_at: self.updated_at,
        }
    }
}

impl From<TrackerEntry> for TrackerEntryViewDto {
    fn from(entry: TrackerEntry) -> (r: Self) {
        TrackerEntryViewDto {
            id: entry.id,
            label: entry.label,
            created_at: entry.created_at,
            updated_at: entry.updated_at,
        }
    }
}

impl vstd::std_specs::convert::FromSpecImpl<TrackerEntry> for TrackerEntryViewDto {
    open spec fn obeys_from_spec() -> bool {
        true
    }

    open spec fn from_spec(entry: TrackerEntry) -> Self {
        entry_view(entry)
    }
}

impl From<TrackerEntry> for TrackerEntryCreateDto {
    fn from(entry: TrackerEntry) -> (r: Self) {
        TrackerEntryCreateDto {
            label: entry.label,
            created_at: entry.created_at,
            updated_at: entry.updated_at,
        }
    }
}

impl vstd::std_specs::convert::FromSpecImpl<TrackerEntry> for TrackerEntryCreateDto {
    open spec fn obeys_from_spec() -> bool {
        true
    }

    open spec fn from_spec(entry: TrackerEntry) -> Self {
        TrackerEntryCreateDto {
            label: entry.label,
            created_at: entry.created_at,
            updated_at: entry.updated_at,
        }
    }
}

impl From<TrackerEntry> for TrackerEntryUpdateDto {
    fn from(entry: TrackerEntry) -> (r: Self) {
        TrackerEntryUpdateDto { id: entry.id, label: entry.label, updated_at: entry.updated_at }
    }
}

impl vstd::std_specs::convert::FromSpecImpl<TrackerEntry> for TrackerEntryUpdateDto {
    open spec fn obeys_from_spec() -> bool {
        true
    }

    open spec fn from_spec(entry: TrackerEntry) -> Self {
        TrackerEntryUpdateDto { id: entry.id, label: entry.label, updated_at: entry.updated_at }
    }
}

impl From<TrackerEntry> for TrackerEntryDeleteDto {
    fn from(entry: TrackerEntry) -> (r: Self) {
        TrackerEntryDeleteDto { id: entry.id }
    }
}

impl vstd::std_specs::convert::FromSpecImpl<TrackerEntry> for TrackerEntryDeleteDto {
    open spec fn obeys_from_spec() -> bool {
        true
    }

    open spec fn from_spec(entry: TrackerEntry) -> Self {
        TrackerEntryDeleteDto { id: entry.id }
    }
}

impl From<TrackerEntryLine> for TrackerEntryLineCreateDto {
    fn from(line: TrackerEntryLine) -> (r: Self) {
        TrackerEntryLineCreateDto {
            entry_id: line.entry_id,
            desc: line.desc,
            started_at: line.started_at,
            created_at: line.created_at,
            updated_at: line.updated_at,
        }
    }
}

impl vstd::std_specs::convert::FromSpecImpl<TrackerEntryLine> for TrackerEntryLineCreateDto {
    open spec fn obeys_from_spec() -> bool {
        true
    }

    open spec fn from_spec(line: TrackerEntryLine) -> Self {
        TrackerEntryLineCreateDto {
            entry_id: line.entry_id,
            desc: line.desc,
            started_at: line.started_at,
            created_at: line.created_at,
            updated_at: line.updated_at,
        }
    }
}

impl From<TrackerEntryLine> for TrackerEntryLineUpdateDto {
    fn from(line: TrackerEntryLine) -> (r: Self) {
        TrackerEntryLineUpdateDto {
            id: line.id,
            entry_id: line.entry_id,
            desc: line.desc,
            started_at: line.started_at,
            ended_at: line.ended_at,
            updated_at: line.updated_at,
        }
    }
}

impl vstd::std_specs::convert::FromSpecImpl<TrackerEntryLine> for TrackerEntryLineUpdateDto {
    open spec fn obeys_from_spec() -> bool {
        true
    }

    open spec fn from_spec(line: TrackerEntryLine) -> Self {
        TrackerEntryLineUpdateDto {
            id: line.id,
            entry_id: line.entry_id,
            desc: line.desc,
            started_at: line.started_at,
            ended_at: line.ended_at,
            updated_at: line.updated_at,
        }
    }
}

impl From<TrackerEntryLine> for TrackerEntryLineDeleteDto {
    fn from(line: TrackerEntryLine) -> (r: Self) {
        TrackerEntryLineDeleteDto { id: line.id }
    }
}

impl vstd::std_specs::convert::FromSpecImpl<TrackerEntryLine> for TrackerEntryLineDeleteDto {
    open spec fn obeys_from_spec() -> bool {
        true
    }

    open spec fn from_spec(line: TrackerEntryLine) -> Self {
        TrackerEntryLineDeleteDto { id: line.id }
    }
}

impl From<TrackerEntryLineDuration> for TrackerEntryLineDurationViewDto {
    fn from(d: TrackerEntryLineDuration) -> (r: Self) {
        TrackerEntryLineDurationViewDto {
            id: d.id,
            entry_line_id: d.entry_line_id,
            started_at: d.started_at,
            ended_at: d.ended_at,
            created_at: d.created_at,
            updated_at: d.updated_at,
        }
    }
}

impl vstd::std_specs::convert::FromSpecImpl<TrackerEntryLineDuration> for
    TrackerEntryLineDurationViewDto {
    open spec fn obeys_from_spec() -> bool {
        true
    }

    open spec fn from_spec(d: TrackerEntryLineDuration) -> Self {
        duration_view(d)
    }
}

/// How long segment `d` has run by time `now`: to its end, or to `now` while it runs.
pub open spec fn segment_elapsed(d: TrackerEntryLineDurationViewDto, now: i64) -> int {
    match d.ended_at {
        Some(e) => e - d.started_at,
        None => now - d.started_at,
    }
}

/// The summed running time of the segments `s` by time `now`.
pub open spec fn total_elapsed(s: Seq<TrackerEntryLineDurationViewDto>, now: i64) -> int
    decreases s.len(),
{
    if s.len() == 0 {
        0
    } else {
        total_elapsed(s.drop_last(), now) + segment_elapsed(s.last(), now)
    }
}

/// No segment of `s` ends, or is still running at `now`, before it started.
pub open spec fn segments_forward(s: Seq<TrackerEntryLineDurationViewDto>, now: i64) -> bool {
    forall|k: int| 0 <= k < s.len() ==> segment_elapsed(#[trigger] s[k], now) >= 0
}

proof fn lemma_total_elapsed_grows(s: Seq<TrackerEntryLineDurationViewDto>, now: i64, i: int)
    requires
        0 <= i <= s.len(),
        segments_forward(s, now),
    ensures
        total_elapsed(s.subrange(0, i), now) <= total_elapsed(s, now),
    decreases s.len() - i,
{
    if i < s.len() {
        lemma_total_elapsed_grows(s, now, i + 1);
        assert(s.subrange(0, i + 1).drop_last() =~= s.subrange(0, i));
        assert(s.subrange(0, i + 1).last() == s[i]);
    } else {
        assert(s.subrange(0, i) =~= s);
    }
}

/// Splits a number of seconds into whole hours, minutes past the hour and seconds
/// past the minute.
pub fn split_hms(seconds: i64) -> (r: (i64, i64, i64))
    requires
        seconds >= 0,
    ensures
        r.0 == seconds / 3600,
        r.1 == (seconds % 3600) / 60,
        r.2 == seconds % 60,
        r.0 * 3600 + r.1 * 60 + r.2 == seconds,
        0 <= r.1 < 60,
        0 <= r.2 < 60,
{
    let h = seconds / 3600;
    let m = (seconds % 3600) / 60;
    let s = seconds % 60;
    assert(h * 3600 + m * 60 + s == seconds) by (nonlinear_arith)
        requires
            h == seconds / 3600,
            m == (seconds % 3600) / 60,
            s == seconds % 60,
            seconds >= 0,
    ;
    (h, m, s)
}

impl TrackerEntryLineViewDto {
    /// A field-by-field copy.
    pub fn copy(&self) -> (r: Self)
        ensures
            r.id == self.id,
            r.entry_id == self.entry_id,
            r.desc == self.desc,
            r.started_at == self.started_at,
            r.ended_at == self.ended_at,
            r.created_at == self.created_at,
            r.updated_at == self.updated_at,
            r.durations@ == self.durations@,
    {
        let mut durations: Vec<TrackerEntryLineDurationViewDto> = Vec::new();
        let mut k: usize = 0;
        while k < self.durations.len()
            invariant
                k <= self.durations@.len(),
                durations@ == self.durations@.subrange(0, k as int),
            decreases self.durations@.len() - k,
        {
            durations.push(self.durations[k]);
            k += 1;
            assert(durations@ =~= self.durations@.subrange(0, k as int));
        }
        assert(self.durations@.subrange(0, self.durations@.len() as int) =~= self.durations@);
        TrackerEntryLineViewDto {
            id: self.id,
            entry_id: self.entry_id,
            desc: self.desc.clone(),
            started_at: self.started_at,
            ended_at: self.ended_at,
            created_at: self.created_at,
            updated_at: self.updated_at,
            durations,
        }
    }

    /// The view of `line` with no segments attached yet.
    pub fn from_line(line: TrackerEntryLine) -> (r: Self)
        ensures
            shows_line(r, line, Seq::empty()),
    {
        let r = TrackerEntryLineViewDto {
            id: line.id,
            entry_id: line.entry_id,
            desc: line.desc,
            started_at: line.started_at,
            ended_at: line.ended_at,
            created_at: line.created_at,
            updated_at: line.updated_at,
            durations: Vec::new(),
        };
        assert(r.durations@ =~= duration_views(Seq::empty()));
        r
    }

    /// The line's total running time in milliseconds by time `now`: the sum over
    /// its shown segments, a running one counted up to `now`. `None` when the sum
    /// does not fit an `i64`.
    pub fn elapsed_millis(&self, now: i64) -> (r: Option<i64>)
        requires
            segments_forward(self.durations@, now),
        ensures
            total_elapsed(self.durations@, now) <= i64::MAX ==> r == Some(
                total_elapsed(self.durations@, now) as i64,
            ),
            total_elapsed(self.durations@, now) > i64::MAX ==> r is None,
    {
        let ghost s = self.durations@;
        let mut total: i64 = 0;
        let mut k: usize = 0;
        while k < self.durations.len()
            invariant
                s == self.durations@,
                segments_forward(s, now),
                k <= s.len(),
                total == total_elapsed(s.subrange(0, k as int), now),
            decreases s.len() - k,
        {
            let d = self.durations[k];
            let end = match d.ended_at {
                Some(e) => e,
                None => now,
            };
            assert(segment_elapsed(s[k as int], now) >= 0);
            let step: i128 = end as i128 - d.started_at as i128;
            assert(s.subrange(0, k + 1).drop_last() =~= s.subrange(0, k as int));
            assert(s.subrange(0, k + 1).last() == s[k as int]);
            if total as i128 + step > i64::MAX as i128 {
                proof {
                    lemma_total_elapsed_grows(s, now, k + 1);
                }
                return None;
            }
            total = (total as i128 + step) as i64;
            k += 1;
        }
        assert(s.subrange(0, s.len() as int) =~= s);
        Some(total)
    }

    /// Whether one of the shown segments is still running.
    pub open spec fn spec_is_running(&self) -> bool {
        exists|k: int| 0 <= k < self.durations@.len() && #[trigger] self.durations@[k].is_open()
    }

    /// Whether one of the shown segments is still running.
    pub fn is_running(&self) -> (r: bool)
        ensures
            r == self.spec_is_running(),
    {
        let mut k: usize = 0;
        while k < self.durations.len()
            invariant
                k <= self.durations@.len(),
                forall|j: int| 0 <= j < k ==> !(#[trigger] self.durations@[j]).is_open(),
            decreases self.durations@.len() - k,
        {
            if self.durations[k].ended_at.is_none() {
                assert(self.durations@[k as int].is_open());
                return true;
            }
            k += 1;
        }
        false
    }
}

impl Default for TrackerEntryCreateDto {
    /// An empty label; the times are 0, as the service sets its own.
    fn default() -> (r: Self)
        ensures
            r.label@.len() == 0,
            r.created_at == 0,
            r.updated_at == 0,
    {
        let now: i64 = 0;
        TrackerEntryCreateDto { label: String::new(), created_at: now, updated_at: now }
    }
}

impl Default for TrackerEntryLineCreateDto {
    /// Tracker 0 and an empty description; the times are 0, as the service sets its own.
    fn default() -> (r: Self)
        ensures
            r.entry_id == 0,
            r.desc@.len() == 0,
            r.started_at == 0,
            r.created_at == 0,
            r.updated_at == 0,
    {
        let now: i64 = 0;
        TrackerEntryLineCreateDto {
            entry_id: 0,
            desc: String::new(),
            started_at: now,
            created_at: now,
            updated_at: now,
        }
    }
}

impl Default for TrackerEntryLineUpdateDto {
    /// Line 0, an empty description and no end; the times are 0.
    fn default() -> (r: Self)
        ensures
            r.id == 0,
            r.entry_id == 0,
            r.desc@.len() == 0,
            r.ended_at is None,
            r.started_at == 0,
            r.updated_at == 0,
    {
        let now: i64 = 0;
        TrackerEntryLineUpdateDto {
            id: 0,
            entry_id: 0,
            desc: String::new(),
            started_at: now,
            ended_at: None,
            updated_at: now,
        }
    }
}

} // verus!
