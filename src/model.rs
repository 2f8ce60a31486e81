//! The stored rows: trackers, their lines and the lines' duration segments.
use vstd::prelude::*;

verus! {

/// A named bucket of work.
pub struct TrackerEntry {
    pub id: i64,
    pub label: String,
    pub created_at: i64,
    pub updated_at: i64,
    pub is_deleted: bool,
}

/// One work session under a tracker.
pub struct TrackerEntryLine {
    pub id: i64,
    pub entry_id: i64,
    pub desc: String,
    pub started_at: i64,
    pub ended_at: Option<i64>,
    pub created_at: i64,
    pub updated_at: i64,
    pub is_deleted: bool,
}

/// A contiguous interval of work within a line; `ended_at == None` while it runs.
#[derive(Debug, Clone, Copy, PartialEq, Eq, Structural)]
pub struct TrackerEntryLineDuration {
    pub id: i64,
    pub entry_line_id: i64,
    pub started_at: i64,
    pub ended_at: Option<i64>,
    pub created_at: i64,
    pub updated_at: i64,
    pub is_deleted: bool,
}

impl TrackerEntry {
    /// A live tracker created at time `now`.
    pub fn new(id: i64, label: String, now: i64) -> (r: Self)
        ensures
            r.id == id,
            r.label == label,
            r.created_at == now,
            r.updated_at == now,
            !r.is_deleted,
    {
        TrackerEntry { id, label, created_at: now, updated_at: now, is_deleted: false }
    }

    /// A field-by-field copy.
    pub fn copy(&self) -> (r: Self)
        ensures
            r == *self,
    {
        TrackerEntry {
            id: self.id,
            label: self.label.clone(),
            created_at: self.created_at,
            updated_at: self.updated_at,
            is_deleted: self.is_deleted,
        }
    }
}

impl TrackerEntryLine {
    /// A live line created at time `now`.
    pub fn new(
        id: i64,
        entry_id: i64,
        desc: String,
        started_at: i64,
        ended_at: Option<i64>,
        now: i64,
    ) -> (r: Self)
        ensures
            r.id == id,
            r.entry_id == entry_id,
            r.desc == desc,
            r.started_at == started_at,
            r.ended_at == ended_at,
            r.created_at == now,
            r.updated_at == now,
            !r.is_deleted,
    {
        TrackerEntryLine {
            id,
            entry_id,
            desc,
            started_at,
            ended_at,
            created_at: now,
            updated_at: now,
            is_deleted: false,
        }
    }

    /// A field-by-field copy.
    pub fn copy(&self) -> (r: Self)
        ensures
            r == *self,
    {
        TrackerEntryLine {
            id: self.id,
            entry_id: self.entry_id,
            desc: self.desc.clone(),
            started_at: self.started_at,
            ended_at: self.ended_at,
            created_at: self.created_at,
            updated_at: self.updated_at,
            is_deleted: self.is_deleted,
        }
    }
}

impl TrackerEntryLineDuration {
    /// A live segment created at time `now`.
    pub fn new(
        id: i64,
        entry_line_id: i64,
        started_at: i64,
        ended_at: Option<i64>,
        now: i64,
    ) -> (r: Self)
        ensures
            r.id == id,
            r.entry_line_id == entry_line_id,
            r.started_at == started_at,
            r.ended_at == ended_at,
            r.created_at == now,
            r.updated_at == now,
            !r.is_deleted,
    {
        TrackerEntryLineDuration {
            id,
            entry_line_id,
            started_at,
            ended_at,
            created_at: now,
            updated_at: now,
            is_deleted: false,
        }
    }

    /// Whether this segment is still running.
    pub open spec fn is_open(&self) -> bool {
        self.ended_at is None
    }
}

} // verus!
