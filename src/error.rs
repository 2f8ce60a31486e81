//! The error taxonomy of the tracking service.
use vstd::prelude::*;

verus! {

/// The kind of stored row an error is about.
#[derive(Debug, Clone, Copy, PartialEq, Eq, Structural)]
pub enum EntityKind {
    Entry,
    Line,
    Duration,
}

/// A session-state rule that an operation would break.
#[derive(Debug, Clone, Copy, PartialEq, Eq, Structural)]
pub enum Violation {
    /// `stop` on a line whose segments are all closed.
    NoActiveDuration,
    /// `resume` on a line that already has an open segment.
    AlreadyActive,
    /// A segment that would start before a segment stored earlier.
    OutOfOrder,
}

/// What a tracking operation can fail with.
#[derive(Debug, Clone, Copy, PartialEq, Eq, Structural)]
pub enum AppError {
    /// The referenced id has no live row of that kind.
    NotFound(EntityKind, i64),
    /// The operation violates a session-state rule of the given line.
    ValidationError(Violation, i64),
    /// The storage could not take the row (its id space is used up).
    StorageFailure(EntityKind),
}

impl Violation {
    /// The text `message` returns.
    pub open spec fn spec_message(self) -> Seq<char> {
        match self {
            Violation::NoActiveDuration => "no active duration found for this line"@,
            Violation::AlreadyActive => "line already has an active duration"@,
            Violation::OutOfOrder => "duration would start before an earlier one"@,
        }
    }

    /// A human-readable statement of the rule.
    pub fn message(&self) -> (r: &'static str)
        ensures
            r@ == self.spec_message(),
    {
        match self {
            Violation::NoActiveDuration => "no active duration found for this line",
            Violation::AlreadyActive => "line already has an active duration",
            Violation::OutOfOrder => "duration would start before an earlier one",
        }
    }
}

} // verus!
