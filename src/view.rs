//! The observer side of update propagation: the single authoritative view that
//! folds "created"/"updated" events into the lists a reader shows, last write
//! winning per id, and keeps the currently active line.
use vstd::prelude::*;

use tokio::sync::mpsc::UnboundedReceiver;

use crate::dto::{TrackerEntryLineViewDto, TrackerEntryViewDto};

verus! {

/// tokio's unbounded mailbox receiver, carried opaquely.
#[verifier::external_type_specification]
#[verifier::external_body]
#[verifier::reject_recursive_types(T)]
pub struct ExUnboundedReceiver<T>(UnboundedReceiver<T>);

/// Relies on tokio's `UnboundedReceiver::len`: the number of messages queued at
/// the moment of the call. Senders on other tasks may add more at any time, so
/// nothing is promised of the value.
#[verifier::external_body]
fn queued_count<T>(rx: &UnboundedReceiver<T>) -> usize {
    rx.len()
}

/// Relies on tokio's `UnboundedReceiver::try_recv`: takes the next queued
/// message without waiting; `None` when the queue is empty or closed.
#[verifier::external_body]
fn try_receive<T>(rx: &mut UnboundedReceiver<T>) -> Option<T> {
    rx.try_recv().ok()
}

/// An event about a tracker.
pub enum TrackerEntryUpdateMessage {
    Created(TrackerEntryViewDto),
    Updated(TrackerEntryViewDto),
}

/// An event about a line.
pub enum TrackerEntryLineUpdateMessage {
    Created(TrackerEntryLineViewDto),
    Updated(TrackerEntryLineViewDto),
}

impl TrackerEntryUpdateMessage {
    /// The tracker the event carries.
    pub open spec fn entry(self) -> TrackerEntryViewDto {
        match self {
            TrackerEntryUpdateMessage::Created(e) => e,
            TrackerEntryUpdateMessage::Updated(e) => e,
        }
    }
}

impl TrackerEntryLineUpdateMessage {
    /// The line the event carries.
    pub open spec fn line(self) -> TrackerEntryLineViewDto {
        match self {
            TrackerEntryLineUpdateMessage::Created(l) => l,
            TrackerEntryLineUpdateMessage::Updated(l) => l,
        }
    }
}

/// No two trackers of `s` share an id.
pub open spec fn entry_ids_unique(s: Seq<TrackerEntryViewDto>) -> bool {
    forall|i: int, j: int|
        0 <= i < s.len() && 0 <= j < s.len() && (#[trigger] s[i]).id == (#[trigger] s[j]).id
            ==> i == j
}

/// No two lines of `s` share an id.
pub open spec fn line_ids_unique(s: Seq<TrackerEntryLineViewDto>) -> bool {
    forall|i: int, j: int|
        0 <= i < s.len() && 0 <= j < s.len() && (#[trigger] s[i]).id == (#[trigger] s[j]).id
            ==> i == j
}

/// `s` holds a tracker with id `id`.
pub open spec fn lists_entry(s: Seq<TrackerEntryViewDto>, id: i64) -> bool {
    exists|i: int| 0 <= i < s.len() && (#[trigger] s[i]).id == id
}

/// `s` holds a line with id `id`.
pub open spec fn lists_line(s: Seq<TrackerEntryLineViewDto>, id: i64) -> bool {
    exists|i: int| 0 <= i < s.len() && (#[trigger] s[i]).id == id
}

/// `s` with `v` in place of the tracker of the same id, or `v` appended if there is none.
pub open spec fn upsert_entry(s: Seq<TrackerEntryViewDto>, v: TrackerEntryViewDto) -> Seq<
    TrackerEntryViewDto,
> {
    if lists_entry(s, v.id) {
        Seq::new(
            s.len(),
            |i: int|
                if s[i].id == v.id {
                    v
                } else {
                    s[i]
                },
        )
    } else {
        s.push(v)
    }
}

/// `s` with `v` in place of the line of the same id, or `v` appended if there is none.
pub open spec fn upsert_line(s: Seq<TrackerEntryLineViewDto>, v: TrackerEntryLineViewDto) -> Seq<
    TrackerEntryLineViewDto,
> {
    if lists_line(s, v.id) {
        Seq::new(
            s.len(),
            |i: int|
                if s[i].id == v.id {
                    v
                } else {
                    s[i]
                },
        )
    } else {
        s.push(v)
    }
}

/// The active line after event `msg`: a created line takes the pointer if it is
/// running; an update of the active line keeps it while the line runs and clears
/// it once the line stops; any other event leaves the pointer as it is.
pub open spec fn next_active(active: Option<i64>, msg: TrackerEntryLineUpdateMessage) -> Option<
    i64,
> {
    match msg {
        TrackerEntryLineUpdateMessage::Created(v) => if v.spec_is_running() {
            Some(v.id)
        } else {
            active
        },
        TrackerEntryLineUpdateMessage::Updated(v) => if active == Some(v.id) && !v.spec_is_running() {
            None
        } else {
            active
        },
    }
}

/// Where the tracker with id `id` stands in `s`.
fn position_of_entry(s: &Vec<TrackerEntryViewDto>, id: i64) -> (r: Option<usize>)
    ensures
        r matches Some(i) ==> i < s@.len() && s@[i as int].id == id,
        r is None ==> !lists_entry(s@, id),
{
    let mut i: usize = 0;
    while i < s.len()
        invariant
            i <= s@.len(),
            forall|j: int| 0 <= j < i ==> (#[trigger] s@[j]).id != id,
        decreases s@.len() - i,
    {
        if s[i].id == id {
            return Some(i);
        }
        i += 1;
    }
    None
}

/// Where the line with id `id` stands in `s`.
fn position_of_line(s: &Vec<TrackerEntryLineViewDto>, id: i64) -> (r: Option<usize>)
    ensures
        r matches Some(i) ==> i < s@.len() && s@[i as int].id == id,
        r is None ==> !lists_line(s@, id),
{
    let mut i: usize = 0;
    while i < s.len()
        invariant
            i <= s@.len(),
            forall|j: int| 0 <= j < i ==> (#[trigger] s@[j]).id != id,
        decreases s@.len() - i,
    {
        if s[i].id == id {
            return Some(i);
        }
        i += 1;
    }
    None
}

/// The reader's view of the trackers and lines.
pub struct TrackerView {
    pub tracker_entries: Vec<TrackerEntryViewDto>,
    pub tracker_entry_lines: Vec<TrackerEntryLineViewDto>,
    pub selected_tracker_entry: Option<i64>,
    pub active_line: Option<i64>,
}

impl TrackerView {
    /// Each id listed once; the active line and the selected tracker, if any,
    /// are listed.
    pub open spec fn wf(&self) -> bool {
        &&& entry_ids_unique(self.tracker_entries@)
        &&& line_ids_unique(self.tracker_entry_lines@)
        &&& self.active_line matches Some(id) ==> lists_line(self.tracker_entry_lines@, id)
        &&& self.selected_tracker_entry matches Some(id) ==> lists_entry(self.tracker_entries@, id)
    }

    /// An empty view.
    pub fn new() -> (r: Self)
        ensures
            r.wf(),
            r.tracker_entries@.len() == 0,
            r.tracker_entry_lines@.len() == 0,
            r.selected_tracker_entry is None,
            r.active_line is None,
    {
        TrackerView {
            tracker_entries: Vec::new(),
            tracker_entry_lines: Vec::new(),
            selected_tracker_entry: None,
            active_line: None,
        }
    }

    /// Folds one tracker event into the view.
    pub fn apply_entry_update(&mut self, msg: TrackerEntryUpdateMessage)
        requires
            old(self).wf(),
        ensures
            final(self).wf(),
            final(self).tracker_entries@ == upsert_entry(old(self).tracker_entries@, msg.entry()),
            final(self).tracker_entry_lines@ == old(self).tracker_entry_lines@,
            final(self).selected_tracker_entry == old(self).selected_tracker_entry,
            final(self).active_line == old(self).active_line,
    {
        let v = match msg {
            TrackerEntryUpdateMessage::Created(e) => e,
            TrackerEntryUpdateMessage::Updated(e) => e,
        };
        let ghost vv = v;
        let ghost s = self.tracker_entries@;
        let id = v.id;
        let pos = position_of_entry(&self.tracker_entries, id);
        match pos {
            Some(i) => {
                self.tracker_entries[i] = v;
            },
            None => {
                self.tracker_entries.push(v);
            },
        }
        proof {
            let ns = self.tracker_entries@;
            assert(ns =~= upsert_entry(s, vv));
            assert forall|a: int, b: int|
                0 <= a < ns.len() && 0 <= b < ns.len() && (#[trigger] ns[a]).id == (
                #[trigger] ns[b]).id implies a == b by {
                if a < s.len() && b < s.len() && s[a].id != id && s[b].id != id {
                    assert(s[a] == ns[a] && s[b] == ns[b]);
                } else if a < s.len() && s[a].id != id {
                    assert(s[a] == ns[a]);
                } else if b < s.len() && s[b].id != id {
                    assert(s[b] == ns[b]);
                }
            }
            if let Some(sid) = self.selected_tracker_entry {
                let k = choose|k: int| 0 <= k < s.len() && (#[trigger] s[k]).id == sid;
                assert(ns[k].id == sid);
            }
        }
    }

    /// Folds one line event into the view.
    pub fn apply_line_update(&mut self, msg: TrackerEntryLineUpdateMessage)
        requires
            old(self).wf(),
        ensures
            final(self).wf(),
            final(self).tracker_entry_lines@ == upsert_line(
                old(self).tracker_entry_lines@,
                msg.line(),
            ),
            final(self).active_line == next_active(old(self).active_line, msg),
            final(self).tracker_entries@ == old(self).tracker_entries@,
            final(self).selected_tracker_entry == old(self).selected_tracker_entry,
    {
        let (v, created) = match msg {
            TrackerEntryLineUpdateMessage::Created(l) => (l, true),
            TrackerEntryLineUpdateMessage::Updated(l) => (l, false),
        };
        let ghost vv = v;
        let ghost s = self.tracker_entry_lines@;
        let running = v.is_running();
        let id = v.id;
        let pos = position_of_line(&self.tracker_entry_lines, id);
        match pos {
            Some(i) => {
                self.tracker_entry_lines[i] = v;
            },
            None => {
                self.tracker_entry_lines.push(v);
            },
        }
        if created {
            if running {
                self.active_line = Some(id);
            }
        } else if self.active_line == Some(id) && !running {
            self.active_line = None;
        }
        proof {
            let ns = self.tracker_entry_lines@;
            assert(ns =~= upsert_line(s, vv));
            assert forall|a: int, b: int|
                0 <= a < ns.len() && 0 <= b < ns.len() && (#[trigger] ns[a]).id == (
                #[trigger] ns[b]).id implies a == b by {
                if a < s.len() && b < s.len() && s[a].id != id && s[b].id != id {
                    assert(s[a] == ns[a] && s[b] == ns[b]);
                } else if a < s.len() && s[a].id != id {
                    assert(s[a] == ns[a]);
                } else if b < s.len() && s[b].id != id {
                    assert(s[b] == ns[b]);
                }
            }
            if let Some(aid) = self.active_line {
                if aid == id {
                    let k = match pos {
                        Some(i) => i as int,
                        None => s.len() as int,
                    };
                    assert(ns[k] == vv);
                } else {
                    let k = choose|k: int| 0 <= k < s.len() && (#[trigger] s[k]).id == aid;
                    assert(ns[k] == s[k]);
                }
            }
        }
    }

    /// Selects tracker `id` if the view lists it; reports whether it did.
    pub fn select_tracker(&mut self, id: i64) -> (r: bool)
        requires
            old(self).wf(),
        ensures
            final(self).wf(),
            r == lists_entry(old(self).tracker_entries@, id),
            final(self).selected_tracker_entry == if r {
                Some(id)
            } else {
                old(self).selected_tracker_entry
            },
            final(self).tracker_entries@ == old(self).tracker_entries@,
            final(self).tracker_entry_lines@ == old(self).tracker_entry_lines@,
            final(self).active_line == old(self).active_line,
    {
        match position_of_entry(&self.tracker_entries, id) {
            Some(i) => {
                self.selected_tracker_entry = Some(id);
                true
            },
            None => false,
        }
    }

    /// Folds, in arrival order, the events that were queued on `entries` and on
    /// `lines` when the call began; events sent meanwhile wait for the next call.
    pub fn drain_updates(
        &mut self,
        entries: &mut UnboundedReceiver<TrackerEntryUpdateMessage>,
        lines: &mut UnboundedReceiver<TrackerEntryLineUpdateMessage>,
    )
        requires
            old(self).wf(),
        ensures
            final(self).wf(),
    {
        let n = queued_count(entries);
        let mut i: usize = 0;
        while i < n
            invariant
                self.wf(),
            decreases n - i,
        {
            match try_receive(entries) {
                Some(msg) => self.apply_entry_update(msg),
                None => break,
            }
            i += 1;
        }
        let m = queued_count(lines);
        let mut j: usize = 0;
        while j < m
            invariant
                self.wf(),
            decreases m - j,
        {
            match try_receive(lines) {
                Some(msg) => self.apply_line_update(msg),
                None => break,
            }
            j += 1;
        }
    }
}

} // verus!
