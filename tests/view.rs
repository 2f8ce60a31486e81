use time_tracker::{
    TrackerEntryLineDurationViewDto, TrackerEntryLineUpdateMessage, TrackerEntryLineViewDto,
    TrackerEntryUpdateMessage, TrackerEntryViewDto, TrackerView,
};

fn entry(id: i64, label: &str) -> TrackerEntryViewDto {
    TrackerEntryViewDto { id, label: label.to_string(), created_at: 1, updated_at: 1 }
}

fn line(id: i64, running: bool) -> TrackerEntryLineViewDto {
    let seg = TrackerEntryLineDurationViewDto {
        id: 1,
        entry_line_id: id,
        started_at: 5,
        ended_at: if running { None } else { Some(9) },
        created_at: 5,
        updated_at: 5,
    };
    TrackerEntryLineViewDto {
        id,
        entry_id: 1,
        desc: format!("line {id}"),
        started_at: 5,
        ended_at: None,
        created_at: 5,
        updated_at: 5,
        durations: vec![seg],
    }
}

#[test]
fn entry_updates_are_last_write_wins() {
    let mut v = TrackerView::new();
    v.apply_entry_update(TrackerEntryUpdateMessage::Created(entry(1, "a")));
    v.apply_entry_update(TrackerEntryUpdateMessage::Created(entry(2, "b")));
    v.apply_entry_update(TrackerEntryUpdateMessage::Updated(entry(1, "a2")));
    v.apply_entry_update(TrackerEntryUpdateMessage::Created(entry(2, "b2")));
    assert_eq!(v.tracker_entries.len(), 2);
    assert_eq!(v.tracker_entries[0].label, "a2");
    assert_eq!(v.tracker_entries[1].label, "b2");
}

#[test]
fn running_line_becomes_active_and_stopping_clears_it() {
    let mut v = TrackerView::new();
    v.apply_line_update(TrackerEntryLineUpdateMessage::Created(line(1, true)));
    assert_eq!(v.active_line, Some(1));
    v.apply_line_update(TrackerEntryLineUpdateMessage::Created(line(2, false)));
    assert_eq!(v.active_line, Some(1));
    v.apply_line_update(TrackerEntryLineUpdateMessage::Updated(line(1, false)));
    assert_eq!(v.active_line, None);
    assert_eq!(v.tracker_entry_lines.len(), 2);
    assert_eq!(v.tracker_entry_lines[0].durations[0].ended_at, Some(9));
}

#[test]
fn created_running_line_takes_the_pointer() {
    let mut v = TrackerView::new();
    v.apply_line_update(TrackerEntryLineUpdateMessage::Created(line(1, true)));
    v.apply_line_update(TrackerEntryLineUpdateMessage::Created(line(2, true)));
    assert_eq!(v.active_line, Some(2));
    // stopping a line that is not the active one leaves the pointer alone
    v.apply_line_update(TrackerEntryLineUpdateMessage::Updated(line(1, false)));
    assert_eq!(v.active_line, Some(2));
}

#[test]
fn update_of_another_running_line_keeps_the_pointer() {
    let mut v = TrackerView::new();
    v.apply_line_update(TrackerEntryLineUpdateMessage::Created(line(1, false)));
    v.apply_line_update(TrackerEntryLineUpdateMessage::Created(line(2, true)));
    v.apply_line_update(TrackerEntryLineUpdateMessage::Updated(line(1, true)));
    assert_eq!(v.active_line, Some(2));
    v.apply_line_update(TrackerEntryLineUpdateMessage::Updated(line(2, true)));
    assert_eq!(v.active_line, Some(2));
}

#[test]
fn selecting_needs_a_listed_tracker() {
    let mut v = TrackerView::new();
    assert!(!v.select_tracker(1));
    assert_eq!(v.selected_tracker_entry, None);
    v.apply_entry_update(TrackerEntryUpdateMessage::Created(entry(1, "a")));
    assert!(v.select_tracker(1));
    assert_eq!(v.selected_tracker_entry, Some(1));
}

#[test]
fn is_running_reads_segments() {
    assert!(line(1, true).is_running());
    assert!(!line(1, false).is_running());
}

#[test]
fn drain_folds_queued_events() {
    let (etx, mut erx) = tokio::sync::mpsc::unbounded_channel();
    let (ltx, mut lrx) = tokio::sync::mpsc::unbounded_channel();
    etx.send(TrackerEntryUpdateMessage::Created(entry(1, "a"))).unwrap();
    etx.send(TrackerEntryUpdateMessage::Updated(entry(1, "b"))).unwrap();
    ltx.send(TrackerEntryLineUpdateMessage::Created(line(3, true))).unwrap();
    let mut v = TrackerView::new();
    v.drain_updates(&mut erx, &mut lrx);
    assert_eq!(v.tracker_entries.len(), 1);
    assert_eq!(v.tracker_entries[0].label, "b");
    assert_eq!(v.active_line, Some(3));
    // nothing left: a second drain changes nothing
    v.drain_updates(&mut erx, &mut lrx);
    assert_eq!(v.tracker_entries.len(), 1);
    assert_eq!(v.tracker_entry_lines.len(), 1);
}
