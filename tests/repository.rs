use time_tracker::{
    Violation, AppError, EntityKind, TrackerEntry, TrackerEntryLine, TrackerEntryLineDuration,
    TrackerRepository, TrackerService,
};

fn entry(id: i64, label: &str, t: i64) -> TrackerEntry {
    TrackerEntry { id, label: label.to_string(), created_at: t, updated_at: t, is_deleted: false }
}

fn line(id: i64, entry_id: i64, desc: &str, t: i64) -> TrackerEntryLine {
    TrackerEntryLine {
        id,
        entry_id,
        desc: desc.to_string(),
        started_at: t,
        ended_at: None,
        created_at: t,
        updated_at: t,
        is_deleted: false,
    }
}

fn seg(id: i64, line_id: i64, start: i64, end: Option<i64>) -> TrackerEntryLineDuration {
    TrackerEntryLineDuration {
        id,
        entry_line_id: line_id,
        started_at: start,
        ended_at: end,
        created_at: start,
        updated_at: start,
        is_deleted: false,
    }
}

#[test]
fn create_entry_assigns_next_id() {
    let mut repo = TrackerRepository::new();
    let a = repo.create_entry(entry(99, "a", 1)).unwrap();
    let b = repo.create_entry(entry(99, "b", 2)).unwrap();
    assert_eq!(a.id, 1);
    assert_eq!(b.id, 2);
    assert_eq!(b.label, "b");
    assert_eq!(repo.entry_count(), 2);
}

#[test]
fn get_entry_skips_deleted_rows() {
    let mut repo = TrackerRepository::new();
    let a = repo.create_entry(entry(0, "a", 1)).unwrap();
    assert_eq!(repo.get_entry(a.id).unwrap().label, "a");
    repo.delete_entry(&a).unwrap();
    assert!(repo.get_entry(a.id).is_none());
    assert!(repo.find_entry_row(a.id).unwrap().is_deleted);
    assert!(repo.get_entry(0).is_none());
    assert!(repo.get_entry(5).is_none());
    assert!(repo.get_all_entries().is_empty());
}

#[test]
fn update_entry_changes_label_and_time() {
    let mut repo = TrackerRepository::new();
    let a = repo.create_entry(entry(0, "a", 1)).unwrap();
    let mut changed = a.copy();
    changed.label = "renamed".to_string();
    changed.updated_at = 50;
    changed.created_at = 777;
    let r = repo.update_entry(&changed).unwrap();
    assert_eq!(r.label, "renamed");
    assert_eq!(r.updated_at, 50);
    assert_eq!(r.created_at, 1);
    let missing = entry(9, "x", 1);
    assert_eq!(repo.update_entry(&missing).err(), Some(AppError::NotFound(EntityKind::Entry, 9)));
}

#[test]
fn lines_for_entry_newest_first() {
    let mut repo = TrackerRepository::new();
    let a = repo.create_entry(entry(0, "a", 1)).unwrap();
    let b = repo.create_entry(entry(0, "b", 1)).unwrap();
    repo.create_entry_line(line(0, a.id, "a1", 2)).unwrap();
    repo.create_entry_line(line(0, b.id, "b1", 3)).unwrap();
    repo.create_entry_line(line(0, a.id, "a2", 4)).unwrap();
    let descs: Vec<String> = repo.get_lines_for_entry(&a).into_iter().map(|l| l.desc).collect();
    assert_eq!(descs, vec!["a2", "a1"]);
    let all: Vec<i64> = repo.get_all_entry_lines().into_iter().map(|l| l.id).collect();
    assert_eq!(all, vec![3, 2, 1]);
    repo.delete_lines_for_entry(&a).unwrap();
    assert!(repo.get_lines_for_entry(&a).is_empty());
    assert_eq!(repo.get_all_entry_lines().len(), 1);
}

#[test]
fn update_and_delete_line() {
    let mut repo = TrackerRepository::new();
    let l = repo.create_entry_line(line(0, 1, "x", 2)).unwrap();
    let mut changed = l.copy();
    changed.desc = "y".to_string();
    changed.updated_at = 9;
    let r = repo.update_entry_line(&changed).unwrap();
    assert_eq!(r.desc, "y");
    assert_eq!(repo.get_entry_line(l.id).unwrap().updated_at, 9);
    repo.delete_entry_line(&l).unwrap();
    assert!(repo.get_entry_line(l.id).is_none());
    assert!(repo.find_line_row(l.id).unwrap().is_deleted);
    let missing = line(4, 1, "z", 1);
    assert_eq!(repo.update_entry_line(&missing).err(), Some(AppError::NotFound(EntityKind::Line, 4)));
}

#[test]
fn durations_of_a_line_newest_first() {
    let mut repo = TrackerRepository::new();
    let l1 = repo.create_entry_line(line(0, 1, "x", 1)).unwrap();
    let l2 = repo.create_entry_line(line(0, 1, "y", 1)).unwrap();
    repo.create_line_duration(seg(0, l1.id, 10, Some(20))).unwrap();
    repo.create_line_duration(seg(0, l2.id, 15, None)).unwrap();
    let d3 = repo.create_line_duration(seg(0, l1.id, 30, None)).unwrap();
    assert_eq!(d3.id, 3);
    let ds = repo.get_line_durations(&l1);
    assert_eq!(ds.len(), 2);
    assert_eq!(ds[0].started_at, 30);
    assert_eq!(ds[1].started_at, 10);
    let mut closed = d3;
    closed.ended_at = Some(40);
    closed.updated_at = 40;
    let u = repo.update_line_duration(&closed).unwrap();
    assert_eq!(u.ended_at, Some(40));
    repo.delete_line_duration(&u).unwrap();
    assert_eq!(repo.get_line_durations(&l1).len(), 1);
    assert!(repo.find_duration_row(3).unwrap().is_deleted);
    assert_eq!(
        repo.update_line_duration(&seg(8, 1, 0, None)).err(),
        Some(AppError::NotFound(EntityKind::Duration, 8))
    );
}

#[test]
fn from_rows_requires_dense_ids() {
    let ok = TrackerRepository::from_rows(
        vec![entry(1, "a", 1), entry(2, "b", 2)],
        vec![line(1, 1, "x", 3)],
        vec![seg(1, 1, 3, Some(4))],
    );
    assert!(ok.is_some());
    let gap = TrackerRepository::from_rows(vec![entry(1, "a", 1), entry(3, "b", 2)], vec![], vec![]);
    assert!(gap.is_none());
}

#[test]
fn restore_checks_rows_and_sets_clock() {
    let repo = TrackerRepository::from_rows(
        vec![entry(1, "a", 1)],
        vec![line(1, 1, "x", 3)],
        vec![seg(1, 1, 3, Some(4)), seg(2, 1, 7, None)],
    )
    .unwrap();
    let svc = TrackerService::restore(repo).unwrap();
    assert_eq!(svc.clock(), 7);
    let lines = svc.get_tracker_lines().unwrap();
    assert_eq!(lines.len(), 1);
    assert_eq!(lines[0].durations.len(), 2);
    assert_eq!(svc.repository().duration_count(), 2);
}

#[test]
fn restore_rejects_two_running_segments() {
    let repo = TrackerRepository::from_rows(
        vec![entry(1, "a", 1)],
        vec![line(1, 1, "x", 3)],
        vec![seg(1, 1, 3, None), seg(2, 1, 7, None)],
    )
    .unwrap();
    assert!(TrackerService::restore(repo).is_none());
}

#[test]
fn restore_rejects_backwards_segment_and_dangling_line() {
    let back = TrackerRepository::from_rows(vec![], vec![line(1, 1, "x", 3)], vec![seg(1, 1, 9, Some(4))]).unwrap();
    assert!(TrackerService::restore(back).is_none());
    let dangling = TrackerRepository::from_rows(vec![], vec![line(1, 1, "x", 3)], vec![seg(1, 2, 1, None)]).unwrap();
    assert!(TrackerService::restore(dangling).is_none());
}

#[test]
fn segments_must_be_stored_in_start_order() {
    let mut repo = TrackerRepository::new();
    repo.create_line_duration(seg(0, 1, 50, None)).unwrap();
    assert_eq!(
        repo.create_line_duration(seg(0, 2, 40, None)).err(),
        Some(AppError::ValidationError(Violation::OutOfOrder, 2))
    );
    let second = repo.create_line_duration(seg(0, 1, 60, Some(70))).unwrap();
    let mut moved = seg(1, 1, 65, None);
    moved.id = 1;
    assert_eq!(repo.update_line_duration(&moved).err(), Some(AppError::ValidationError(Violation::OutOfOrder, 1)));
    let mut later = second;
    later.started_at = 55;
    assert_eq!(repo.update_line_duration(&later).unwrap().started_at, 55);
    let unordered = TrackerRepository::from_rows(vec![], vec![], vec![seg(1, 1, 9, None), seg(2, 1, 3, None)]);
    assert!(unordered.is_none());
}

#[test]
fn restore_takes_segment_ends_into_the_clock() {
    let repo = TrackerRepository::from_rows(
        vec![entry(1, "a", 1)],
        vec![line(1, 1, "x", 3)],
        vec![seg(1, 1, 3, Some(90))],
    )
    .unwrap();
    let svc = TrackerService::restore(repo).unwrap();
    assert_eq!(svc.clock(), 90);
}
