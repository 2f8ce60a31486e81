use time_tracker::{
    AppError, EntityKind, TrackerEntryCreateDto, TrackerEntryDeleteDto, TrackerEntryLineCreateDto,
    TrackerEntryLineDeleteDto, TrackerEntryLineUpdateDto, TrackerEntryUpdateDto, TrackerService,
    Violation,
};

fn tracker(svc: &mut TrackerService, label: &str, now: i64) -> i64 {
    let dto = TrackerEntryCreateDto { label: label.to_string(), created_at: 0, updated_at: 0 };
    svc.create_tracker(dto, now).unwrap().id
}

fn start(svc: &mut TrackerService, entry_id: i64, desc: &str, now: i64) -> i64 {
    let dto = TrackerEntryLineCreateDto {
        entry_id,
        desc: desc.to_string(),
        started_at: 0,
        created_at: 0,
        updated_at: 0,
    };
    svc.start_tracking(dto, now).unwrap().id
}

#[test]
fn create_tracker_assigns_ids_and_times() {
    let mut svc = TrackerService::create_service();
    let dto = TrackerEntryCreateDto { label: "Writing".to_string(), created_at: 5, updated_at: 5 };
    let v = svc.create_tracker(dto, 1000).unwrap();
    assert_eq!(v.id, 1);
    assert_eq!(v.label, "Writing");
    assert_eq!(v.created_at, 1000);
    assert_eq!(v.updated_at, 1000);
    let id2 = tracker(&mut svc, "Reading", 2000);
    assert_eq!(id2, 2);
}

#[test]
fn empty_label_is_accepted() {
    let mut svc = TrackerService::create_service();
    let dto = TrackerEntryCreateDto { label: String::new(), created_at: 0, updated_at: 0 };
    let v = svc.create_tracker(dto, 10).unwrap();
    assert_eq!(v.label, "");
}

#[test]
fn get_trackers_newest_first() {
    let mut svc = TrackerService::create_service();
    tracker(&mut svc, "a", 10);
    tracker(&mut svc, "b", 20);
    tracker(&mut svc, "c", 30);
    let labels: Vec<String> = svc.get_trackers().unwrap().into_iter().map(|v| v.label).collect();
    assert_eq!(labels, vec!["c", "b", "a"]);
}

#[test]
fn get_trackers_twice_gives_identical_results() {
    let mut svc = TrackerService::create_service();
    tracker(&mut svc, "a", 10);
    tracker(&mut svc, "b", 10);
    let first = svc.get_trackers().unwrap();
    let second = svc.get_trackers().unwrap();
    assert_eq!(first.len(), second.len());
    for (x, y) in first.iter().zip(second.iter()) {
        assert_eq!(x.id, y.id);
        assert_eq!(x.label, y.label);
        assert_eq!(x.created_at, y.created_at);
        assert_eq!(x.updated_at, y.updated_at);
    }
}

#[test]
fn start_tracking_opens_first_segment() {
    let mut svc = TrackerService::create_service();
    let e = tracker(&mut svc, "Writing", 100);
    let dto = TrackerEntryLineCreateDto {
        entry_id: e,
        desc: "draft".to_string(),
        started_at: 0,
        created_at: 0,
        updated_at: 0,
    };
    let v = svc.start_tracking(dto, 200).unwrap();
    assert_eq!(v.id, 1);
    assert_eq!(v.entry_id, e);
    assert_eq!(v.desc, "draft");
    assert_eq!(v.started_at, 200);
    assert_eq!(v.durations.len(), 1);
    assert_eq!(v.durations[0].id, 1);
    assert_eq!(v.durations[0].entry_line_id, 1);
    assert_eq!(v.durations[0].started_at, 200);
    assert_eq!(v.durations[0].ended_at, None);
}

#[test]
fn start_tracking_on_unknown_tracker_is_not_found() {
    let mut svc = TrackerService::create_service();
    let dto = TrackerEntryLineCreateDto {
        entry_id: 7,
        desc: "x".to_string(),
        started_at: 0,
        created_at: 0,
        updated_at: 0,
    };
    let r = svc.start_tracking(dto, 1);
    assert_eq!(r.err(), Some(AppError::NotFound(EntityKind::Entry, 7)));
    assert!(svc.get_tracker_lines().unwrap().is_empty());
}

#[test]
fn resume_right_after_start_is_rejected() {
    let mut svc = TrackerService::create_service();
    let e = tracker(&mut svc, "Writing", 1);
    let l = start(&mut svc, e, "draft", 2);
    let r = svc.resume_tracking(l, 3);
    match r {
        Err(AppError::ValidationError(v, id)) => {
            assert_eq!(v, Violation::AlreadyActive);
            assert_eq!(id, l);
            assert!(v.message().contains("already has an active duration"));
        }
        _ => panic!("expected a validation error"),
    }
}

#[test]
fn stop_twice_is_rejected() {
    let mut svc = TrackerService::create_service();
    let e = tracker(&mut svc, "Writing", 1);
    let l = start(&mut svc, e, "draft", 2);
    assert!(svc.stop_tracking(l, 3).is_ok());
    let r = svc.stop_tracking(l, 4);
    assert_eq!(r.err(), Some(AppError::ValidationError(Violation::NoActiveDuration, l)));
    assert!(Violation::NoActiveDuration.message().contains("no active duration"));
}

#[test]
fn stop_unknown_line_is_not_found() {
    let mut svc = TrackerService::create_service();
    assert_eq!(svc.stop_tracking(3, 1).err(), Some(AppError::NotFound(EntityKind::Line, 3)));
    assert_eq!(svc.resume_tracking(3, 1).err(), Some(AppError::NotFound(EntityKind::Line, 3)));
}

#[test]
fn start_stop_round_trip() {
    let mut svc = TrackerService::create_service();
    let e = tracker(&mut svc, "Writing", 100);
    let l = start(&mut svc, e, "draft", 150);
    let stopped = svc.stop_tracking(l, 250).unwrap();
    assert_eq!(stopped.durations.len(), 1);
    assert_eq!(stopped.durations[0].ended_at, Some(250));
    let lines = svc.get_tracker_lines().unwrap();
    assert_eq!(lines.len(), 1);
    assert_eq!(lines[0].id, l);
    assert_eq!(lines[0].durations.len(), 1);
    let d = lines[0].durations[0];
    assert_eq!(d.started_at, 150);
    assert_eq!(d.ended_at, Some(250));
    assert!(d.ended_at.unwrap() - d.started_at >= 0);
}

#[test]
fn clock_never_runs_backwards() {
    let mut svc = TrackerService::create_service();
    let e = tracker(&mut svc, "Writing", 500);
    let l = start(&mut svc, e, "draft", 600);
    // a reading from before the segment started is moved up to the latest time used
    let stopped = svc.stop_tracking(l, 100).unwrap();
    assert_eq!(stopped.durations[0].ended_at, Some(600));
    assert_eq!(svc.clock(), 600);
}

#[test]
fn stop_then_resume_adds_a_segment_newest_first() {
    let mut svc = TrackerService::create_service();
    let e = tracker(&mut svc, "Writing", 1);
    let l = start(&mut svc, e, "draft", 10);
    svc.stop_tracking(l, 20).unwrap();
    let resumed = svc.resume_tracking(l, 30).unwrap();
    assert_eq!(resumed.durations.len(), 2);
    assert_eq!(resumed.durations[0].started_at, 30);
    assert_eq!(resumed.durations[0].ended_at, None);
    assert_eq!(resumed.durations[1].started_at, 10);
    assert_eq!(resumed.durations[1].ended_at, Some(20));
}

#[test]
fn at_most_one_running_segment_per_line() {
    let mut svc = TrackerService::create_service();
    let e = tracker(&mut svc, "Writing", 1);
    let l = start(&mut svc, e, "draft", 2);
    let _ = svc.resume_tracking(l, 3);
    let _ = svc.stop_tracking(l, 4);
    let _ = svc.stop_tracking(l, 5);
    let _ = svc.resume_tracking(l, 6);
    let _ = svc.resume_tracking(l, 7);
    for line in svc.get_tracker_lines().unwrap() {
        let open = line.durations.iter().filter(|d| d.ended_at.is_none()).count();
        assert!(open <= 1);
    }
}

#[test]
fn update_tracked_changes_description() {
    let mut svc = TrackerService::create_service();
    let e = tracker(&mut svc, "Writing", 1);
    let l = start(&mut svc, e, "draft", 2);
    let dto = TrackerEntryLineUpdateDto {
        id: l,
        entry_id: e,
        desc: "final".to_string(),
        started_at: 0,
        ended_at: None,
        updated_at: 0,
    };
    let v = svc.update_tracked(dto, 9).unwrap();
    assert_eq!(v.desc, "final");
    assert_eq!(v.updated_at, 9);
    assert_eq!(v.started_at, 2);
    assert_eq!(v.durations.len(), 1);
    assert_eq!(svc.find_line_row(l).unwrap().desc, "final");
}

#[test]
fn update_tracked_unknown_line_is_not_found() {
    let mut svc = TrackerService::create_service();
    let dto = TrackerEntryLineUpdateDto {
        id: 4,
        entry_id: 1,
        desc: "x".to_string(),
        started_at: 0,
        ended_at: None,
        updated_at: 0,
    };
    assert_eq!(svc.update_tracked(dto, 1).err(), Some(AppError::NotFound(EntityKind::Line, 4)));
}

#[test]
fn remove_tracked_hides_line() {
    let mut svc = TrackerService::create_service();
    let e = tracker(&mut svc, "Writing", 1);
    let l = start(&mut svc, e, "draft", 2);
    svc.remove_tracked(TrackerEntryLineDeleteDto { id: l }).unwrap();
    assert!(svc.get_tracker_lines().unwrap().is_empty());
    assert!(svc.find_line_row(l).unwrap().is_deleted);
    assert_eq!(
        svc.remove_tracked(TrackerEntryLineDeleteDto { id: l }).err(),
        Some(AppError::NotFound(EntityKind::Line, l))
    );
    assert_eq!(svc.stop_tracking(l, 3).err(), Some(AppError::NotFound(EntityKind::Line, l)));
}

#[test]
fn delete_tracker_cascades_to_lines() {
    let mut svc = TrackerService::create_service();
    let a = tracker(&mut svc, "a", 1);
    let b = tracker(&mut svc, "b", 2);
    let la1 = start(&mut svc, a, "a1", 3);
    let lb = start(&mut svc, b, "b1", 4);
    let la2 = start(&mut svc, a, "a2", 5);
    svc.delete_tracker(TrackerEntryDeleteDto { id: a }).unwrap();
    let trackers = svc.get_trackers().unwrap();
    assert_eq!(trackers.len(), 1);
    assert_eq!(trackers[0].id, b);
    let lines = svc.get_tracker_lines().unwrap();
    assert_eq!(lines.len(), 1);
    assert_eq!(lines[0].id, lb);
    let row = svc.find_entry_row(a).unwrap();
    assert!(row.is_deleted);
    assert_eq!(row.label, "a");
    assert!(svc.find_line_row(la1).unwrap().is_deleted);
    assert!(svc.find_line_row(la2).unwrap().is_deleted);
    assert!(!svc.find_line_row(lb).unwrap().is_deleted);
    assert_eq!(
        svc.delete_tracker(TrackerEntryDeleteDto { id: a }).err(),
        Some(AppError::NotFound(EntityKind::Entry, a))
    );
}

#[test]
fn stop_all_stops_every_running_line() {
    let mut svc = TrackerService::create_service();
    let a = tracker(&mut svc, "a", 1);
    let b = tracker(&mut svc, "b", 1);
    let la = start(&mut svc, a, "la", 2);
    let lb = start(&mut svc, b, "lb", 3);
    let stopped = svc.stop_all_active_tracking(10).unwrap();
    assert_eq!(stopped.len(), 2);
    assert_eq!(stopped[0].id, lb);
    assert_eq!(stopped[1].id, la);
    for line in &stopped {
        assert_eq!(line.durations[0].ended_at, Some(10));
    }
    for line in svc.get_tracker_lines().unwrap() {
        assert!(line.durations.iter().all(|d| d.ended_at.is_some()));
    }
}

#[test]
fn stop_all_skips_a_line_removed_out_of_band() {
    let mut svc = TrackerService::create_service();
    let a = tracker(&mut svc, "a", 1);
    let b = tracker(&mut svc, "b", 1);
    let la = start(&mut svc, a, "la", 2);
    let lb = start(&mut svc, b, "lb", 3);
    svc.remove_tracked(TrackerEntryLineDeleteDto { id: la }).unwrap();
    let stopped = svc.stop_all_active_tracking(10).unwrap();
    assert_eq!(stopped.len(), 1);
    assert_eq!(stopped[0].id, lb);
    assert_eq!(stopped[0].durations[0].ended_at, Some(10));
}

#[test]
fn stop_all_with_nothing_running_returns_nothing() {
    let mut svc = TrackerService::create_service();
    let a = tracker(&mut svc, "a", 1);
    let la = start(&mut svc, a, "la", 2);
    svc.stop_tracking(la, 3).unwrap();
    assert!(svc.stop_all_active_tracking(4).unwrap().is_empty());
}

#[test]
fn rename_tracker_changes_label_only() {
    let mut svc = TrackerService::create_service();
    let e = tracker(&mut svc, "Writing", 10);
    let dto = TrackerEntryUpdateDto { id: e, label: "Editing".to_string(), updated_at: 0 };
    let v = svc.rename_tracker(dto, 40).unwrap();
    assert_eq!(v.label, "Editing");
    assert_eq!(v.created_at, 10);
    assert_eq!(v.updated_at, 40);
    assert_eq!(svc.get_trackers().unwrap()[0].label, "Editing");
    let missing = TrackerEntryUpdateDto { id: 9, label: "x".to_string(), updated_at: 0 };
    assert_eq!(svc.rename_tracker(missing, 50).err(), Some(AppError::NotFound(EntityKind::Entry, 9)));
    let again = TrackerEntryUpdateDto { id: e, label: "Now".to_string(), updated_at: 0 };
    assert_eq!(svc.rename_tracker(again, 60).unwrap().label, "Now");
}

#[test]
fn lines_and_segments_listed_newest_first() {
    let mut svc = TrackerService::create_service();
    let e = tracker(&mut svc, "Writing", 1);
    let l1 = start(&mut svc, e, "one", 10);
    let l2 = start(&mut svc, e, "two", 20);
    svc.stop_tracking(l1, 30).unwrap();
    svc.resume_tracking(l1, 40).unwrap();
    let lines = svc.get_tracker_lines().unwrap();
    assert_eq!(lines.len(), 2);
    assert_eq!(lines[0].id, l2);
    assert_eq!(lines[1].id, l1);
    assert_eq!(lines[1].durations.len(), 2);
    assert_eq!(lines[1].durations[0].started_at, 40);
    assert_eq!(lines[1].durations[1].started_at, 10);
}

#[test]
fn remove_tracked_deletes_its_segments() {
    let mut svc = TrackerService::create_service();
    let e = tracker(&mut svc, "a", 1);
    let l = start(&mut svc, e, "la", 2);
    svc.remove_tracked(TrackerEntryLineDeleteDto { id: l }).unwrap();
    assert!(svc.repository().find_duration_row(1).unwrap().is_deleted);
    assert!(svc.stop_all_active_tracking(5).unwrap().is_empty());
}

#[test]
fn delete_tracker_deletes_segments_of_its_lines() {
    let mut svc = TrackerService::create_service();
    let a = tracker(&mut svc, "a", 1);
    let b = tracker(&mut svc, "b", 1);
    start(&mut svc, a, "la", 2);
    start(&mut svc, b, "lb", 3);
    svc.delete_tracker(TrackerEntryDeleteDto { id: a }).unwrap();
    assert!(svc.repository().find_duration_row(1).unwrap().is_deleted);
    assert!(!svc.repository().find_duration_row(2).unwrap().is_deleted);
}

#[test]
fn resume_starts_after_every_stored_end() {
    let mut svc = TrackerService::create_service();
    let e = tracker(&mut svc, "a", 1);
    let l = start(&mut svc, e, "la", 10);
    svc.stop_tracking(l, 50).unwrap();
    // an earlier reading cannot make the new segment overlap the closed one
    let r = svc.resume_tracking(l, 20).unwrap();
    assert_eq!(r.durations[0].started_at, 50);
    assert_eq!(r.durations[1].ended_at, Some(50));
}
