use time_tracker::dto::split_hms;
use time_tracker::{
    TrackerEntryDeleteDto, TrackerEntryLineCreateDto, TrackerEntryLineDeleteDto, TrackerEntryUpdateDto,
    TrackerEntry, TrackerEntryCreateDto, TrackerEntryLine, TrackerEntryLineDuration,
    TrackerEntryLineDurationViewDto, TrackerEntryLineUpdateDto, TrackerEntryLineViewDto,
    TrackerEntryViewDto,
};

#[test]
fn constructors_set_the_fields() {
    let e = TrackerEntry::new(3, "Writing".to_string(), 1000);
    assert_eq!(e.id, 3);
    assert_eq!(e.label, "Writing");
    assert!(!e.is_deleted);
    assert_eq!((e.created_at, e.updated_at), (1000, 1000));
    let l = TrackerEntryLine::new(4, 3, "draft".to_string(), 17, Some(20), 1000);
    assert_eq!((l.id, l.entry_id, l.started_at, l.ended_at), (4, 3, 17, Some(20)));
    assert_eq!(l.desc, "draft");
    assert_eq!((l.created_at, l.updated_at), (1000, 1000));
    let d = TrackerEntryLineDuration::new(5, 4, 17, None, 1000);
    assert_eq!((d.id, d.entry_line_id, d.started_at, d.ended_at), (5, 4, 17, None));
    assert_eq!(d.created_at, 1000);
    assert!(!d.is_deleted);
}

#[test]
fn defaults_are_empty() {
    let c = TrackerEntryCreateDto::default();
    assert!(c.label.is_empty());
    assert_eq!((c.created_at, c.updated_at), (0, 0));
    let u = TrackerEntryLineUpdateDto::default();
    assert_eq!(u.id, 0);
    assert_eq!(u.ended_at, None);
}

#[test]
fn views_copy_the_fields() {
    let e = TrackerEntry { id: 2, label: "x".to_string(), created_at: 5, updated_at: 6, is_deleted: false };
    let v = TrackerEntryViewDto::from(e);
    assert_eq!((v.id, v.created_at, v.updated_at), (2, 5, 6));
    assert_eq!(v.label, "x");
    let d = TrackerEntryLineDuration {
        id: 7,
        entry_line_id: 2,
        started_at: 10,
        ended_at: Some(12),
        created_at: 10,
        updated_at: 12,
        is_deleted: false,
    };
    let dv = TrackerEntryLineDurationViewDto::from(d);
    assert_eq!((dv.id, dv.entry_line_id, dv.started_at, dv.ended_at), (7, 2, 10, Some(12)));
    let l = TrackerEntryLine::new(1, 2, "d".to_string(), 3, None, 0);
    let lv = TrackerEntryLineViewDto::from_line(l);
    assert_eq!(lv.desc, "d");
    assert!(lv.durations.is_empty());
}

fn seg(start: i64, end: Option<i64>) -> TrackerEntryLineDurationViewDto {
    TrackerEntryLineDurationViewDto {
        id: 1,
        entry_line_id: 1,
        started_at: start,
        ended_at: end,
        created_at: start,
        updated_at: start,
    }
}

#[test]
fn elapsed_sums_segments_with_now_for_the_running_one() {
    let mut v = TrackerEntryLineViewDto::from_line(TrackerEntryLine::new(1, 1, "d".to_string(), 0, None, 0));
    v.durations = vec![seg(100, None), seg(10, Some(40))];
    assert_eq!(v.elapsed_millis(150), Some(80));
    v.durations = vec![];
    assert_eq!(v.elapsed_millis(150), Some(0));
    v.durations = vec![seg(0, Some(i64::MAX)), seg(0, Some(1))];
    assert_eq!(v.elapsed_millis(0), None);
}

#[test]
fn split_hms_breaks_down_seconds() {
    assert_eq!(split_hms(3725), (1, 2, 5));
    assert_eq!(split_hms(0), (0, 0, 0));
    assert_eq!(split_hms(59), (0, 0, 59));
}

#[test]
fn requests_from_rows() {
    let e = TrackerEntry { id: 4, label: "x".to_string(), created_at: 5, updated_at: 6, is_deleted: false };
    let c = TrackerEntryCreateDto::from(e.copy());
    assert_eq!((c.label.as_str(), c.created_at, c.updated_at), ("x", 5, 6));
    let u = TrackerEntryUpdateDto::from(e.copy());
    assert_eq!((u.id, u.label.as_str(), u.updated_at), (4, "x", 6));
    assert_eq!(TrackerEntryDeleteDto::from(e), TrackerEntryDeleteDto { id: 4 });
    let l = TrackerEntryLine {
        id: 8,
        entry_id: 4,
        desc: "d".to_string(),
        started_at: 10,
        ended_at: Some(20),
        created_at: 10,
        updated_at: 20,
        is_deleted: false,
    };
    let lc = TrackerEntryLineCreateDto::from(l.copy());
    assert_eq!((lc.entry_id, lc.desc.as_str(), lc.started_at), (4, "d", 10));
    let lu = TrackerEntryLineUpdateDto::from(l.copy());
    assert_eq!((lu.id, lu.ended_at, lu.updated_at), (8, Some(20), 20));
    assert_eq!(TrackerEntryLineDeleteDto::from(l), TrackerEntryLineDeleteDto { id: 8 });
}
