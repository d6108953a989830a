use chrono::{DateTime, FixedOffset};
use reservation::{
    Reservation, ReservationError, ReservationFilter, ReservationManager, ReservationQuery,
    ReservationStatus, Timestamp,
};

fn ts(text: &str) -> Timestamp {
    let dt: DateTime<FixedOffset> = text.parse().unwrap();
    Timestamp::new(dt.timestamp(), dt.timestamp_subsec_nanos() as i32)
}

fn pending(uid: &str, rid: &str, start: &str, end: &str) -> Reservation {
    Reservation::new_pending(uid, rid, ts(start), ts(end), "note")
}

#[test]
fn overlapping_windows_on_one_resource_never_both_stand() {
    let mut m = ReservationManager::new();
    m.reserve(pending("a", "r", "2022-12-24T12:00:00-0700", "2022-12-28T12:00:00-0700"))
        .unwrap();
    // overlapping on the left, on the right, inside, around: all refused
    for (s, e) in [
        ("2022-12-23T12:00:00-0700", "2022-12-25T12:00:00-0700"),
        ("2022-12-27T12:00:00-0700", "2022-12-29T12:00:00-0700"),
        ("2022-12-25T12:00:00-0700", "2022-12-26T12:00:00-0700"),
        ("2022-12-20T12:00:00-0700", "2022-12-30T12:00:00-0700"),
    ] {
        let err = m.reserve(pending("b", "r", s, e)).unwrap_err();
        assert!(matches!(err, ReservationError::ConflictReservation(_)));
    }
    // touching windows, another resource, and an empty window are all accepted
    assert_eq!(
        m.reserve(pending("b", "r", "2022-12-28T12:00:00-0700", "2022-12-29T12:00:00-0700"))
            .unwrap()
            .id,
        2
    );
    assert!(m
        .reserve(pending("b", "other", "2022-12-25T12:00:00-0700", "2022-12-26T12:00:00-0700"))
        .is_ok());
    assert!(m
        .reserve(pending("b", "r", "2022-12-25T12:00:00-0700", "2022-12-25T12:00:00-0700"))
        .is_ok());
}

#[test]
fn reserve_then_get_returns_the_stored_record() {
    let mut m = ReservationManager::new();
    let mut request = pending("u", "r", "2022-11-20T12:00:00-0700", "2022-11-22T12:00:00-0700");
    request.status = ReservationStatus::Unknown;
    request.id = 42;
    let stored = m.reserve(request.clone()).unwrap();
    assert_eq!(stored.id, 1);
    assert_eq!(stored.status, ReservationStatus::Pending);
    assert_eq!(stored.user_id, request.user_id);
    assert_eq!(stored.start, request.start);
    assert_eq!(stored.note, request.note);
    assert_eq!(m.get(stored.id).unwrap(), stored);
}

#[test]
fn confirming_twice_succeeds_both_times() {
    let mut m = ReservationManager::new();
    let r = m
        .reserve(pending("u", "r", "2022-11-20T12:00:00-0700", "2022-11-22T12:00:00-0700"))
        .unwrap();
    let once = m.change_status(r.id).unwrap();
    let twice = m.change_status(r.id).unwrap();
    assert_eq!(once.status, ReservationStatus::Confirmed);
    assert_eq!(twice, once);
    assert_eq!(m.get(r.id).unwrap(), once);
}

#[test]
fn deleting_twice_reports_not_found() {
    let mut m = ReservationManager::new();
    let r = m
        .reserve(pending("u", "r", "2022-11-20T12:00:00-0700", "2022-11-22T12:00:00-0700"))
        .unwrap();
    assert_eq!(m.delete(r.id), Ok(()));
    assert_eq!(m.delete(r.id), Err(ReservationError::ReservationNotFound(r.id)));
    assert_eq!(m.get(r.id), Err(ReservationError::ReservationNotFound(r.id)));
}

#[test]
fn unrelated_insert_leaves_filter_pages_unchanged() {
    let mut m = ReservationManager::new();
    for day in 10..15 {
        let s = format!("2022-11-{day}T00:00:00+0000");
        let e = format!("2022-11-{day}T12:00:00+0000");
        m.reserve(pending("alice", "r", &s, &e)).unwrap();
    }
    let f = ReservationFilter::new("alice", "", ReservationStatus::Unknown, 2, false, 2);
    let before = m.filter(f.clone()).unwrap();
    assert_eq!(before.iter().map(|r| r.id).collect::<Vec<_>>(), vec![3, 4]);
    m.reserve(pending("bob", "r", "2022-11-20T00:00:00+0000", "2022-11-21T00:00:00+0000"))
        .unwrap();
    assert_eq!(m.filter(f).unwrap(), before);
    let desc = ReservationFilter::new("alice", "", ReservationStatus::Unknown, 0, true, 2);
    let ids: Vec<i64> = m.filter(desc).unwrap().iter().map(|r| r.id).collect();
    assert_eq!(ids, vec![5, 4]);
    let desc_after = ReservationFilter::new("alice", "", ReservationStatus::Unknown, 4, true, 10);
    let ids: Vec<i64> = m.filter(desc_after).unwrap().iter().map(|r| r.id).collect();
    assert_eq!(ids, vec![3, 2, 1]);
    // only a cursor of zero starts from the top: below any id there is nothing
    let negative = ReservationFilter::new("alice", "", ReservationStatus::Unknown, -1, true, 10);
    assert!(m.filter(negative).unwrap().is_empty());
}

#[test]
fn query_orders_by_start_and_pages() {
    let mut m = ReservationManager::new();
    for (rid, day) in [("a", 14), ("b", 11), ("c", 13), ("d", 12)] {
        let s = format!("2022-11-{day}T00:00:00+0000");
        let e = format!("2022-11-{day}T12:00:00+0000");
        m.reserve(pending("u", rid, &s, &e)).unwrap();
    }
    let window = (Some(ts("2022-11-01T00:00:00+0000")), Some(ts("2022-11-30T00:00:00+0000")));
    let q = ReservationQuery::new("u", "", window.0, window.1, ReservationStatus::Pending, 1, false, 3);
    let rids: Vec<String> = m.query(q).unwrap().into_iter().map(|r| r.resource_id).collect();
    assert_eq!(rids, vec!["b", "d", "c"]);
    let q2 = ReservationQuery::new("u", "", window.0, window.1, ReservationStatus::Pending, 2, false, 3);
    let rids: Vec<String> = m.query(q2).unwrap().into_iter().map(|r| r.resource_id).collect();
    assert_eq!(rids, vec!["a"]);
    let qd = ReservationQuery::new("u", "", window.0, window.1, ReservationStatus::Pending, 1, true, 10);
    let rids: Vec<String> = m.query(qd).unwrap().into_iter().map(|r| r.resource_id).collect();
    assert_eq!(rids, vec!["a", "c", "d", "b"]);
    // a window that holds only part of a reservation does not select it
    let narrow = ReservationQuery::new(
        "", "", Some(ts("2022-11-11T06:00:00+0000")), Some(ts("2022-11-30T00:00:00+0000")),
        ReservationStatus::Unknown, 1, false, 10,
    );
    assert_eq!(m.query(narrow).unwrap().len(), 3);
    let confirmed = ReservationQuery::new("", "", None, None, ReservationStatus::Confirmed, 1, false, 10);
    assert!(m.query(confirmed).unwrap().is_empty());
    let reversed = ReservationQuery::new(
        "", "", window.1, window.0, ReservationStatus::Unknown, 1, false, 10,
    );
    assert_eq!(m.query(reversed), Err(ReservationError::InvalidTimespan));
    let half = ReservationQuery::new("", "", window.0, None, ReservationStatus::Unknown, 1, false, 10);
    assert_eq!(m.query(half), Err(ReservationError::InvalidTimespan));
}

#[test]
fn end_to_end_conflict_reports_both_windows_in_utc() {
    let mut m = ReservationManager::new();
    m.reserve(pending(
        "first",
        "ocean-view-room-731",
        "2022-12-24T12:00:00-0700",
        "2022-12-28T12:00:00-0700",
    ))
    .unwrap();
    let err = m
        .reserve(pending(
            "second",
            "ocean-view-room-731",
            "2022-12-25T12:00:00-0700",
            "2022-12-27T12:00:00-0700",
        ))
        .unwrap_err();
    match err {
        ReservationError::ConflictReservation(reservation::ReservationConflictInfo::Parsed(c)) => {
            assert_eq!(c.new.start, ts("2022-12-25T19:00:00+0000"));
            assert_eq!(c.new.end, ts("2022-12-27T19:00:00+0000"));
            assert_eq!(c.existing.start, ts("2022-12-24T19:00:00+0000"));
            assert_eq!(c.existing.end, ts("2022-12-28T19:00:00+0000"));
        }
        other => panic!("unexpected {other:?}"),
    }
}
