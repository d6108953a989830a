use chrono::{DateTime, FixedOffset};
use reservation::{
    Reservation, ReservationFilter, ReservationQuery, ReservationStatus, RpcStatus, RsvpService,
    StatusCode, Timestamp,
};

fn ts(text: &str) -> Timestamp {
    let dt: DateTime<FixedOffset> = text.parse().unwrap();
    Timestamp::new(dt.timestamp(), dt.timestamp_subsec_nanos() as i32)
}

#[test]
fn service_reserve_returns_the_stored_reservation() {
    let mut service = RsvpService::new();
    let rsvp = Reservation::new_pending(
        "hyx",
        "room-421",
        ts("2022-11-22T12:00:00-0700"),
        ts("2022-11-24T12:00:00-0700"),
        "hello",
    );
    let rsvp1 = rsvp.clone();
    let rsvp2 = service.reserve(Some(rsvp)).unwrap();
    assert_eq!(rsvp2.id, 1);
    assert_eq!(rsvp1.user_id, rsvp2.user_id);
    assert_eq!(rsvp1.resource_id, rsvp2.resource_id);
    assert_eq!(rsvp1.start, rsvp2.start);
    assert_eq!(rsvp1.end, rsvp2.end);
    assert_eq!(rsvp1.note, rsvp2.note);
}

#[test]
fn service_maps_failures_to_status_classes() {
    let mut service = RsvpService::new();
    assert_eq!(
        service.reserve(None),
        Err(RpcStatus {
            code: StatusCode::InvalidArgument,
            message: "reservation is required".to_string()
        })
    );
    let r = Reservation::new_pending(
        "u",
        "room",
        ts("2022-11-22T12:00:00-0700"),
        ts("2022-11-24T12:00:00-0700"),
        "",
    );
    service.reserve(Some(r.clone())).unwrap();
    let err = service.reserve(Some(r)).unwrap_err();
    assert_eq!(err.code, StatusCode::FailedPrecondition);
    assert_eq!(
        err.message,
        "reservation conflict: room [1669143600s+0ns, 1669316400s+0ns) conflicts with existing room [1669143600s+0ns, 1669316400s+0ns)"
    );
    let unread = reservation::service::to_rpc_status(&reservation::ReservationError::ConflictReservation(
        reservation::ReservationConflictInfo::UnParsed("raw text".to_string()),
    ));
    assert_eq!(unread.message, "reservation conflict: raw text");
    assert_eq!(unread.code, StatusCode::FailedPrecondition);
    assert_eq!(service.get(9).unwrap_err().code, StatusCode::NotFound);
    assert_eq!(service.confirm(0).unwrap_err().message, "invalid reservation id: 0");
    assert_eq!(service.confirm(1).unwrap().status, ReservationStatus::Confirmed);
    assert_eq!(service.update(1, "late".to_string()).unwrap().note, "late");
    assert_eq!(service.query(ReservationQuery::default()).unwrap().len(), 1);
    assert_eq!(service.filter(ReservationFilter::default()).unwrap().len(), 1);
    let cancelled = service.cancel(1).unwrap();
    assert_eq!(cancelled.note, "late");
    assert_eq!(service.cancel(1).unwrap_err().message, "reservation not found: 1");
}
