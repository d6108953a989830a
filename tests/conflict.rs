use chrono::{DateTime, Utc};
use reservation::{
    parse_datetime, KeyValues, ParsedInfo, ReservationConflictInfo, ReservationError,
    ReservationWindow, StorageFailure, Timestamp,
};

const TEST_TEXT: &str = "Key (resource_id, timespan)=(ocean-view-room-731, [\"2022-12-25 19:00:00+00\",\"2022-12-27 19:00:00+00\")) conflicts with existing key (resource_id, timespan)=(ocean-view-room-731, [\"2022-12-24 19:00:00+00\",\"2022-12-28 19:00:00+00\")).";

fn rfc3339(t: &Timestamp) -> String {
    DateTime::<Utc>::from_timestamp(t.seconds, t.nanos as u32)
        .unwrap()
        .to_rfc3339()
}

#[test]
fn parse_datetime_should_work() {
    let dt = parse_datetime("2022-12-25 19:00:00+00").unwrap();
    assert_eq!(rfc3339(&dt), "2022-12-25T19:00:00+00:00");
}

#[test]
fn parsed_info_should_work() {
    let parsed = TEST_TEXT.parse::<ParsedInfo>().unwrap();
    assert_eq!(
        parsed.new.get("resource_id").unwrap(),
        "ocean-view-room-731"
    );
    assert_eq!(
        parsed.new.get("timespan").unwrap(),
        "\"2022-12-25 19:00:00+00\",\"2022-12-27 19:00:00+00\""
    );
    assert_eq!(
        parsed.existing.get("resource_id").unwrap(),
        "ocean-view-room-731"
    );
    assert_eq!(
        parsed.existing.get("timespan").unwrap(),
        "\"2022-12-24 19:00:00+00\",\"2022-12-28 19:00:00+00\""
    );
}

#[test]
fn hash_map_to_reservation_window_should_work() {
    let map = KeyValues {
        k1: "resource_id".to_string(),
        v1: "ocean-view-room-731".to_string(),
        k2: "timespan".to_string(),
        v2: "\"2022-12-25 19:00:00+00\",\"2022-12-27 19:00:00+00\"".to_string(),
    };
    let window: ReservationWindow = ReservationWindow::from_pairs(&map).unwrap();
    assert_eq!(window.rid, "ocean-view-room-731");
    assert_eq!(rfc3339(&window.start), "2022-12-25T19:00:00+00:00");
    assert_eq!(rfc3339(&window.end), "2022-12-27T19:00:00+00:00");
}

#[test]
fn conflict_error_message_should_parse() {
    let conflict = TEST_TEXT.parse::<ReservationConflictInfo>().unwrap();
    match conflict {
        ReservationConflictInfo::Parsed(conflict) => {
            assert_eq!(conflict.new.rid, "ocean-view-room-731");
            assert_eq!(rfc3339(&conflict.new.start), "2022-12-25T19:00:00+00:00");
            assert_eq!(rfc3339(&conflict.new.end), "2022-12-27T19:00:00+00:00");
            assert_eq!(conflict.existing.rid, "ocean-view-room-731");
            assert_eq!(rfc3339(&conflict.existing.start), "2022-12-24T19:00:00+00:00");
            assert_eq!(rfc3339(&conflict.existing.end), "2022-12-28T19:00:00+00:00");
        }
        ReservationConflictInfo::UnParsed(s) => {
            panic!("expected a parsed conflict, got {s}");
        }
    }
}

#[test]
fn text_without_two_groups_is_kept_unchanged() {
    let one = "Key (resource_id, timespan)=(room-1, [\"2022-12-25 19:00:00+00\",\"2022-12-27 19:00:00+00\")).";
    for raw in ["", "duplicate key value violates unique constraint", one] {
        assert_eq!(
            ReservationConflictInfo::parse(raw),
            ReservationConflictInfo::UnParsed(raw.to_string())
        );
    }
    let three = format!("{TEST_TEXT} {one}");
    assert_eq!(
        ReservationConflictInfo::parse(&three),
        ReservationConflictInfo::UnParsed(three.clone())
    );
}

#[test]
fn unreadable_instant_degrades_to_unparsed() {
    let raw = "(resource_id, timespan)=(r, [\"yesterday\",\"2022-12-27 19:00:00+00\")) (resource_id, timespan)=(r, [\"2022-12-24 19:00:00+00\",\"2022-12-28 19:00:00+00\"))";
    assert!(raw.parse::<ParsedInfo>().is_ok());
    assert_eq!(
        ReservationConflictInfo::parse(raw),
        ReservationConflictInfo::UnParsed(raw.to_string())
    );
}

#[test]
fn instant_offsets_are_converted_to_utc() {
    let t = parse_datetime("2022-12-25 12:00:00-07").unwrap();
    assert_eq!(rfc3339(&t), "2022-12-25T19:00:00+00:00");
    assert!(parse_datetime("2022-12-25 12:00:00").is_err());
    assert!(parse_datetime("2022-12-25T12:00:00+00").is_err());
}

#[test]
fn window_needs_both_keys_and_a_comma() {
    let no_rid = KeyValues {
        k1: "resource".to_string(),
        v1: "r".to_string(),
        k2: "timespan".to_string(),
        v2: "\"2022-12-25 19:00:00+00\",\"2022-12-27 19:00:00+00\"".to_string(),
    };
    assert!(ReservationWindow::from_pairs(&no_rid).is_err());
    let no_comma = KeyValues {
        k1: "resource_id".to_string(),
        v1: "r".to_string(),
        k2: "timespan".to_string(),
        v2: "\"2022-12-25 19:00:00+00\"".to_string(),
    };
    assert!(ReservationWindow::from_pairs(&no_comma).is_err());
}

#[test]
fn repeated_name_takes_the_second_value() {
    let kv = KeyValues {
        k1: "timespan".to_string(),
        v1: "first".to_string(),
        k2: "timespan".to_string(),
        v2: "second".to_string(),
    };
    assert_eq!(kv.get("timespan").unwrap(), "second");
    assert!(kv.get("resource_id").is_none());
}

#[test]
fn scanner_agrees_with_the_pattern() {
    let re = regex::Regex::new(r#"\((?P<k1>[a-zA-Z0-9_-]+)\s*,\s*(?P<k2>[a-zA-Z0-9_-]+)\)=\((?P<v1>[a-zA-Z0-9_-]+)\s*,\s*\[(?P<v2>[^\)\]]+)"#).unwrap();
    let samples = [
        TEST_TEXT,
        "(a,b)=(c,[d",
        "(a , b)=(c ,  [d]) (x,\ty)=(z,\n[w)",
        "((a,b)=(c,[d)",
        "(a,b)=(c,[)",
        "(a,b)=(c,[x,y]) tail (k1, k2)=(v1, [v2",
        "(é,b)=(c,[d)",
        "(a,b)=(c,[ünï)",
        "(a\u{00A0},\u{3000}b)=(c\u{2028},[d)",
        "no groups here",
    ];
    for text in samples {
        let expected: Vec<(String, String, String, String)> = re
            .captures_iter(text)
            .map(|c| {
                (
                    c["k1"].to_string(),
                    c["v1"].to_string(),
                    c["k2"].to_string(),
                    c["v2"].to_string(),
                )
            })
            .collect();
        let found: Vec<(String, String, String, String)> = reservation::conflict::scan_groups(text)
            .into_iter()
            .map(|kv| (kv.k1, kv.v1, kv.k2, kv.v2))
            .collect();
        assert_eq!(found, expected, "on {text:?}");
    }
}

#[test]
fn overlap_violation_becomes_a_conflict() {
    let failure = StorageFailure::Database {
        code: "23P01".to_string(),
        schema: Some("rsvp".to_string()),
        table: Some("reservations".to_string()),
        detail: Some(TEST_TEXT.to_string()),
        message: "conflicting key value violates exclusion constraint".to_string(),
    };
    match ReservationError::from_storage(failure) {
        ReservationError::ConflictReservation(ReservationConflictInfo::Parsed(info)) => {
            assert_eq!(info.new.rid, "ocean-view-room-731");
            assert_eq!(rfc3339(&info.existing.end), "2022-12-28T19:00:00+00:00");
        }
        other => panic!("unexpected {other:?}"),
    }
}

#[test]
fn other_violations_stay_storage_errors() {
    let failure = StorageFailure::Database {
        code: "23P01".to_string(),
        schema: Some("public".to_string()),
        table: Some("reservations".to_string()),
        detail: Some(TEST_TEXT.to_string()),
        message: "boom".to_string(),
    };
    let err = ReservationError::from_storage(failure);
    assert_eq!(err.to_string(), "db error: boom");
    let missing_detail = StorageFailure::Database {
        code: "23P01".to_string(),
        schema: Some("rsvp".to_string()),
        table: Some("reservations".to_string()),
        detail: None,
        message: "m".to_string(),
    };
    assert_eq!(
        ReservationError::from_storage(missing_detail),
        ReservationError::ConflictReservation(ReservationConflictInfo::UnParsed(String::new()))
    );
    assert_eq!(
        ReservationError::from_storage(StorageFailure::Other("pool timed out".to_string())),
        ReservationError::DbError("anything".to_string())
    );
    assert_eq!(
        ReservationError::from_storage(StorageFailure::RowNotFound("no rows".to_string()))
            .to_string(),
        "db error: no rows"
    );
    assert_eq!(
        ReservationError::for_id(7, StorageFailure::RowNotFound("no rows".to_string())),
        ReservationError::ReservationNotFound(7)
    );
}
