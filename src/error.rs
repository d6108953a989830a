use vstd::prelude::*;

use crate::conflict::{ConflictInfoView, ReservationConflictInfo};
use crate::text::{decimal, push_decimal};

verus! {

/// The identifying code that the storage engine gives an exclusion-constraint violation.
pub const OVERLAP_CODE: &'static str = "23P01";

/// The schema that holds the reservations relation.
pub const RESERVATION_SCHEMA: &'static str = "rsvp";

/// The relation whose exclusion constraint keeps windows apart.
pub const RESERVATION_TABLE: &'static str = "reservations";

/// Every way an operation on reservations can fail.
#[derive(Debug)]
pub enum ReservationError {
    Unknown,
    InvalidTimespan,
    InvalidUserId(String),
    InvalidResourceId(String),
    InvalidReservationId(i64),
    ConflictReservation(ReservationConflictInfo),
    DbError(String),
    ReservationNotFound(i64),
    NotFoundRow,
}

pub enum ErrorView {
    Unknown,
    InvalidTimespan,
    InvalidUserId(Seq<char>),
    InvalidResourceId(Seq<char>),
    InvalidReservationId(i64),
    ConflictReservation(ConflictInfoView),
    DbError(Seq<char>),
    ReservationNotFound(i64),
    NotFoundRow,
}

impl View for ReservationError {
    type V = ErrorView;

    open spec fn view(&self) -> ErrorView {
        match self {
            ReservationError::Unknown => ErrorView::Unknown,
            ReservationError::InvalidTimespan => ErrorView::InvalidTimespan,
            ReservationError::InvalidUserId(v) => ErrorView::InvalidUserId(v@),
            ReservationError::InvalidResourceId(v) => ErrorView::InvalidResourceId(v@),
            ReservationError::InvalidReservationId(v) => ErrorView::InvalidReservationId(*v),
            ReservationError::ConflictReservation(v) => ErrorView::ConflictReservation(v@),
            ReservationError::DbError(v) => ErrorView::DbError(v@),
            ReservationError::ReservationNotFound(v) => ErrorView::ReservationNotFound(*v),
            ReservationError::NotFoundRow => ErrorView::NotFoundRow,
        }
    }
}

/// Two errors are equal when they are of one kind and carry equal payloads; storage
/// errors of any detail are all equal to each other.
pub open spec fn same_error(a: ErrorView, b: ErrorView) -> bool {
    match (a, b) {
        (ErrorView::DbError(_), ErrorView::DbError(_)) => true,
        _ => a == b,
    }
}

/// The message of each error.
pub open spec fn message_of(e: ErrorView) -> Seq<char> {
    match e {
        ErrorView::Unknown => "unknown error"@,
        ErrorView::InvalidTimespan => "invalid timespan"@,
        ErrorView::InvalidUserId(v) => "invalid userid: "@ + v,
        ErrorView::InvalidResourceId(v) => "invalid resource id: "@ + v,
        ErrorView::InvalidReservationId(v) => "invalid reservation id: "@ + decimal(v as int),
        ErrorView::ConflictReservation(_) => "reservation conflict"@,
        ErrorView::DbError(v) => "db error: "@ + v,
        ErrorView::ReservationNotFound(v) => "reservation not found: "@ + decimal(v as int),
        ErrorView::NotFoundRow => "Not Found Row"@,
    }
}

/// The status class under which each error crosses the service boundary.
#[derive(Clone, Copy, Debug, PartialEq, Eq, Structural)]
pub enum StatusCode {
    InvalidArgument,
    FailedPrecondition,
    NotFound,
    Internal,
}

pub open spec fn status_code_of(e: ErrorView) -> StatusCode {
    match e {
        ErrorView::InvalidTimespan
        | ErrorView::InvalidUserId(_)
        | ErrorView::InvalidResourceId(_)
        | ErrorView::InvalidReservationId(_) => StatusCode::InvalidArgument,
        ErrorView::ConflictReservation(_) => StatusCode::FailedPrecondition,
        ErrorView::ReservationNotFound(_) | ErrorView::NotFoundRow => StatusCode::NotFound,
        ErrorView::DbError(_) | ErrorView::Unknown => StatusCode::Internal,
    }
}

/// A failure reported by the storage engine, as plain values.
#[derive(Clone, Debug)]
pub enum StorageFailure {
    /// The engine rejected the statement: its error code, the schema and relation it
    /// names, its detail text, and its whole message.
    Database {
        code: String,
        schema: Option<String>,
        table: Option<String>,
        detail: Option<String>,
        message: String,
    },
    /// A statement that had to return a row returned none, with its message.
    RowNotFound(String),
    /// Anything else (connection, protocol, pool), with its message.
    Other(String),
}

/// The characters of an optional text.
pub open spec fn opt_text(o: Option<String>) -> Option<Seq<char>> {
    match o {
        Some(t) => Some(t@),
        None => None,
    }
}

/// The failure is the reservations relation's overlap constraint.
pub open spec fn is_overlap_violation(
    code: Seq<char>,
    schema: Option<Seq<char>>,
    table: Option<Seq<char>>,
) -> bool {
    code == OVERLAP_CODE@ && schema == Some(RESERVATION_SCHEMA@) && table == Some(
        RESERVATION_TABLE@,
    )
}

/// How each storage failure is classified: the overlap constraint becomes a conflict
/// carrying the reading of its detail text (an absent detail reads as empty text),
/// anything else a storage error with its message.
pub open spec fn error_of_failure(f: StorageFailure) -> ErrorView {
    match f {
        StorageFailure::Database { code, schema, table, detail, message } => {
            if is_overlap_violation(code@, opt_text(schema), opt_text(table)) {
                ErrorView::ConflictReservation(
                    crate::conflict::conflict_info_of(
                        match detail {
                            Some(d) => d@,
                            None => Seq::<char>::empty(),
                        },
                    ),
                )
            } else {
                ErrorView::DbError(message@)
            }
        },
        StorageFailure::RowNotFound(message) => ErrorView::DbError(message@),
        StorageFailure::Other(message) => ErrorView::DbError(message@),
    }
}

/// How a failure of a statement on the reservation with id `id` is classified: no row
/// means no such reservation.
pub open spec fn error_for_id(id: i64, f: StorageFailure) -> ErrorView {
    match f {
        StorageFailure::RowNotFound(_) => ErrorView::ReservationNotFound(id),
        _ => error_of_failure(f),
    }
}

fn same_opt_text(a: &Option<String>, b: &str) -> (r: bool)
    ensures
        r == (opt_text(*a) == Some(b@)),
{
    match a {
        Some(t) => *t == b.to_owned(),
        None => false,
    }
}

impl ReservationError {
    pub fn from_storage(f: StorageFailure) -> (r: ReservationError)
        ensures
            r@ == error_of_failure(f),
    {
        match f {
            StorageFailure::Database { code, schema, table, detail, message } => {
                if code == OVERLAP_CODE.to_owned() && same_opt_text(&schema, RESERVATION_SCHEMA)
                    && same_opt_text(&table, RESERVATION_TABLE) {
                    let text = match detail {
                        Some(d) => d,
                        None => String::new(),
                    };
                    ReservationError::ConflictReservation(
                        ReservationConflictInfo::parse(text.as_str()),
                    )
                } else {
                    ReservationError::DbError(message)
                }
            },
            StorageFailure::RowNotFound(message) => ReservationError::DbError(message),
            StorageFailure::Other(message) => ReservationError::DbError(message),
        }
    }

    /// Classifies a failure of a statement on the reservation with id `id`.
    pub fn for_id(id: i64, f: StorageFailure) -> (r: ReservationError)
        ensures
            r@ == error_for_id(id, f),
    {
        match f {
            StorageFailure::RowNotFound(_) => ReservationError::ReservationNotFound(id),
            other => ReservationError::from_storage(other),
        }
    }

    /// The outcome of deleting the reservation with id `id`, from the number of rows the
    /// statement removed.
    pub fn from_deleted_rows(id: i64, rows_affected: u64) -> (r: Result<(), ReservationError>)
        ensures
            r.is_ok() == (rows_affected > 0),
            r.is_err() ==> r->Err_0@ == ErrorView::ReservationNotFound(id),
    {
        if rows_affected == 0 {
            Err(ReservationError::ReservationNotFound(id))
        } else {
            Ok(())
        }
    }

    /// The error's message.
    pub fn to_string(&self) -> (r: String)
        ensures
            r@ == message_of(self@),
    {
        match self {
            ReservationError::Unknown => String::from_str("unknown error"),
            ReservationError::InvalidTimespan => String::from_str("invalid timespan"),
            ReservationError::InvalidUserId(v) => {
                String::from_str("invalid userid: ").concat(v.as_str())
            },
            ReservationError::InvalidResourceId(v) => {
                String::from_str("invalid resource id: ").concat(v.as_str())
            },
            ReservationError::InvalidReservationId(v) => {
                let mut s = String::from_str("invalid reservation id: ");
                push_decimal(&mut s, *v);
                s
            },
            ReservationError::ConflictReservation(_) => String::from_str("reservation conflict"),
            ReservationError::DbError(v) => String::from_str("db error: ").concat(v.as_str()),
            ReservationError::ReservationNotFound(v) => {
                let mut s = String::from_str("reservation not found: ");
                push_decimal(&mut s, *v);
                s
            },
            ReservationError::NotFoundRow => String::from_str("Not Found Row"),
        }
    }

    /// The status class under which the error crosses the service boundary.
    pub fn status_code(&self) -> (r: StatusCode)
        ensures
            r == status_code_of(self@),
    {
        match self {
            ReservationError::InvalidTimespan
            | ReservationError::InvalidUserId(_)
            | ReservationError::InvalidResourceId(_)
            | ReservationError::InvalidReservationId(_) => StatusCode::InvalidArgument,
            ReservationError::ConflictReservation(_) => StatusCode::FailedPrecondition,
            ReservationError::ReservationNotFound(_) | ReservationError::NotFoundRow => {
                StatusCode::NotFound
            },
            ReservationError::DbError(_) | ReservationError::Unknown => StatusCode::Internal,
        }
    }

}

impl PartialEq for ReservationError {
    fn eq(&self, other: &ReservationError) -> (r: bool) {
        match (self, other) {
            (ReservationError::DbError(_), ReservationError::DbError(_)) => true,
            (
                ReservationError::ConflictReservation(a),
                ReservationError::ConflictReservation(b),
            ) => a.eq(b),
            (ReservationError::InvalidResourceId(a), ReservationError::InvalidResourceId(b)) => a.eq(
                b,
            ),
            (
                ReservationError::InvalidReservationId(a),
                ReservationError::InvalidReservationId(b),
            ) => *a == *b,
            (ReservationError::InvalidTimespan, ReservationError::InvalidTimespan) => true,
            (ReservationError::InvalidUserId(a), ReservationError::InvalidUserId(b)) => a.eq(b),
            (
                ReservationError::ReservationNotFound(a),
                ReservationError::ReservationNotFound(b),
            ) => *a == *b,
            (ReservationError::Unknown, ReservationError::Unknown) => true,
            (ReservationError::NotFoundRow, ReservationError::NotFoundRow) => true,
            _ => false,
        }
    }
}

impl vstd::std_specs::cmp::PartialEqSpecImpl for ReservationError {
    open spec fn obeys_eq_spec() -> bool {
        true
    }

    open spec fn eq_spec(&self, other: &ReservationError) -> bool {
        same_error(self@, other@)
    }
}

} // verus!
