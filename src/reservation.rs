use vstd::prelude::*;

use crate::error::{ErrorView, ReservationError};
use crate::status::ReservationStatus;
use crate::timestamp::Timestamp;

verus! {

/// The store-assigned key of a reservation; zero until it is stored.
pub type ReservationId = i64;

/// One user's claim on one resource for the half-open window `[start, end)`.
#[derive(Clone, Debug, PartialEq, Eq)]
pub struct Reservation {
    pub id: ReservationId,
    pub user_id: String,
    pub status: ReservationStatus,
    pub resource_id: String,
    pub start: Option<Timestamp>,
    pub end: Option<Timestamp>,
    pub note: String,
}

pub struct ReservationView {
    pub id: i64,
    pub user_id: Seq<char>,
    pub status: ReservationStatus,
    pub resource_id: Seq<char>,
    pub start: Option<Timestamp>,
    pub end: Option<Timestamp>,
    pub note: Seq<char>,
}

impl View for Reservation {
    type V = ReservationView;

    open spec fn view(&self) -> ReservationView {
        ReservationView {
            id: self.id,
            user_id: self.user_id@,
            status: self.status,
            resource_id: self.resource_id@,
            start: self.start,
            end: self.end,
            note: self.note@,
        }
    }
}

/// Checks of a request before any storage operation; the first rule broken decides the
/// error.
pub trait Validator {
    /// The error of the first rule that `self` breaks, if any.
    spec fn first_violation(&self) -> Option<ErrorView>;

    fn validate(&self) -> (r: Result<(), ReservationError>)
        ensures
            r.is_ok() == self.first_violation().is_none(),
            r.is_err() ==> self.first_violation() == Some(r->Err_0@),
    ;
}

/// A window's end points: both given, the end no earlier than the start.
pub open spec fn range_violation(start: Option<Timestamp>, end: Option<Timestamp>) -> Option<
    ErrorView,
> {
    match (start, end) {
        (Some(s), Some(e)) => if e.precedes(s) {
            Some(ErrorView::InvalidTimespan)
        } else {
            None
        },
        _ => Some(ErrorView::InvalidTimespan),
    }
}

pub fn validate_range(start: Option<Timestamp>, end: Option<Timestamp>) -> (r: Result<
    (),
    ReservationError,
>)
    ensures
        r.is_ok() == range_violation(start, end).is_none(),
        r.is_err() ==> r->Err_0@ == ErrorView::InvalidTimespan,
{
    match (start, end) {
        (Some(s), Some(e)) => {
            if e.is_before(&s) {
                Err(ReservationError::InvalidTimespan)
            } else {
                Ok(())
            }
        },
        _ => Err(ReservationError::InvalidTimespan),
    }
}

/// The two end points of a valid window.
pub fn get_timespan(start: Option<Timestamp>, end: Option<Timestamp>) -> (r: Result<
    (Timestamp, Timestamp),
    ReservationError,
>)
    ensures
        r.is_ok() == range_violation(start, end).is_none(),
        r.is_ok() ==> start == Some(r.unwrap().0) && end == Some(r.unwrap().1),
        r.is_err() ==> r->Err_0@ == ErrorView::InvalidTimespan,
{
    validate_range(start, end)?;
    Ok((start.unwrap(), end.unwrap()))
}

impl Reservation {
    /// A reservation not yet stored: id zero, status pending.
    pub fn new_pending(
        uid: &str,
        rid: &str,
        start: Timestamp,
        end: Timestamp,
        note: &str,
    ) -> (r: Reservation)
        ensures
            r@ == (ReservationView {
                id: 0,
                user_id: uid@,
                status: ReservationStatus::Pending,
                resource_id: rid@,
                start: Some(start),
                end: Some(end),
                note: note@,
            }),
    {
        Reservation {
            id: 0,
            user_id: uid.to_owned(),
            status: ReservationStatus::Pending,
            resource_id: rid.to_owned(),
            start: Some(start),
            end: Some(end),
            note: note.to_owned(),
        }
    }

    /// The window's two end points.
    pub fn get_timestamp(&self) -> (r: (Timestamp, Timestamp))
        requires
            self.start is Some,
            self.end is Some,
        ensures
            r.0 == self.start.unwrap(),
            r.1 == self.end.unwrap(),
    {
        (self.start.unwrap(), self.end.unwrap())
    }

    pub fn duplicate(&self) -> (r: Reservation)
        ensures
            r@ == self@,
    {
        Reservation {
            id: self.id,
            user_id: self.user_id.clone(),
            status: self.status,
            resource_id: self.resource_id.clone(),
            start: self.start,
            end: self.end,
            note: self.note.clone(),
        }
    }
}

/// The rules for a reservation request, in order: a user, a resource, both end
/// points, the end no earlier than the start.
pub open spec fn reservation_violation(r: ReservationView) -> Option<ErrorView> {
    if r.user_id.len() == 0 {
        Some(ErrorView::InvalidUserId(r.user_id))
    } else if r.resource_id.len() == 0 {
        Some(ErrorView::InvalidResourceId(r.resource_id))
    } else {
        range_violation(r.start, r.end)
    }
}

impl Validator for Reservation {
    open spec fn first_violation(&self) -> Option<ErrorView> {
        reservation_violation(self@)
    }

    fn validate(&self) -> (r: Result<(), ReservationError>) {
        if self.user_id.as_str().is_empty() {
            return Err(ReservationError::InvalidUserId(self.user_id.clone()));
        }
        if self.resource_id.as_str().is_empty() {
            return Err(ReservationError::InvalidResourceId(self.resource_id.clone()));
        }
        validate_range(self.start, self.end)
    }
}

/// A reservation id names a stored reservation only when it is positive.
impl Validator for ReservationId {
    open spec fn first_violation(&self) -> Option<ErrorView> {
        if *self <= 0 {
            Some(ErrorView::InvalidReservationId(*self))
        } else {
            None
        }
    }

    fn validate(&self) -> (r: Result<(), ReservationError>) {
        if *self <= 0 {
            return Err(ReservationError::InvalidReservationId(*self));
        }
        Ok(())
    }
}

} // verus!
