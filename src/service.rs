//! One call per manager operation, as the transport layer sees them: each failure
//! becomes a status class and a message. The service here runs over the in-process
//! reference manager; `to_rpc_status` is the mapping any transport uses.
use vstd::prelude::*;

use crate::conflict::{ConflictInfoView, ReservationConflictInfo, ReservationWindow, WindowView};
use crate::error::{message_of, status_code_of, ErrorView, ReservationError, StatusCode};
use crate::text::{decimal, push_decimal};
use crate::timestamp::Timestamp;
use crate::manager::{
    confirm_spec, delete_spec, filter_spec, get_spec, query_spec, reserve_spec, update_note_spec,
    views, ReservationManager, StoreView,
};
use crate::query::{ReservationFilter, ReservationQuery};
use crate::reservation::{Reservation, ReservationId};

verus! {

/// A failed call: its status class and message.
#[derive(Clone, Debug, PartialEq, Eq)]
pub struct RpcStatus {
    pub code: StatusCode,
    pub message: String,
}

/// An instant as seconds and nanoseconds since the epoch.
pub open spec fn instant_text(t: Timestamp) -> Seq<char> {
    decimal(t.seconds as int) + "s+"@ + decimal(t.nanos as int) + "ns"@
}

/// `resource [start, end)`.
pub open spec fn window_text(w: WindowView) -> Seq<char> {
    w.rid + " ["@ + instant_text(w.start) + ", "@ + instant_text(w.end) + ")"@
}

/// The two windows of a conflict, or the storage engine's own text where it was not read.
pub open spec fn conflict_description(c: ConflictInfoView) -> Seq<char> {
    match c {
        ConflictInfoView::Parsed(v) => window_text(v.new) + " conflicts with existing "@
            + window_text(v.existing),
        ConflictInfoView::UnParsed(raw) => raw,
    }
}

/// What the transport sees of a manager error: its status class and its message, which
/// for a conflict goes on to describe it.
pub open spec fn rpc_error(e: ErrorView) -> (StatusCode, Seq<char>) {
    match e {
        ErrorView::ConflictReservation(c) => (
            status_code_of(e),
            message_of(e) + ": "@ + conflict_description(c),
        ),
        _ => (status_code_of(e), message_of(e)),
    }
}

fn push_instant(out: &mut String, t: Timestamp)
    ensures
        final(out)@ == old(out)@ + instant_text(t),
{
    push_decimal(out, t.seconds);
    out.append("s+");
    push_decimal(out, t.nanos as i64);
    out.append("ns");
    assert(final(out)@ =~= old(out)@ + instant_text(t));
}

fn push_window(out: &mut String, w: &ReservationWindow)
    ensures
        final(out)@ == old(out)@ + window_text(w@),
{
    out.append(w.rid.as_str());
    out.append(" [");
    push_instant(out, w.start);
    out.append(", ");
    push_instant(out, w.end);
    out.append(")");
    assert(final(out)@ =~= old(out)@ + window_text(w@));
}

fn push_conflict(out: &mut String, c: &ReservationConflictInfo)
    ensures
        final(out)@ == old(out)@ + conflict_description(c@),
{
    match c {
        ReservationConflictInfo::Parsed(v) => {
            push_window(out, &v.new);
            out.append(" conflicts with existing ");
            push_window(out, &v.existing);
            assert(final(out)@ =~= old(out)@ + conflict_description(c@));
        },
        ReservationConflictInfo::UnParsed(raw) => out.append(raw.as_str()),
    }
}

pub open spec fn rpc_outcome<T>(r: Result<T, ErrorView>) -> Result<T, (StatusCode, Seq<char>)> {
    match r {
        Ok(v) => Ok(v),
        Err(e) => Err(rpc_error(e)),
    }
}

/// The views of a call's result.
pub open spec fn reply<T: View>(r: Result<T, RpcStatus>) -> Result<T::V, (StatusCode, Seq<char>)> {
    match r {
        Ok(v) => Ok(v@),
        Err(s) => Err((s.code, s.message@)),
    }
}

pub open spec fn reply_list(r: Result<Vec<Reservation>, RpcStatus>) -> Result<
    Seq<crate::reservation::ReservationView>,
    (StatusCode, Seq<char>),
> {
    match r {
        Ok(v) => Ok(views(v@)),
        Err(s) => Err((s.code, s.message@)),
    }
}

pub fn to_rpc_status(e: &ReservationError) -> (r: RpcStatus)
    ensures
        (r.code, r.message@) == rpc_error(e@),
{
    let mut message = e.to_string();
    if let ReservationError::ConflictReservation(c) = e {
        message.append(": ");
        push_conflict(&mut message, c);
        assert(message@ =~= rpc_error(e@).1);
    }
    RpcStatus { code: e.status_code(), message }
}

/// The reservation service over a manager.
pub struct RsvpService {
    manager: ReservationManager,
}

impl View for RsvpService {
    type V = StoreView;

    closed spec fn view(&self) -> StoreView {
        self.manager@
    }
}

impl RsvpService {
    pub closed spec fn wf(&self) -> bool {
        self.manager.wf()
    }

    pub fn new() -> (r: RsvpService)
        ensures
            r.wf(),
            r@.rows.len() == 0,
            r@.next_id == 1,
    {
        RsvpService { manager: ReservationManager::new() }
    }

    /// Makes a reservation; a request without one is an invalid argument.
    pub fn reserve(&mut self, reservation: Option<Reservation>) -> (r: Result<
        Reservation,
        RpcStatus,
    >)
        requires
            old(self).wf(),
        ensures
            final(self).wf(),
            reservation is None ==> final(self)@ == old(self)@ && reply(r) == Err::<
                crate::reservation::ReservationView,
                (StatusCode, Seq<char>),
            >((StatusCode::InvalidArgument, "reservation is required"@)),
            reservation is Some ==> final(self)@ == reserve_spec(
                old(self)@,
                reservation.unwrap()@,
            ).0 && reply(r) == rpc_outcome(reserve_spec(old(self)@, reservation.unwrap()@).1),
    {
        match reservation {
            None => Err(
                RpcStatus {
                    code: StatusCode::InvalidArgument,
                    message: String::from_str("reservation is required"),
                },
            ),
            Some(rsvp) => match self.manager.reserve(rsvp) {
                Ok(v) => Ok(v),
                Err(e) => Err(to_rpc_status(&e)),
            },
        }
    }

    /// Confirms a reservation.
    pub fn confirm(&mut self, id: ReservationId) -> (r: Result<Reservation, RpcStatus>)
        requires
            old(self).wf(),
        ensures
            final(self).wf(),
            final(self)@ == confirm_spec(old(self)@, id).0,
            reply(r) == rpc_outcome(confirm_spec(old(self)@, id).1),
    {
        match self.manager.change_status(id) {
            Ok(v) => Ok(v),
            Err(e) => Err(to_rpc_status(&e)),
        }
    }

    /// Replaces a reservation's note.
    pub fn update(&mut self, id: ReservationId, note: String) -> (r: Result<Reservation, RpcStatus>)
        requires
            old(self).wf(),
        ensures
            final(self).wf(),
            final(self)@ == update_note_spec(old(self)@, id, note@).0,
            reply(r) == rpc_outcome(update_note_spec(old(self)@, id, note@).1),
    {
        match self.manager.update_note(id, note) {
            Ok(v) => Ok(v),
            Err(e) => Err(to_rpc_status(&e)),
        }
    }

    /// Cancels a reservation, returning it as it was.
    pub fn cancel(&mut self, id: ReservationId) -> (r: Result<Reservation, RpcStatus>)
        requires
            old(self).wf(),
        ensures
            final(self).wf(),
            final(self)@ == delete_spec(old(self)@, id).0,
            reply(r) == rpc_outcome(get_spec(old(self)@, id)),
    {
        let found = match self.manager.get(id) {
            Ok(v) => v,
            Err(e) => return Err(to_rpc_status(&e)),
        };
        match self.manager.delete(id) {
            Ok(()) => Ok(found),
            Err(e) => Err(to_rpc_status(&e)),
        }
    }

    /// A reservation by id.
    pub fn get(&self, id: ReservationId) -> (r: Result<Reservation, RpcStatus>)
        requires
            self.wf(),
        ensures
            reply(r) == rpc_outcome(get_spec(self@, id)),
    {
        match self.manager.get(id) {
            Ok(v) => Ok(v),
            Err(e) => Err(to_rpc_status(&e)),
        }
    }

    /// One page of the reservations within a window, by start.
    pub fn query(&self, query: ReservationQuery) -> (r: Result<Vec<Reservation>, RpcStatus>)
        requires
            self.wf(),
        ensures
            reply_list(r) == rpc_outcome(query_spec(self@, query@)),
    {
        match self.manager.query(query) {
            Ok(v) => Ok(v),
            Err(e) => Err(to_rpc_status(&e)),
        }
    }

    /// One page of the reservations after a cursor, by id.
    pub fn filter(&self, filter: ReservationFilter) -> (r: Result<Vec<Reservation>, RpcStatus>)
        requires
            self.wf(),
        ensures
            reply_list(r) == Ok::<
                Seq<crate::reservation::ReservationView>,
                (StatusCode, Seq<char>),
            >(filter_spec(self@, filter@)),
    {
        match self.manager.filter(filter) {
            Ok(v) => Ok(v),
            Err(e) => Err(to_rpc_status(&e)),
        }
    }
}

} // verus!
