//! A reference model of the storage contract, and a reservation manager over it.
//!
//! The spec functions here state what the storage engine promises: inserts checked
//! against an exclusion rule (no two pending-or-confirmed reservations of one
//! resource have overlapping windows), point updates and deletes by id, and bounded
//! listings. `ReservationManager` runs the manager's operations against an
//! in-process store that meets that contract, so that the manager's behaviour and
//! its laws can be stated and proved; it is not the deployed service's manager, which
//! leaves overlap detection to the database and reads its conflicts back through the
//! diagnostic parser. Every operation takes the manager by `&mut` or `&`, so each is
//! atomic with respect to the others, and a write that would break the rule is refused
//! with the conflicting windows, built directly rather than from diagnostic text.
use vstd::prelude::*;

use crate::conflict::{
    ConflictInfoView, ConflictView, ReservationConflict, ReservationConflictInfo, ReservationWindow,
    WindowView,
};
use crate::error::{ErrorView, ReservationError};
use crate::query::{
    effective_page_size, page_size_of, query_violation, FilterView, QueryView, ReservationFilter,
    ReservationQuery,
};
use crate::reservation::{
    reservation_violation, Reservation, ReservationId, ReservationView, Validator,
};
use crate::status::ReservationStatus;
use crate::timestamp::Timestamp;

verus! {

/// Both windows hold time, and they share some.
pub open spec fn windows_overlap(a: ReservationView, b: ReservationView) -> bool {
    let (s1, e1) = (a.start.unwrap(), a.end.unwrap());
    let (s2, e2) = (b.start.unwrap(), b.end.unwrap());
    s1.precedes(e1) && s2.precedes(e2) && s1.precedes(e2) && s2.precedes(e1)
}

/// `a` and `b` hold overlapping windows of one resource.
pub open spec fn clashes(a: ReservationView, b: ReservationView) -> bool {
    a.resource_id == b.resource_id && a.status.holds_window() && b.status.holds_window()
        && windows_overlap(a, b)
}

/// No two rows hold overlapping windows of one resource.
pub open spec fn overlap_free(rows: Seq<ReservationView>) -> bool {
    forall|i: int, j: int|
        0 <= i < rows.len() && 0 <= j < rows.len() && i != j ==> !clashes(
            #[trigger] rows[i],
            #[trigger] rows[j],
        )
}

/// The stored rows, in the order of their ids, and the id the next insert receives.
pub struct StoreView {
    pub rows: Seq<ReservationView>,
    pub next_id: i64,
}

/// Ids are positive, increasing, and below the next id; every row has both end points
/// and is pending or confirmed; no two rows clash.
pub open spec fn store_wf(s: StoreView) -> bool {
    &&& 1 <= s.next_id
    &&& forall|i: int|
        0 <= i < s.rows.len() ==> 0 < (#[trigger] s.rows[i]).id < s.next_id
            && s.rows[i].start is Some && s.rows[i].end is Some
            && s.rows[i].status.holds_window()
    &&& forall|i: int, j: int|
        0 <= i < j < s.rows.len() ==> (#[trigger] s.rows[i]).id < (#[trigger] s.rows[j]).id
    &&& overlap_free(s.rows)
}

/// The position of the row with id `id`.
pub open spec fn index_of_id(rows: Seq<ReservationView>, id: i64) -> Option<int> {
    if exists|i: int| 0 <= i < rows.len() && rows[i].id == id {
        Some(choose|i: int| 0 <= i < rows.len() && rows[i].id == id)
    } else {
        None
    }
}

/// The position of the first row that `r` clashes with.
pub open spec fn first_clash(rows: Seq<ReservationView>, r: ReservationView) -> Option<int> {
    if exists|i: int| 0 <= i < rows.len() && clashes(r, rows[i]) {
        Some(
            choose|i: int|
                0 <= i < rows.len() && clashes(r, rows[i]) && forall|j: int|
                    0 <= j < i ==> !clashes(r, #[trigger] rows[j]),
        )
    } else {
        None
    }
}

/// The window that a reservation holds.
pub open spec fn window_of_row(r: ReservationView) -> WindowView {
    WindowView { rid: r.resource_id, start: r.start.unwrap(), end: r.end.unwrap() }
}

pub open spec fn with_status(r: ReservationView, status: ReservationStatus) -> ReservationView {
    ReservationView {
        id: r.id,
        user_id: r.user_id,
        status,
        resource_id: r.resource_id,
        start: r.start,
        end: r.end,
        note: r.note,
    }
}

pub open spec fn with_note(r: ReservationView, note: Seq<char>) -> ReservationView {
    ReservationView {
        id: r.id,
        user_id: r.user_id,
        status: r.status,
        resource_id: r.resource_id,
        start: r.start,
        end: r.end,
        note,
    }
}

pub open spec fn with_id(r: ReservationView, id: i64) -> ReservationView {
    ReservationView {
        id,
        user_id: r.user_id,
        status: r.status,
        resource_id: r.resource_id,
        start: r.start,
        end: r.end,
        note: r.note,
    }
}

/// The message of the storage error given when no id is left to assign.
pub open spec fn ids_exhausted() -> Seq<char> {
    "reservation ids exhausted"@
}

/// `reserve`: a valid request is stored as pending under the next id, unless it clashes
/// with a stored row, which it then reports with the first such row's window.
pub open spec fn reserve_spec(s: StoreView, r: ReservationView) -> (
    StoreView,
    Result<ReservationView, ErrorView>,
) {
    match reservation_violation(r) {
        Some(e) => (s, Err(e)),
        None => {
            let pending = with_status(r, ReservationStatus::Pending);
            match first_clash(s.rows, pending) {
                Some(j) => (
                    s,
                    Err(
                        ErrorView::ConflictReservation(
                            ConflictInfoView::Parsed(
                                ConflictView {
                                    new: window_of_row(pending),
                                    existing: window_of_row(s.rows[j]),
                                },
                            ),
                        ),
                    ),
                ),
                None => if s.next_id == i64::MAX {
                    (s, Err(ErrorView::DbError(ids_exhausted())))
                } else {
                    let stored = with_id(pending, s.next_id);
                    (
                        StoreView { rows: s.rows.push(stored), next_id: (s.next_id + 1) as i64 },
                        Ok(stored),
                    )
                },
            }
        },
    }
}

/// The error for an id that is not positive, or that no row has.
pub open spec fn lookup_error(s: StoreView, id: i64) -> Option<ErrorView> {
    if id <= 0 {
        Some(ErrorView::InvalidReservationId(id))
    } else if index_of_id(s.rows, id) is None {
        Some(ErrorView::ReservationNotFound(id))
    } else {
        None
    }
}

/// `change_status`: the row becomes confirmed, whatever its status was.
pub open spec fn confirm_spec(s: StoreView, id: i64) -> (
    StoreView,
    Result<ReservationView, ErrorView>,
) {
    match lookup_error(s, id) {
        Some(e) => (s, Err(e)),
        None => {
            let i = index_of_id(s.rows, id).unwrap();
            let row = with_status(s.rows[i], ReservationStatus::Confirmed);
            (StoreView { rows: s.rows.update(i, row), next_id: s.next_id }, Ok(row))
        },
    }
}

/// `update_note`: the row's note is replaced.
pub open spec fn update_note_spec(s: StoreView, id: i64, note: Seq<char>) -> (
    StoreView,
    Result<ReservationView, ErrorView>,
) {
    match lookup_error(s, id) {
        Some(e) => (s, Err(e)),
        None => {
            let i = index_of_id(s.rows, id).unwrap();
            let row = with_note(s.rows[i], note);
            (StoreView { rows: s.rows.update(i, row), next_id: s.next_id }, Ok(row))
        },
    }
}

/// `delete`: the row is removed.
pub open spec fn delete_spec(s: StoreView, id: i64) -> (StoreView, Result<(), ErrorView>) {
    match lookup_error(s, id) {
        Some(e) => (s, Err(e)),
        None => {
            let i = index_of_id(s.rows, id).unwrap();
            (StoreView { rows: s.rows.remove(i), next_id: s.next_id }, Ok(()))
        },
    }
}

/// `get`: the row with the id.
pub open spec fn get_spec(s: StoreView, id: i64) -> Result<ReservationView, ErrorView> {
    match lookup_error(s, id) {
        Some(e) => Err(e),
        None => Ok(s.rows[index_of_id(s.rows, id).unwrap()]),
    }
}

/// An empty wanted text matches any text.
pub open spec fn text_matches(wanted: Seq<char>, actual: Seq<char>) -> bool {
    wanted.len() == 0 || wanted == actual
}

/// The status `Unknown` matches any status.
pub open spec fn status_matches(wanted: ReservationStatus, actual: ReservationStatus) -> bool {
    wanted == ReservationStatus::Unknown || wanted == actual
}

/// The row is the query's: user, resource and status match, and its window lies within
/// the query's.
pub open spec fn query_selects(q: QueryView, r: ReservationView) -> bool {
    &&& text_matches(q.user_id, r.user_id)
    &&& text_matches(q.resource_id, r.resource_id)
    &&& status_matches(q.status, r.status)
    &&& match (q.start, q.end) {
        (Some(s), Some(e)) => s.no_later_than(r.start.unwrap()) && r.end.unwrap().no_later_than(e),
        _ => true,
    }
}

/// The rows the query selects, in the order of their ids.
pub open spec fn query_matches(rows: Seq<ReservationView>, q: QueryView) -> Seq<ReservationView>
    decreases rows.len(),
{
    if rows.len() == 0 {
        rows
    } else if query_selects(q, rows.last()) {
        query_matches(rows.drop_last(), q).push(rows.last())
    } else {
        query_matches(rows.drop_last(), q)
    }
}

/// `x` placed after every row of `sorted` whose start is no later than its own.
pub open spec fn insert_by_start(sorted: Seq<ReservationView>, x: ReservationView) -> Seq<
    ReservationView,
>
    decreases sorted.len(),
{
    if sorted.len() == 0 {
        seq![x]
    } else if x.start.unwrap().precedes(sorted.last().start.unwrap()) {
        insert_by_start(sorted.drop_last(), x).push(sorted.last())
    } else {
        sorted.push(x)
    }
}

/// The rows ordered by start; rows with equal starts keep their order.
pub open spec fn sort_by_start(rows: Seq<ReservationView>) -> Seq<ReservationView>
    decreases rows.len(),
{
    if rows.len() == 0 {
        rows
    } else {
        insert_by_start(sort_by_start(rows.drop_last()), rows.last())
    }
}

/// Page `page` (counted from 1; lower numbers stand for 1) of `rows`, `size` rows a page.
pub open spec fn page_of(rows: Seq<ReservationView>, page: int, size: int) -> Seq<
    ReservationView,
> {
    let p = if page < 1 {
        1
    } else {
        page
    };
    let lo = if (p - 1) * size < rows.len() {
        (p - 1) * size
    } else {
        rows.len() as int
    };
    let hi = if lo + size < rows.len() {
        lo + size
    } else {
        rows.len() as int
    };
    rows.subrange(lo, hi)
}

/// `query`: the selected rows ordered by start, ascending or descending, one page.
pub open spec fn query_spec(s: StoreView, q: QueryView) -> Result<Seq<ReservationView>, ErrorView> {
    match query_violation(q) {
        Some(e) => Err(e),
        None => {
            let sorted = sort_by_start(query_matches(s.rows, q));
            let ordered = if q.desc {
                sorted.reverse()
            } else {
                sorted
            };
            Ok(page_of(ordered, q.page as int, effective_page_size(q.page_size)))
        },
    }
}

/// The row is the filter's: user, resource and status match, and its id lies beyond the
/// cursor in the filter's direction.
pub open spec fn filter_selects(f: FilterView, r: ReservationView) -> bool {
    &&& text_matches(f.user_id, r.user_id)
    &&& text_matches(f.resource_id, r.resource_id)
    &&& status_matches(f.status, r.status)
    &&& if f.desc {
        f.cursor == 0 || r.id < f.cursor
    } else {
        r.id > f.cursor
    }
}

/// The rows the filter selects, in the order of their ids.
pub open spec fn filter_matches(rows: Seq<ReservationView>, f: FilterView) -> Seq<ReservationView>
    decreases rows.len(),
{
    if rows.len() == 0 {
        rows
    } else if filter_selects(f, rows.last()) {
        filter_matches(rows.drop_last(), f).push(rows.last())
    } else {
        filter_matches(rows.drop_last(), f)
    }
}

/// `filter`: the first page of the selected rows, by id ascending or descending.
pub open spec fn filter_spec(s: StoreView, f: FilterView) -> Seq<ReservationView> {
    let m = filter_matches(s.rows, f);
    let ordered = if f.desc {
        m.reverse()
    } else {
        m
    };
    let n = effective_page_size(f.page_size);
    if n < ordered.len() {
        ordered.take(n)
    } else {
        ordered
    }
}

} // verus!

verus! {

/// The views of a sequence of reservations.
pub open spec fn views(v: Seq<Reservation>) -> Seq<ReservationView> {
    v.map_values(|r: Reservation| r@)
}

pub proof fn lemma_views_push(s: Seq<Reservation>, x: Reservation)
    ensures
        views(s.push(x)) == views(s).push(x@),
{
    assert(views(s.push(x)) =~= views(s).push(x@));
}

/// The views of a result of the manager's.
pub open spec fn outcome<T: View>(r: Result<T, ReservationError>) -> Result<T::V, ErrorView> {
    match r {
        Ok(v) => Ok(v@),
        Err(e) => Err(e@),
    }
}

/// The views of a listing of the manager's.
pub open spec fn listing(r: Result<Vec<Reservation>, ReservationError>) -> Result<
    Seq<ReservationView>,
    ErrorView,
> {
    match r {
        Ok(v) => Ok(views(v@)),
        Err(e) => Err(e@),
    }
}

/// Validates requests and applies them to an in-process store that meets the storage
/// contract: a reference model of the manager, not one bound to a database.
pub struct ReservationManager {
    rows: Vec<Reservation>,
    next_id: i64,
}

impl View for ReservationManager {
    type V = StoreView;

    closed spec fn view(&self) -> StoreView {
        StoreView { rows: views(self.rows@), next_id: self.next_id }
    }
}

fn clash(a: &Reservation, b: &Reservation) -> (r: bool)
    requires
        a.start is Some && a.end is Some,
        b.start is Some && b.end is Some,
    ensures
        r == clashes(a@, b@),
{
    let (s1, e1) = (a.start.unwrap(), a.end.unwrap());
    let (s2, e2) = (b.start.unwrap(), b.end.unwrap());
    a.resource_id == b.resource_id && a.status.is_holding() && b.status.is_holding()
        && s1.is_before(&e1) && s2.is_before(&e2) && s1.is_before(&e2) && s2.is_before(&e1)
}

impl ReservationManager {
    pub open spec fn wf(&self) -> bool {
        store_wf(self@)
    }

    /// A manager over an empty store; the first id it assigns is 1.
    pub fn new() -> (r: ReservationManager)
        ensures
            r.wf(),
            r@.rows.len() == 0,
            r@.next_id == 1,
    {
        let r = ReservationManager { rows: Vec::new(), next_id: 1 };
        assert(views(r.rows@) =~= Seq::<ReservationView>::empty());
        r
    }

    /// The position of the row with id `id`.
    fn find(&self, id: i64) -> (r: Option<usize>)
        requires
            self.wf(),
        ensures
            r.is_some() == index_of_id(self@.rows, id).is_some(),
            r.is_some() ==> r.unwrap() as int == index_of_id(self@.rows, id).unwrap(),
            r.is_some() ==> r.unwrap() < self.rows.len(),
    {
        let ghost rows = self@.rows;
        let mut i: usize = 0;
        while i < self.rows.len()
            invariant
                self.wf(),
                rows == self@.rows,
                rows.len() == self.rows.len(),
                i <= self.rows.len(),
                forall|k: int| 0 <= k < i ==> rows[k].id != id,
            decreases self.rows.len() - i,
        {
            assert(rows[i as int] == self.rows@[i as int]@);
            if self.rows[i].id == id {
                proof {
                    let k = choose|k: int| 0 <= k < rows.len() && rows[k].id == id;
                    if k < i {
                        assert(rows[k].id < rows[i as int].id);
                    }
                    if k > i {
                        assert(rows[i as int].id < rows[k].id);
                    }
                }
                return Some(i);
            }
            i = i + 1;
        }
        None
    }
}


impl ReservationManager {
    /// Stores a valid request as pending under the next id, unless its window overlaps
    /// one that a pending or confirmed reservation of the same resource holds.
    pub fn reserve(&mut self, rsvp: Reservation) -> (r: Result<Reservation, ReservationError>)
        requires
            old(self).wf(),
        ensures
            final(self).wf(),
            (final(self)@, outcome(r)) == reserve_spec(old(self)@, rsvp@),
    {
        let ghost request = rsvp@;
        let mut row = match prepare_reservation(rsvp) {
            Ok(row) => row,
            Err(e) => return Err(e),
        };
        let ghost pending = row@;
        assert(pending == with_status(rsvp@, ReservationStatus::Pending));
        let ghost rows = self@.rows;
        let mut j: usize = 0;
        while j < self.rows.len()
            invariant
                self.wf(),
                rows == self@.rows,
                rows.len() == self.rows.len(),
                row@ == pending,
                row.start is Some && row.end is Some,
                request == rsvp@,
                reservation_violation(request) is None,
                pending == with_status(request, ReservationStatus::Pending),
                old(self)@ == self@,
                j <= self.rows.len(),
                forall|k: int| 0 <= k < j ==> !clashes(pending, #[trigger] rows[k]),
            decreases self.rows.len() - j,
        {
            assert(rows[j as int] == self.rows@[j as int]@);
            if clash(&row, &self.rows[j]) {
                proof {
                    let k = choose|k: int|
                        0 <= k < rows.len() && clashes(pending, rows[k]) && forall|m: int|
                            0 <= m < k ==> !clashes(pending, #[trigger] rows[m]);
                    assert(0 <= j < rows.len() && clashes(pending, rows[j as int]) && forall|m: int|
                        0 <= m < j ==> !clashes(pending, #[trigger] rows[m]));
                    if k < j {
                        assert(!clashes(pending, rows[k]));
                    }
                    if k > j {
                        assert(!clashes(pending, rows[j as int]));
                    }
                }
                let existing = &self.rows[j];
                let conflict = ReservationConflict {
                    new: ReservationWindow {
                        rid: row.resource_id.clone(),
                        start: row.start.unwrap(),
                        end: row.end.unwrap(),
                    },
                    existing: ReservationWindow {
                        rid: existing.resource_id.clone(),
                        start: existing.start.unwrap(),
                        end: existing.end.unwrap(),
                    },
                };
                return Err(
                    ReservationError::ConflictReservation(
                        ReservationConflictInfo::Parsed(conflict),
                    ),
                );
            }
            j = j + 1;
        }
        if self.next_id == i64::MAX {
            return Err(ReservationError::DbError(String::from_str("reservation ids exhausted")));
        }
        row.id = self.next_id;
        let ghost stored = row@;
        self.rows.push(row.duplicate());
        self.next_id = self.next_id + 1;
        proof {
            assert(self@.rows =~= rows.push(stored));
            assert forall|a: int, b: int|
                0 <= a < self@.rows.len() && 0 <= b < self@.rows.len() && a != b implies !clashes(
                #[trigger] self@.rows[a],
                #[trigger] self@.rows[b],
            ) by {
                if a == rows.len() {
                    assert(!clashes(pending, rows[b]));
                } else if b == rows.len() {
                    assert(!clashes(pending, rows[a]));
                } else {
                    assert(!clashes(rows[a], rows[b]));
                }
            }
        }
        Ok(row)
    }

    /// Sets the reservation's status to confirmed, whatever it was, and returns it.
    pub fn change_status(&mut self, id: ReservationId) -> (r: Result<Reservation, ReservationError>)
        requires
            old(self).wf(),
        ensures
            final(self).wf(),
            (final(self)@, outcome(r)) == confirm_spec(old(self)@, id),
    {
        match id.validate() {
            Ok(()) => {},
            Err(e) => return Err(e),
        }
        let i = match self.find(id) {
            Some(i) => i,
            None => return Err(ReservationError::ReservationNotFound(id)),
        };
        let ghost before = self@.rows;
        let mut row = self.rows[i].duplicate();
        row.status = ReservationStatus::Confirmed;
        self.rows.set(i, row.duplicate());
        proof {
            assert(self@.rows =~= before.update(i as int, row@));
            self.lemma_status_change_keeps_wf(before, i as int);
        }
        Ok(row)
    }

    /// Replaces the reservation's note and returns it.
    pub fn update_note(&mut self, id: ReservationId, note: String) -> (r: Result<
        Reservation,
        ReservationError,
    >)
        requires
            old(self).wf(),
        ensures
            final(self).wf(),
            (final(self)@, outcome(r)) == update_note_spec(old(self)@, id, note@),
    {
        match id.validate() {
            Ok(()) => {},
            Err(e) => return Err(e),
        }
        let i = match self.find(id) {
            Some(i) => i,
            None => return Err(ReservationError::ReservationNotFound(id)),
        };
        let ghost before = self@.rows;
        let mut row = self.rows[i].duplicate();
        row.note = note;
        self.rows.set(i, row.duplicate());
        proof {
            assert(self@.rows =~= before.update(i as int, row@));
            assert forall|a: int, b: int|
                0 <= a < self@.rows.len() && 0 <= b < self@.rows.len() && a != b implies !clashes(
                #[trigger] self@.rows[a],
                #[trigger] self@.rows[b],
            ) by {
                assert(!clashes(before[a], before[b]));
            }
        }
        Ok(row)
    }

    /// Removes the reservation.
    pub fn delete(&mut self, id: ReservationId) -> (r: Result<(), ReservationError>)
        requires
            old(self).wf(),
        ensures
            final(self).wf(),
            final(self)@ == delete_spec(old(self)@, id).0,
            r.is_ok() == delete_spec(old(self)@, id).1.is_ok(),
            r.is_err() ==> delete_spec(old(self)@, id).1 == Err::<(), ErrorView>(r->Err_0@),
    {
        match id.validate() {
            Ok(()) => {},
            Err(e) => return Err(e),
        }
        let i = match self.find(id) {
            Some(i) => i,
            None => return Err(ReservationError::ReservationNotFound(id)),
        };
        let ghost before = self@.rows;
        self.rows.remove(i);
        proof {
            assert(self@.rows =~= before.remove(i as int));
            assert forall|a: int, b: int|
                0 <= a < self@.rows.len() && 0 <= b < self@.rows.len() && a != b implies !clashes(
                #[trigger] self@.rows[a],
                #[trigger] self@.rows[b],
            ) by {
                let a0 = if a < i { a } else { a + 1 };
                let b0 = if b < i { b } else { b + 1 };
                assert(self@.rows[a] == before[a0]);
                assert(self@.rows[b] == before[b0]);
                assert(!clashes(before[a0], before[b0]));
            }
            assert forall|a: int, b: int| 0 <= a < b < self@.rows.len() implies (
            #[trigger] self@.rows[a]).id < (#[trigger] self@.rows[b]).id by {
                let a0 = if a < i { a } else { a + 1 };
                let b0 = if b < i { b } else { b + 1 };
                assert(self@.rows[a] == before[a0]);
                assert(self@.rows[b] == before[b0]);
            }
        }
        Ok(())
    }

    /// The reservation with the id.
    pub fn get(&self, id: ReservationId) -> (r: Result<Reservation, ReservationError>)
        requires
            self.wf(),
        ensures
            outcome(r) == get_spec(self@, id),
    {
        match id.validate() {
            Ok(()) => {},
            Err(e) => return Err(e),
        }
        match self.find(id) {
            Some(i) => Ok(self.rows[i].duplicate()),
            None => Err(ReservationError::ReservationNotFound(id)),
        }
    }

    proof fn lemma_status_change_keeps_wf(&self, before: Seq<ReservationView>, i: int)
        requires
            store_wf(StoreView { rows: before, next_id: self@.next_id }),
            0 <= i < before.len(),
            self@.rows == before.update(i, with_status(before[i], ReservationStatus::Confirmed)),
            before[i].status.holds_window() || forall|k: int|
                0 <= k < before.len() && k != i ==> !clashes(
                    with_status(before[i], ReservationStatus::Confirmed),
                    #[trigger] before[k],
                ),
        ensures
            self.wf(),
    {
        assert forall|a: int, b: int|
            0 <= a < self@.rows.len() && 0 <= b < self@.rows.len() && a != b implies !clashes(
            #[trigger] self@.rows[a],
            #[trigger] self@.rows[b],
        ) by {
            assert(!clashes(before[a], before[b]));
        }
    }
}

/// The rows the filter selects among the first `i` come first among all it selects.
pub proof fn lemma_filter_prefix(rows: Seq<ReservationView>, f: FilterView, i: int)
    requires
        0 <= i <= rows.len(),
    ensures
        filter_matches(rows.take(i), f).len() <= filter_matches(rows, f).len(),
        filter_matches(rows, f).take(filter_matches(rows.take(i), f).len() as int)
            == filter_matches(rows.take(i), f),
    decreases rows.len(),
{
    if i == rows.len() {
        assert(rows.take(i) =~= rows);
        assert(filter_matches(rows, f).take(filter_matches(rows, f).len() as int) =~= filter_matches(
            rows,
            f,
        ));
    } else {
        let shorter = rows.drop_last();
        assert(shorter.take(i) =~= rows.take(i));
        lemma_filter_prefix(shorter, f, i);
        let k = filter_matches(rows.take(i), f).len() as int;
        assert(filter_matches(rows, f).take(k) =~= filter_matches(shorter, f).take(k));
    }
}

/// The rows the query selects among the first `i`, then the `i`-th if it is selected.
pub proof fn lemma_query_step(rows: Seq<ReservationView>, q: QueryView, i: int)
    requires
        0 <= i < rows.len(),
    ensures
        query_matches(rows.take(i + 1), q) == if query_selects(q, rows[i]) {
            query_matches(rows.take(i), q).push(rows[i])
        } else {
            query_matches(rows.take(i), q)
        },
{
    assert(rows.take(i + 1).drop_last() =~= rows.take(i));
}

/// The rows the filter selects among the first `i`, then the `i`-th if it is selected.
pub proof fn lemma_filter_step(rows: Seq<ReservationView>, f: FilterView, i: int)
    requires
        0 <= i < rows.len(),
    ensures
        filter_matches(rows.take(i + 1), f) == if filter_selects(f, rows[i]) {
            filter_matches(rows.take(i), f).push(rows[i])
        } else {
            filter_matches(rows.take(i), f)
        },
{
    assert(rows.take(i + 1).drop_last() =~= rows.take(i));
}

fn text_matches_exec(wanted: &String, actual: &String) -> (r: bool)
    ensures
        r == text_matches(wanted@, actual@),
{
    wanted.as_str().is_empty() || *wanted == *actual
}

fn status_matches_exec(wanted: ReservationStatus, actual: ReservationStatus) -> (r: bool)
    ensures
        r == status_matches(wanted, actual),
{
    wanted == ReservationStatus::Unknown || wanted == actual
}

fn filter_selects_exec(f: &ReservationFilter, r: &Reservation) -> (b: bool)
    ensures
        b == filter_selects(f@, r@),
{
    let beyond = if f.desc {
        f.cursor == 0 || r.id < f.cursor
    } else {
        r.id > f.cursor
    };
    text_matches_exec(&f.user_id, &r.user_id) && text_matches_exec(&f.resource_id, &r.resource_id)
        && status_matches_exec(f.status, r.status) && beyond
}

fn query_selects_exec(q: &ReservationQuery, r: &Reservation) -> (b: bool)
    requires
        r.start is Some && r.end is Some,
    ensures
        b == query_selects(q@, r@),
{
    let within = match (q.start, q.end) {
        (Some(s), Some(e)) => {
            let (rs, re) = (r.start.unwrap(), r.end.unwrap());
            !rs.is_before(&s) && !e.is_before(&re)
        },
        _ => true,
    };
    text_matches_exec(&q.user_id, &r.user_id) && text_matches_exec(&q.resource_id, &r.resource_id)
        && status_matches_exec(q.status, r.status) && within
}

impl ReservationManager {
    /// The first page of the reservations after the filter's cursor, by id.
    pub fn filter(&self, filter: ReservationFilter) -> (r: Result<
        Vec<Reservation>,
        ReservationError,
    >)
        requires
            self.wf(),
        ensures
            listing(r) == Ok::<Seq<ReservationView>, ErrorView>(filter_spec(self@, filter@)),
    {
        let f = &filter;
        let n = page_size_of(f.page_size) as usize;
        let ghost rows = self@.rows;
        let ghost m = filter_matches(rows, f@);
        let len = self.rows.len();
        let mut out: Vec<Reservation> = Vec::new();
        if !f.desc {
            let mut i: usize = 0;
            while i < len && out.len() < n
                invariant
                    rows == self@.rows,
                    len == self.rows.len() == rows.len(),
                    i <= len,
                    out.len() <= n,
                    views(out@) == filter_matches(rows.take(i as int), f@),
                decreases len - i,
            {
                proof {
                    lemma_filter_step(rows, f@, i as int);
                }
                assert(rows[i as int] == self.rows@[i as int]@);
                if filter_selects_exec(f, &self.rows[i]) {
                    out.push(self.rows[i].duplicate());
                }
                i = i + 1;
                assert(views(out@) =~= filter_matches(rows.take(i as int), f@));
            }
            proof {
                lemma_filter_prefix(rows, f@, i as int);
                if i == len {
                    assert(rows.take(i as int) =~= rows);
                } else {
                    assert(m.take(n as int) =~= m || n < m.len());
                }
                assert(views(out@) == filter_spec(self@, f@));
            }
        } else {
            let mut i: usize = len;
            assert(rows.take(len as int) =~= rows);
            assert(m.reverse().take(0) =~= Seq::<ReservationView>::empty());
            while i > 0 && out.len() < n
                invariant
                    rows == self@.rows,
                    len == self.rows.len() == rows.len(),
                    m == filter_matches(rows, f@),
                    i <= len,
                    out.len() <= n,
                    out.len() + filter_matches(rows.take(i as int), f@).len() == m.len(),
                    views(out@) == m.reverse().take(out.len() as int),
                decreases i,
            {
                i = i - 1;
                proof {
                    lemma_filter_step(rows, f@, i as int);
                    lemma_filter_prefix(rows, f@, i as int + 1);
                }
                assert(rows[i as int] == self.rows@[i as int]@);
                if filter_selects_exec(f, &self.rows[i]) {
                    proof {
                        let k = filter_matches(rows.take(i as int), f@).len() as int;
                        assert(m.take(k + 1)[k] == m[k]);
                        assert(m[k] == rows[i as int]);
                        assert(m.reverse()[out.len() as int] == m[k]);
                    }
                    out.push(self.rows[i].duplicate());
                    assert(views(out@) =~= m.reverse().take(out.len() as int));
                }
            }
            proof {
                if out.len() < n {
                    assert(i == 0);
                    assert(rows.take(0) =~= Seq::<ReservationView>::empty());
                    assert(m.reverse().take(out.len() as int) =~= m.reverse());
                } else {
                    assert(m.reverse().len() == m.len());
                    assert(m.reverse().take(n as int) =~= m.reverse() || n < m.len());
                }
                assert(views(out@) == filter_spec(self@, f@));
            }
        }
        Ok(out)
    }
}

/// Every row has both end points.
pub open spec fn all_bounded(rows: Seq<ReservationView>) -> bool {
    forall|k: int| 0 <= k < rows.len() ==> (#[trigger] rows[k]).start is Some && rows[k].end is Some
}

/// `r` starts after `t`.
fn starts_after(r: &Reservation, t: &Timestamp) -> (b: bool)
    requires
        r.start is Some,
    ensures
        b == t.precedes(r.start.unwrap()),
{
    let s = r.start.unwrap();
    t.is_before(&s)
}

/// Places `x` after every row of `sorted` whose start is no later than its own.
fn insert_sorted(sorted: &mut Vec<Reservation>, x: Reservation)
    requires
        x.start is Some,
        all_bounded(views(old(sorted)@)),
        x.end is Some,
    ensures
        views(final(sorted)@) == insert_by_start(views(old(sorted)@), x@),
        all_bounded(views(final(sorted)@)),
{
    let ghost whole = views(sorted@);
    let xs = x.start.unwrap();
    let mut p: usize = sorted.len();
    assert(whole.take(p as int) =~= whole);
    assert(insert_by_start(whole, x@) + whole.skip(p as int) =~= insert_by_start(whole, x@));
    while p > 0 && starts_after(&sorted[p - 1], &xs)
        invariant
            p <= sorted.len(),
            whole == views(sorted@),
            all_bounded(whole),
            x.start == Some(xs),
            insert_by_start(whole, x@) == insert_by_start(whole.take(p as int), x@) + whole.skip(
                p as int,
            ),
        decreases p,
    {
        proof {
            let t = whole.take(p as int);
            assert(t.drop_last() =~= whole.take(p - 1));
            assert(t.last() == whole[p - 1]);
            assert(insert_by_start(whole.take(p - 1), x@).push(whole[p - 1]) + whole.skip(p as int)
                =~= insert_by_start(whole.take(p - 1), x@) + whole.skip(p - 1));
        }
        p = p - 1;
    }
    proof {
        if p > 0 {
            assert(whole.take(p as int).last() == whole[p - 1]);
        } else {
            assert(whole.take(0) =~= Seq::<ReservationView>::empty());
        }
    }
    sorted.insert(p, x);
    proof {
        assert(views(sorted@) =~= insert_by_start(whole.take(p as int), x@) + whole.skip(p as int));
    }
}

/// The rows of `v` in the opposite order.
fn reversed(v: &Vec<Reservation>) -> (r: Vec<Reservation>)
    ensures
        views(r@) == views(v@).reverse(),
{
    let ghost whole = views(v@);
    let len = v.len();
    let mut out: Vec<Reservation> = Vec::new();
    let mut i: usize = len;
    while i > 0
        invariant
            i <= len == v.len(),
            whole == views(v@),
            views(out@) == whole.reverse().take(len - i),
        decreases i,
    {
        i = i - 1;
        let ghost before = out@;
        let item = v[i].duplicate();
        let ghost pushed = item;
        out.push(item);
        proof {
            lemma_views_push(before, pushed);
            assert(whole[i as int] == v@[i as int]@);
            assert(whole.reverse()[len - i - 1] == whole[i as int]);
        }
        assert(views(out@) =~= whole.reverse().take(len - i));
    }
    assert(whole.reverse().take(len as int) =~= whole.reverse());
    out
}

/// Rows `from` up to, not including, `to` of `v`.
fn slice_rows(v: &Vec<Reservation>, from: usize, to: usize) -> (r: Vec<Reservation>)
    requires
        from <= to <= v.len(),
    ensures
        views(r@) == views(v@).subrange(from as int, to as int),
{
    let mut out: Vec<Reservation> = Vec::new();
    let mut i: usize = from;
    while i < to
        invariant
            from <= i <= to <= v.len(),
            views(out@) == views(v@).subrange(from as int, i as int),
        decreases to - i,
    {
        let ghost before = out@;
        let item = v[i].duplicate();
        let ghost pushed = item;
        out.push(item);
        proof {
            lemma_views_push(before, pushed);
        }
        assert(views(v@)[i as int] == v@[i as int]@);
        i = i + 1;
        assert(views(out@) =~= views(v@).subrange(from as int, i as int));
    }
    out
}

impl ReservationManager {
    /// One page of the reservations that lie within the query's window, ordered by start.
    pub fn query(&self, query: ReservationQuery) -> (r: Result<
        Vec<Reservation>,
        ReservationError,
    >)
        requires
            self.wf(),
        ensures
            listing(r) == query_spec(self@, query@),
    {
        match query.validate() {
            Ok(()) => {},
            Err(e) => return Err(e),
        }
        let q = &query;
        let ghost rows = self@.rows;
        let len = self.rows.len();
        let mut ms: Vec<Reservation> = Vec::new();
        let mut i: usize = 0;
        while i < len
            invariant
                self.wf(),
                rows == self@.rows,
                len == self.rows.len() == rows.len(),
                i <= len,
                views(ms@) == query_matches(rows.take(i as int), q@),
                all_bounded(views(ms@)),
            decreases len - i,
        {
            proof {
                lemma_query_step(rows, q@, i as int);
            }
            assert(rows[i as int] == self.rows@[i as int]@);
            if query_selects_exec(q, &self.rows[i]) {
                ms.push(self.rows[i].duplicate());
            }
            i = i + 1;
            assert(views(ms@) =~= query_matches(rows.take(i as int), q@));
        }
        assert(rows.take(len as int) =~= rows);
        let ghost matched = views(ms@);
        let mut sorted: Vec<Reservation> = Vec::new();
        let mut j: usize = 0;
        assert(matched.take(0) =~= Seq::<ReservationView>::empty());
        assert(views(sorted@) =~= Seq::<ReservationView>::empty());
        while j < ms.len()
            invariant
                j <= ms.len(),
                matched == views(ms@),
                all_bounded(matched),
                views(sorted@) == sort_by_start(matched.take(j as int)),
                all_bounded(views(sorted@)),
            decreases ms.len() - j,
        {
            assert(matched[j as int] == ms@[j as int]@);
            proof {
                let t = matched.take(j + 1);
                assert(t.drop_last() =~= matched.take(j as int));
                assert(t.last() == matched[j as int]);
            }
            insert_sorted(&mut sorted, ms[j].duplicate());
            j = j + 1;
        }
        assert(matched.take(ms.len() as int) =~= matched);
        let ordered = if q.desc {
            reversed(&sorted)
        } else {
            sorted
        };
        let size = page_size_of(q.page_size);
        let page: i64 = if q.page < 1 {
            1
        } else {
            q.page as i64
        };
        let pages_before: u128 = (page - 1) as u128;
        assert(pages_before * (size as u128) <= 0x7fff_ffffu128 * 100) by (nonlinear_arith)
            requires
                pages_before <= 0x7fff_ffff,
                size <= 100,
                size >= 1,
        ;
        let skip: u128 = pages_before * (size as u128);
        let n = ordered.len();
        let lo: usize = if skip < n as u128 {
            skip as usize
        } else {
            n
        };
        let hi: usize = if (lo as u128) + (size as u128) < n as u128 {
            lo + size as usize
        } else {
            n
        };
        Ok(slice_rows(&ordered, lo, hi))
    }
}

/// A reservation that `reserve` accepts is what `get` then returns under its new id:
/// the request with the id assigned and the status pending.
pub proof fn lemma_reserve_then_get(s: StoreView, r: ReservationView)
    requires
        store_wf(s),
        reserve_spec(s, r).1 is Ok,
    ensures
        ({
            let (after, res) = reserve_spec(s, r);
            let stored = res->Ok_0;
            &&& stored == with_id(with_status(r, ReservationStatus::Pending), s.next_id)
            &&& get_spec(after, stored.id) == Ok::<ReservationView, ErrorView>(stored)
        }),
{
    let (after, res) = reserve_spec(s, r);
    let stored = res->Ok_0;
    let n = s.rows.len() as int;
    assert(after.rows[n] == stored);
    let k = choose|k: int| 0 <= k < after.rows.len() && after.rows[k].id == stored.id;
    if k < n {
        assert(after.rows[k] == s.rows[k]);
    }
}

/// Confirming a reservation twice in a row succeeds both times with the status
/// confirmed, and the second call changes nothing.
pub proof fn lemma_confirm_idempotent(s: StoreView, id: i64)
    requires
        store_wf(s),
        confirm_spec(s, id).1 is Ok,
    ensures
        ({
            let (once, first) = confirm_spec(s, id);
            let (twice, second) = confirm_spec(once, id);
            &&& first->Ok_0.status == ReservationStatus::Confirmed
            &&& second == first
            &&& twice == once
        }),
{
    let (once, first) = confirm_spec(s, id);
    let i = index_of_id(s.rows, id).unwrap();
    assert(once.rows[i].id == id);
    let k = choose|k: int| 0 <= k < once.rows.len() && once.rows[k].id == id;
    if k < i {
        assert(s.rows[k].id < s.rows[i].id);
    }
    if k > i {
        assert(s.rows[i].id < s.rows[k].id);
    }
    assert(index_of_id(once.rows, id) == Some(i));
    assert(once.rows.update(i, with_status(once.rows[i], ReservationStatus::Confirmed))
        =~= once.rows);
}

/// Deleting a reservation a second time fails with "not found" for its id.
pub proof fn lemma_delete_twice(s: StoreView, id: i64)
    requires
        store_wf(s),
        delete_spec(s, id).1 is Ok,
    ensures
        delete_spec(delete_spec(s, id).0, id).1 == Err::<(), ErrorView>(
            ErrorView::ReservationNotFound(id),
        ),
{
    let after = delete_spec(s, id).0;
    let i = index_of_id(s.rows, id).unwrap();
    assert forall|k: int| 0 <= k < after.rows.len() implies after.rows[k].id != id by {
        if k < i {
            assert(after.rows[k] == s.rows[k]);
            assert(s.rows[k].id < s.rows[i].id);
        } else {
            assert(after.rows[k] == s.rows[k + 1]);
            assert(s.rows[i].id < s.rows[k + 1].id);
        }
    }
}

/// Storing a reservation that a filter does not select leaves that filter's result as
/// it was, so cursor positions already handed out stay valid.
pub proof fn lemma_filter_stable_under_unrelated_insert(
    s: StoreView,
    f: FilterView,
    r: ReservationView,
)
    requires
        store_wf(s),
        reserve_spec(s, r).1 is Ok,
        !filter_selects(f, reserve_spec(s, r).1->Ok_0),
    ensures
        filter_spec(reserve_spec(s, r).0, f) == filter_spec(s, f),
{
    let after = reserve_spec(s, r).0;
    assert(after.rows.drop_last() =~= s.rows);
}

/// Whatever `reserve` is asked, the stored rows stay well formed; in particular no two
/// stored reservations of one resource whose windows hold time share an instant
/// (an empty window `[a, a)` holds none, so it overlaps nothing).
pub proof fn lemma_reserve_keeps_windows_apart(s: StoreView, r: ReservationView)
    requires
        store_wf(s),
    ensures
        store_wf(reserve_spec(s, r).0),
        overlap_free(reserve_spec(s, r).0.rows),
        forall|a: int, b: int|
            0 <= a < reserve_spec(s, r).0.rows.len() && 0 <= b < reserve_spec(s, r).0.rows.len()
                && a != b && (#[trigger] reserve_spec(s, r).0.rows[a]).resource_id == (
            #[trigger] reserve_spec(s, r).0.rows[b]).resource_id
                && reserve_spec(s, r).0.rows[a].start.unwrap().precedes(
                reserve_spec(s, r).0.rows[a].end.unwrap(),
            ) && reserve_spec(s, r).0.rows[b].start.unwrap().precedes(
                reserve_spec(s, r).0.rows[b].end.unwrap(),
            ) ==> !(reserve_spec(s, r).0.rows[a].start.unwrap().precedes(
                reserve_spec(s, r).0.rows[b].end.unwrap(),
            ) && reserve_spec(s, r).0.rows[b].start.unwrap().precedes(
                reserve_spec(s, r).0.rows[a].end.unwrap(),
            )),
{
    let (after, res) = reserve_spec(s, r);
    if res is Ok {
        let pending = with_status(r, ReservationStatus::Pending);
        let stored = res->Ok_0;
        let n = s.rows.len() as int;
        assert(after.rows == s.rows.push(stored));
        assert forall|a: int, b: int|
            0 <= a < after.rows.len() && 0 <= b < after.rows.len() && a != b implies !clashes(
            #[trigger] after.rows[a],
            #[trigger] after.rows[b],
        ) by {
            if a == n {
                assert(!clashes(pending, s.rows[b]));
            } else if b == n {
                assert(!clashes(pending, s.rows[a]));
            } else {
                assert(!clashes(s.rows[a], s.rows[b]));
            }
        }
    }
}

/// An empty text stands for no filter on its dimension.
pub fn str_to_option(s: &str) -> (r: Option<String>)
    ensures
        r.is_none() == (s@.len() == 0),
        r.is_some() ==> r.unwrap()@ == s@,
{
    if s.is_empty() {
        None
    } else {
        Some(s.to_owned())
    }
}

/// A request made ready for storing: validated, with its status set to pending.
pub fn prepare_reservation(rsvp: Reservation) -> (r: Result<Reservation, ReservationError>)
    ensures
        r.is_ok() == reservation_violation(rsvp@).is_none(),
        r.is_err() ==> reservation_violation(rsvp@) == Some(r->Err_0@),
        r.is_ok() ==> r->Ok_0@ == with_status(rsvp@, ReservationStatus::Pending),
{
    match rsvp.validate() {
        Ok(()) => {},
        Err(e) => return Err(e),
    }
    let mut row = rsvp;
    row.status = ReservationStatus::Pending;
    Ok(row)
}

/// No row starts before a row that comes earlier.
pub open spec fn ordered_by_start(rows: Seq<ReservationView>) -> bool {
    forall|i: int, j: int|
        0 <= i < j < rows.len() ==> !(#[trigger] rows[j]).start.unwrap().precedes(
            (#[trigger] rows[i]).start.unwrap(),
        )
}

/// `x` goes in at the position `p` where the rows before start no later than it and
/// the rows after start later.
proof fn lemma_insert_position(sorted: Seq<ReservationView>, x: ReservationView) -> (p: int)
    ensures
        0 <= p <= sorted.len(),
        insert_by_start(sorted, x) == sorted.take(p).push(x) + sorted.skip(p),
        forall|k: int| p <= k < sorted.len() ==> x.start.unwrap().precedes(
            (#[trigger] sorted[k]).start.unwrap(),
        ),
        p > 0 ==> !x.start.unwrap().precedes(sorted[p - 1].start.unwrap()),
    decreases sorted.len(),
{
    if sorted.len() == 0 {
        assert(sorted.take(0).push(x) + sorted.skip(0) =~= seq![x]);
        0
    } else if x.start.unwrap().precedes(sorted.last().start.unwrap()) {
        let shorter = sorted.drop_last();
        let p = lemma_insert_position(shorter, x);
        assert(shorter.take(p) =~= sorted.take(p));
        assert((shorter.take(p).push(x) + shorter.skip(p)).push(sorted.last()) =~= sorted.take(
            p,
        ).push(x) + sorted.skip(p));
        assert forall|k: int| p <= k < sorted.len() implies x.start.unwrap().precedes(
            (#[trigger] sorted[k]).start.unwrap(),
        ) by {
            if k < sorted.len() - 1 {
                assert(sorted[k] == shorter[k]);
            }
        }
        p
    } else {
        let n = sorted.len() as int;
        assert(sorted.take(n).push(x) + sorted.skip(n) =~= sorted.push(x));
        n
    }
}

proof fn lemma_insert_keeps_order(sorted: Seq<ReservationView>, x: ReservationView)
    requires
        ordered_by_start(sorted),
    ensures
        ordered_by_start(insert_by_start(sorted, x)),
{
    let p = lemma_insert_position(sorted, x);
    let r = insert_by_start(sorted, x);
    assert forall|i: int, j: int| 0 <= i < j < r.len() implies !(#[trigger] r[j]).start.unwrap().precedes(
        (#[trigger] r[i]).start.unwrap(),
    ) by {
        let si = if i < p { i } else { i - 1 };
        let sj = if j < p { j } else { j - 1 };
        if i != p && j != p {
            assert(r[i] == sorted[si] && r[j] == sorted[sj]);
        } else if i == p {
            assert(r[i] == x && r[j] == sorted[sj]);
        } else {
            assert(r[j] == x && r[i] == sorted[si]);
            assert(!x.start.unwrap().precedes(sorted[p - 1].start.unwrap()));
            if si < p - 1 {
                assert(!sorted[p - 1].start.unwrap().precedes(sorted[si].start.unwrap()));
            }
        }
    }
}

/// What `query` sorts comes out ordered by start.
pub proof fn lemma_sort_by_start_ordered(rows: Seq<ReservationView>)
    ensures
        ordered_by_start(sort_by_start(rows)),
    decreases rows.len(),
{
    if rows.len() > 0 {
        lemma_sort_by_start_ordered(rows.drop_last());
        lemma_insert_keeps_order(sort_by_start(rows.drop_last()), rows.last());
    }
}
} // verus!
