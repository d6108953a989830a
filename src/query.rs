use vstd::prelude::*;

use crate::error::{ErrorView, ReservationError};
use crate::reservation::{get_timespan, range_violation, validate_range, Validator};
use crate::status::ReservationStatus;
use crate::timestamp::Timestamp;

verus! {

/// Page size used where a request asks for none, or for more than the largest.
pub const DEFAULT_PAGE_SIZE: i32 = 10;

/// The largest page a request may ask for.
pub const MAX_PAGE_SIZE: i32 = 100;

/// A read of the reservations that lie within a window, a page at a time, ordered
/// by start. An empty user or resource, and the status `Unknown`, leave that
/// dimension unfiltered; with neither end point the window is unbounded.
#[derive(Clone, Debug, PartialEq, Eq)]
pub struct ReservationQuery {
    pub user_id: String,
    pub resource_id: String,
    pub status: ReservationStatus,
    pub start: Option<Timestamp>,
    pub end: Option<Timestamp>,
    /// Pages count from 1; lower numbers stand for the first page.
    pub page: i32,
    /// Between 1 and the largest page size; any other number stands for the default.
    pub page_size: i32,
    pub desc: bool,
}

pub struct QueryView {
    pub user_id: Seq<char>,
    pub resource_id: Seq<char>,
    pub status: ReservationStatus,
    pub start: Option<Timestamp>,
    pub end: Option<Timestamp>,
    pub page: i32,
    pub page_size: i32,
    pub desc: bool,
}

impl View for ReservationQuery {
    type V = QueryView;

    open spec fn view(&self) -> QueryView {
        QueryView {
            user_id: self.user_id@,
            resource_id: self.resource_id@,
            status: self.status,
            start: self.start,
            end: self.end,
            page: self.page,
            page_size: self.page_size,
            desc: self.desc,
        }
    }
}

/// A read of the reservations after a cursor, ordered by id: ascending, those with an
/// id above the cursor; descending, those below it, where a cursor of zero starts from
/// the top. Empty texts and the status `Unknown` leave a dimension
/// unfiltered.
#[derive(Clone, Debug, PartialEq, Eq)]
pub struct ReservationFilter {
    pub user_id: String,
    pub resource_id: String,
    pub status: ReservationStatus,
    pub cursor: i64,
    pub desc: bool,
    /// Between 1 and the largest page size; any other number stands for the default.
    pub page_size: i32,
}

pub struct FilterView {
    pub user_id: Seq<char>,
    pub resource_id: Seq<char>,
    pub status: ReservationStatus,
    pub cursor: i64,
    pub desc: bool,
    pub page_size: i32,
}

impl View for ReservationFilter {
    type V = FilterView;

    open spec fn view(&self) -> FilterView {
        FilterView {
            user_id: self.user_id@,
            resource_id: self.resource_id@,
            status: self.status,
            cursor: self.cursor,
            desc: self.desc,
            page_size: self.page_size,
        }
    }
}

/// The number of rows a page holds.
pub open spec fn effective_page_size(page_size: i32) -> int {
    if 1 <= page_size <= MAX_PAGE_SIZE {
        page_size as int
    } else {
        DEFAULT_PAGE_SIZE as int
    }
}

pub fn page_size_of(page_size: i32) -> (r: i32)
    ensures
        r == effective_page_size(page_size),
        1 <= r <= MAX_PAGE_SIZE,
{
    if 1 <= page_size && page_size <= MAX_PAGE_SIZE {
        page_size
    } else {
        DEFAULT_PAGE_SIZE
    }
}

/// A query's window: none at all, or both end points with the end no earlier than the
/// start.
pub open spec fn query_violation(q: QueryView) -> Option<ErrorView> {
    if q.start is None && q.end is None {
        None
    } else {
        range_violation(q.start, q.end)
    }
}

impl ReservationQuery {
    pub fn new(
        uid: &str,
        rid: &str,
        start: Option<Timestamp>,
        end: Option<Timestamp>,
        status: ReservationStatus,
        page: i32,
        is_desc: bool,
        page_size: i32,
    ) -> (r: ReservationQuery)
        ensures
            r@ == (QueryView {
                user_id: uid@,
                resource_id: rid@,
                status,
                start,
                end,
                page,
                page_size,
                desc: is_desc,
            }),
    {
        ReservationQuery {
            user_id: uid.to_owned(),
            resource_id: rid.to_owned(),
            status,
            start,
            end,
            page,
            page_size,
            desc: is_desc,
        }
    }
}

impl ReservationQuery {
    /// The query's window, where both end points are given in order.
    pub fn get_timespan(&self) -> (r: Result<(Timestamp, Timestamp), ReservationError>)
        ensures
            r.is_ok() == range_violation(self.start, self.end).is_none(),
            r.is_ok() ==> self.start == Some(r.unwrap().0) && self.end == Some(r.unwrap().1),
            r.is_err() ==> r->Err_0@ == ErrorView::InvalidTimespan,
    {
        get_timespan(self.start, self.end)
    }
}

/// No filter on any dimension, no window, the first page of the default size, ascending.
impl Default for ReservationQuery {
    fn default() -> (r: ReservationQuery)
        ensures
            r@ == (QueryView {
                user_id: Seq::empty(),
                resource_id: Seq::empty(),
                status: ReservationStatus::Unknown,
                start: None,
                end: None,
                page: 1,
                page_size: DEFAULT_PAGE_SIZE,
                desc: false,
            }),
    {
        ReservationQuery {
            user_id: String::new(),
            resource_id: String::new(),
            status: ReservationStatus::Unknown,
            start: None,
            end: None,
            page: 1,
            page_size: DEFAULT_PAGE_SIZE,
            desc: false,
        }
    }
}

/// No filter on any dimension, from the start, the default page size, ascending.
impl Default for ReservationFilter {
    fn default() -> (r: ReservationFilter)
        ensures
            r@ == (FilterView {
                user_id: Seq::empty(),
                resource_id: Seq::empty(),
                status: ReservationStatus::Unknown,
                cursor: 0,
                desc: false,
                page_size: DEFAULT_PAGE_SIZE,
            }),
    {
        ReservationFilter {
            user_id: String::new(),
            resource_id: String::new(),
            status: ReservationStatus::Unknown,
            cursor: 0,
            desc: false,
            page_size: DEFAULT_PAGE_SIZE,
        }
    }
}

impl Validator for ReservationQuery {
    open spec fn first_violation(&self) -> Option<ErrorView> {
        query_violation(self@)
    }

    fn validate(&self) -> (r: Result<(), ReservationError>) {
        if self.start.is_none() && self.end.is_none() {
            return Ok(());
        }
        validate_range(self.start, self.end)
    }
}

impl ReservationFilter {
    pub fn new(
        uid: &str,
        rid: &str,
        status: ReservationStatus,
        cursor: i64,
        is_desc: bool,
        page_size: i32,
    ) -> (r: ReservationFilter)
        ensures
            r@ == (FilterView {
                user_id: uid@,
                resource_id: rid@,
                status,
                cursor,
                desc: is_desc,
                page_size,
            }),
    {
        ReservationFilter {
            user_id: uid.to_owned(),
            resource_id: rid.to_owned(),
            status,
            cursor,
            desc: is_desc,
            page_size,
        }
    }
}

} // verus!
