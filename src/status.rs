use vstd::prelude::*;

verus! {

/// Lifecycle state of a reservation.
#[derive(Clone, Copy, Debug, PartialEq, Eq, Structural)]
pub enum ReservationStatus {
    Unknown,
    Pending,
    Confirmed,
    Blocked,
}

/// The status as the storage engine labels it.
#[derive(Clone, Copy, Debug, PartialEq, Eq, Structural)]
pub enum RsvpStatus {
    Unknown,
    Pending,
    Confirmed,
    Blocked,
}

impl ReservationStatus {
    /// Wire number of each status.
    pub open spec fn code(self) -> int {
        match self {
            ReservationStatus::Unknown => 0,
            ReservationStatus::Pending => 1,
            ReservationStatus::Confirmed => 2,
            ReservationStatus::Blocked => 3,
        }
    }

    /// Lower-case label of each status.
    pub open spec fn label(self) -> Seq<char> {
        match self {
            ReservationStatus::Unknown => "unknown"@,
            ReservationStatus::Pending => "pending"@,
            ReservationStatus::Confirmed => "confirmed"@,
            ReservationStatus::Blocked => "blocked"@,
        }
    }

    /// A reservation holds its window exclusively while pending or confirmed.
    pub open spec fn holds_window(self) -> bool {
        self == ReservationStatus::Pending || self == ReservationStatus::Confirmed
    }

    pub fn from_i32(value: i32) -> (r: Option<ReservationStatus>)
        ensures
            r.is_some() <==> 0 <= value <= 3,
            r.is_some() ==> r.unwrap().code() == value,
    {
        match value {
            0 => Some(ReservationStatus::Unknown),
            1 => Some(ReservationStatus::Pending),
            2 => Some(ReservationStatus::Confirmed),
            3 => Some(ReservationStatus::Blocked),
            _ => None,
        }
    }

    pub fn as_i32(&self) -> (r: i32)
        ensures
            r == self.code(),
    {
        match self {
            ReservationStatus::Unknown => 0,
            ReservationStatus::Pending => 1,
            ReservationStatus::Confirmed => 2,
            ReservationStatus::Blocked => 3,
        }
    }

    pub fn as_str(&self) -> (r: &'static str)
        ensures
            r@ == self.label(),
    {
        match self {
            ReservationStatus::Unknown => "unknown",
            ReservationStatus::Pending => "pending",
            ReservationStatus::Confirmed => "confirmed",
            ReservationStatus::Blocked => "blocked",
        }
    }

    /// The status whose label is `text`.
    pub fn from_label(text: &str) -> (r: Option<ReservationStatus>)
        ensures
            r.is_some() <==> (text@ == "unknown"@ || text@ == "pending"@ || text@ == "confirmed"@
                || text@ == "blocked"@),
            r.is_some() ==> r.unwrap().label() == text@,
    {
        let t = text.to_owned();
        if t == "unknown".to_owned() {
            Some(ReservationStatus::Unknown)
        } else if t == "pending".to_owned() {
            Some(ReservationStatus::Pending)
        } else if t == "confirmed".to_owned() {
            Some(ReservationStatus::Confirmed)
        } else if t == "blocked".to_owned() {
            Some(ReservationStatus::Blocked)
        } else {
            None
        }
    }

    pub fn is_holding(&self) -> (r: bool)
        ensures
            r == self.holds_window(),
    {
        match self {
            ReservationStatus::Pending | ReservationStatus::Confirmed => true,
            _ => false,
        }
    }
}

impl RsvpStatus {
    /// The record status that each storage label stands for.
    pub open spec fn as_status(self) -> ReservationStatus {
        match self {
            RsvpStatus::Unknown => ReservationStatus::Unknown,
            RsvpStatus::Pending => ReservationStatus::Pending,
            RsvpStatus::Confirmed => ReservationStatus::Confirmed,
            RsvpStatus::Blocked => ReservationStatus::Blocked,
        }
    }
}

impl From<RsvpStatus> for ReservationStatus {
    fn from(value: RsvpStatus) -> (r: ReservationStatus) {
        match value {
            RsvpStatus::Pending => ReservationStatus::Pending,
            RsvpStatus::Blocked => ReservationStatus::Blocked,
            RsvpStatus::Confirmed => ReservationStatus::Confirmed,
            RsvpStatus::Unknown => ReservationStatus::Unknown,
        }
    }
}

impl vstd::std_specs::convert::FromSpecImpl<RsvpStatus> for ReservationStatus {
    open spec fn obeys_from_spec() -> bool {
        true
    }

    open spec fn from_spec(v: RsvpStatus) -> ReservationStatus {
        v.as_status()
    }
}

} // verus!
