//! Exclusive, time-bound reservations of shared resources: validation, conflict
//! diagnostics, the error taxonomy, and a reservation manager over a storage engine
//! that rejects overlapping windows.

pub mod config;
pub mod conflict;
pub mod error;
pub mod manager;
pub mod query;
pub mod reservation;
pub mod service;
pub mod status;
pub mod text;
pub mod timestamp;

pub use config::{default_pool_size, Config, DbConfig, ServerConfig};
pub use conflict::{
    parse_datetime, KeyValues, ParsedInfo, ReservationConflict, ReservationConflictInfo,
    ReservationWindow,
};
pub use error::{ReservationError, StatusCode, StorageFailure};
pub use manager::{prepare_reservation, str_to_option, ReservationManager};
pub use query::{ReservationFilter, ReservationQuery};
pub use reservation::{get_timespan, validate_range, Reservation, ReservationId, Validator};
pub use service::{RpcStatus, RsvpService};
pub use status::{ReservationStatus, RsvpStatus};
pub use timestamp::Timestamp;
