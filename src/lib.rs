//! A booking record keeper: an in-memory store of room bookings with
//! identity allocation, a status lifecycle and whole-collection snapshots.

pub mod lifecycle;
pub mod room_booking;
pub mod snapshot;
pub mod storage;

pub use lifecycle::transition_allowed;
pub use room_booking::{BookingStatus, RoomBooking, RoomBookingView};
pub use snapshot::{
    bookings_from_entries, encode_snapshot, load_snapshot, SnapshotEntry, SnapshotError,
};
pub use storage::{
    create, fetch_all, fetch_by_check_in_date, fetch_by_customer_id, fetch_by_id,
    fetch_by_room_type_id, status, BookingStore,
};
