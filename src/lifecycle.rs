use vstd::prelude::*;
use crate::room_booking::BookingStatus;

verus! {

/// The legal status transitions: from `Confirmed` to `Complete` or to
/// `Cancelled`. Both targets are terminal.
pub open spec fn may_move(current: BookingStatus, requested: BookingStatus) -> bool {
    current == BookingStatus::Confirmed && requested != BookingStatus::Confirmed
}

/// Whether a booking whose status is `current` may be moved to `requested`.
pub fn transition_allowed(current: BookingStatus, requested: BookingStatus) -> (r: bool)
    ensures
        r == may_move(current, requested),
{
    match current {
        BookingStatus::Confirmed => match requested {
            BookingStatus::Confirmed => false,
            BookingStatus::Complete => true,
            BookingStatus::Cancelled => true,
        },
        BookingStatus::Complete => false,
        BookingStatus::Cancelled => false,
    }
}

} // verus!
