use vstd::prelude::*;

verus! {

/// The allowed values for the status of a booking.
#[derive(Clone, Copy, Debug, PartialEq, Eq, Structural)]
pub enum BookingStatus {
    /// Paid for; the guest has not checked in yet.
    Confirmed,
    /// The guest has checked in to the room.
    Complete,
    /// The guest has cancelled the booking.
    Cancelled,
}

/// The status named by a text, if the text is one of the three status names.
pub open spec fn status_named(text: Seq<char>) -> Option<BookingStatus> {
    if text == "Confirmed"@ {
        Some(BookingStatus::Confirmed)
    } else if text == "Complete"@ {
        Some(BookingStatus::Complete)
    } else if text == "Cancelled"@ {
        Some(BookingStatus::Cancelled)
    } else {
        None
    }
}

/// Whether two texts hold the same characters.
pub(crate) fn same_text(a: &str, b: &str) -> (r: bool)
    ensures
        r == (a@ == b@),
{
    let n = a.unicode_len();
    if n != b.unicode_len() {
        return false;
    }
    let mut i: usize = 0;
    while i < n
        invariant
            n == a@.len(),
            n == b@.len(),
            i <= n,
            a@.subrange(0, i as int) == b@.subrange(0, i as int),
        decreases n - i,
    {
        if a.get_char(i) != b.get_char(i) {
            return false;
        }
        assert(a@.subrange(0, i + 1) == a@.subrange(0, i as int).push(a@[i as int]));
        assert(b@.subrange(0, i + 1) == b@.subrange(0, i as int).push(b@[i as int]));
        i = i + 1;
    }
    assert(a@ == a@.subrange(0, n as int));
    assert(b@ == b@.subrange(0, n as int));
    true
}

impl BookingStatus {
    /// Converts a status name (`Confirmed`, `Complete` or `Cancelled`) into
    /// the corresponding status; any other text gives `None`.
    pub fn from_string(value: &str) -> (r: Option<BookingStatus>)
        ensures
            r == status_named(value@),
    {
        if same_text(value, "Confirmed") {
            Some(BookingStatus::Confirmed)
        } else if same_text(value, "Complete") {
            Some(BookingStatus::Complete)
        } else if same_text(value, "Cancelled") {
            Some(BookingStatus::Cancelled)
        } else {
            None
        }
    }
}

/// A single room booking.
#[derive(Clone, Debug)]
pub struct RoomBooking {
    pub booking_id: Option<u32>,
    pub customer_id: u32,
    pub room_type_id: u8,
    pub check_in_date: String,
    pub check_out_date: String,
    pub status: Option<BookingStatus>,
}

/// The mathematical value of a booking: its dates as character sequences.
pub struct RoomBookingView {
    pub booking_id: Option<u32>,
    pub customer_id: u32,
    pub room_type_id: u8,
    pub check_in_date: Seq<char>,
    pub check_out_date: Seq<char>,
    pub status: Option<BookingStatus>,
}

impl View for RoomBooking {
    type V = RoomBookingView;

    open spec fn view(&self) -> RoomBookingView {
        RoomBookingView {
            booking_id: self.booking_id,
            customer_id: self.customer_id,
            room_type_id: self.room_type_id,
            check_in_date: self.check_in_date@,
            check_out_date: self.check_out_date@,
            status: self.status,
        }
    }
}

impl RoomBookingView {
    pub open spec fn with_booking_id(self, booking_id: u32) -> RoomBookingView {
        RoomBookingView { booking_id: Some(booking_id), ..self }
    }

    pub open spec fn with_status(self, status: BookingStatus) -> RoomBookingView {
        RoomBookingView { status: Some(status), ..self }
    }
}

impl RoomBooking {
    /// Sets the booking id of this booking.
    pub fn set_booking_id(&mut self, booking_id: u32)
        ensures
            final(self)@ == old(self)@.with_booking_id(booking_id),
    {
        self.booking_id = Some(booking_id);
    }

    /// Sets the status of this booking.
    pub fn set_status(&mut self, booking_status: BookingStatus)
        ensures
            final(self)@ == old(self)@.with_status(booking_status),
    {
        self.status = Some(booking_status);
    }

    /// A copy of this booking, field for field.
    pub fn duplicate(&self) -> (r: RoomBooking)
        ensures
            r@ == self@,
    {
        RoomBooking {
            booking_id: self.booking_id,
            customer_id: self.customer_id,
            room_type_id: self.room_type_id,
            check_in_date: self.check_in_date.clone(),
            check_out_date: self.check_out_date.clone(),
            status: self.status,
        }
    }
}

impl PartialEq for RoomBooking {
    fn eq(&self, other: &RoomBooking) -> (r: bool)
        ensures
            r == (self@ == other@),
    {
        self.booking_id == other.booking_id && self.customer_id == other.customer_id
            && self.room_type_id == other.room_type_id && self.check_in_date == other.check_in_date
            && self.check_out_date == other.check_out_date && self.status == other.status
    }
}

impl vstd::std_specs::cmp::PartialEqSpecImpl for RoomBooking {
    open spec fn obeys_eq_spec() -> bool {
        true
    }

    open spec fn eq_spec(&self, other: &RoomBooking) -> bool {
        self@ == other@
    }
}

} // verus!
