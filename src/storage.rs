use vstd::prelude::*;
use crate::lifecycle::{may_move, transition_allowed};
use crate::room_booking::{same_text, BookingStatus, RoomBooking, RoomBookingView};

verus! {

/// The views of a sequence of bookings.
pub open spec fn views(s: Seq<RoomBooking>) -> Seq<RoomBookingView> {
    s.map_values(|b: RoomBooking| b@)
}

/// The id of a booking as a natural number, zero while unassigned.
pub open spec fn id_value(b: RoomBookingView) -> nat {
    match b.booking_id {
        Some(id) => id as nat,
        None => 0,
    }
}

/// The largest booking id present, or zero for an empty collection.
pub open spec fn max_id(s: Seq<RoomBookingView>) -> nat
    decreases s.len(),
{
    if s.len() == 0 {
        0
    } else {
        let rest = max_id(s.drop_last());
        if id_value(s.last()) > rest {
            id_value(s.last())
        } else {
            rest
        }
    }
}

/// The id that the next created booking receives.
pub open spec fn next_id(s: Seq<RoomBookingView>) -> nat {
    max_id(s) + 1
}

/// A booking as the store holds it: id and status both assigned.
pub open spec fn is_stored(b: RoomBookingView) -> bool {
    b.booking_id is Some && b.status is Some
}

/// Every booking is stored with id and status, and no two share an id.
pub open spec fn well_formed(s: Seq<RoomBookingView>) -> bool {
    &&& forall|i: int| 0 <= i < s.len() ==> is_stored(#[trigger] s[i])
    &&& forall|i: int, j: int|
        0 <= i < s.len() && 0 <= j < s.len() && i != j ==> #[trigger] s[i].booking_id
            != #[trigger] s[j].booking_id
}

/// The booking with the given id, if one is present.
pub open spec fn find_id(s: Seq<RoomBookingView>, id: u32) -> Option<RoomBookingView>
    decreases s.len(),
{
    if s.len() == 0 {
        None
    } else if s.last().booking_id == Some(id) {
        Some(s.last())
    } else {
        find_id(s.drop_last(), id)
    }
}

/// The collection after the booking with the given id takes a new status.
pub open spec fn with_status_of(
    s: Seq<RoomBookingView>,
    id: u32,
    status: BookingStatus,
) -> Seq<RoomBookingView> {
    s.map_values(
        |b: RoomBookingView|
            if b.booking_id == Some(id) {
                b.with_status(status)
            } else {
                b
            },
    )
}

/// Whether a status change of the booking with the given id is accepted:
/// the booking exists and its status may move to the requested one.
pub open spec fn status_change_accepted(
    s: Seq<RoomBookingView>,
    id: u32,
    status: BookingStatus,
) -> bool {
    match find_id(s, id) {
        Some(b) => match b.status {
            Some(current) => may_move(current, status),
            None => false,
        },
        None => false,
    }
}

/// Every id present is at most the maximum.
pub proof fn lemma_max_id_bounds(s: Seq<RoomBookingView>)
    ensures
        forall|i: int| 0 <= i < s.len() ==> id_value(#[trigger] s[i]) <= max_id(s),
    decreases s.len(),
{
    if s.len() > 0 {
        lemma_max_id_bounds(s.drop_last());
        assert forall|i: int| 0 <= i < s.len() implies id_value(#[trigger] s[i]) <= max_id(s) by {
            if i < s.len() - 1 {
                assert(s[i] == s.drop_last()[i]);
            }
        }
    }
}

/// Appending a booking raises the maximum to its id when that id is larger.
pub proof fn lemma_max_id_push(s: Seq<RoomBookingView>, b: RoomBookingView)
    ensures
        max_id(s.push(b)) == if id_value(b) > max_id(s) {
            id_value(b)
        } else {
            max_id(s)
        },
{
    assert(s.push(b).drop_last() == s);
}

/// `find_id` gives the one booking that carries the id, if any does.
pub proof fn lemma_find_id(s: Seq<RoomBookingView>, id: u32)
    requires
        well_formed(s),
    ensures
        find_id(s, id) is None <==> forall|i: int| 0 <= i < s.len() ==> #[trigger] s[i].booking_id != Some(id),
        forall|i: int| 0 <= i < s.len() && #[trigger] s[i].booking_id == Some(id) ==> find_id(s, id) == Some(s[i]),
    decreases s.len(),
{
    if s.len() > 0 {
        let t = s.drop_last();
        assert forall|i: int, j: int|
            0 <= i < t.len() && 0 <= j < t.len() && i != j implies #[trigger] t[i].booking_id
                != #[trigger] t[j].booking_id by {
            assert(t[i] == s[i] && t[j] == s[j]);
        }
        assert forall|i: int| 0 <= i < t.len() implies is_stored(#[trigger] t[i]) by {
            assert(t[i] == s[i]);
        }
        lemma_find_id(t, id);
        assert forall|i: int| 0 <= i < s.len() - 1 implies #[trigger] s[i] == t[i] by {}
    }
}

/// The bookings held by the system.
///
/// The bookings sit in a `Vec`, in the order they were created or loaded,
/// rather than in a map keyed by id. Uniqueness of ids is the store's
/// invariant (`well_formed`), checked on every way in. The lookups by
/// customer, room type and date walk every booking, so a fixed order lets
/// their results be stated exactly as a filter of the store's sequence. A
/// `HashMap` would hand them out in an order that is not a function of its
/// contents, which would leave those results stated only up to order.
pub struct BookingStore {
    bookings: Vec<RoomBooking>,
}

impl View for BookingStore {
    type V = Seq<RoomBookingView>;

    closed spec fn view(&self) -> Seq<RoomBookingView> {
        views(self.bookings@)
    }
}

impl BookingStore {
    /// Whether the store's contents meet its invariant.
    pub open spec fn wf(&self) -> bool {
        well_formed(self@)
    }

    /// An empty store.
    pub fn new() -> (r: BookingStore)
        ensures
            r.wf(),
            r@ == Seq::<RoomBookingView>::empty(),
    {
        let r = BookingStore { bookings: Vec::new() };
        assert(r@ == Seq::<RoomBookingView>::empty());
        r
    }

    /// The number of bookings held.
    pub fn len(&self) -> (r: usize)
        ensures
            r == self@.len(),
    {
        self.bookings.len()
    }

    /// The largest booking id present, or zero when the store is empty.
    pub fn max_booking_id(&self) -> (r: u32)
        ensures
            r as nat == max_id(self@),
    {
        let mut r: u32 = 0;
        let mut i: usize = 0;
        while i < self.bookings.len()
            invariant
                i <= self.bookings@.len(),
                r as nat == max_id(self@.subrange(0, i as int)),
                self@ == views(self.bookings@),
            decreases self.bookings@.len() - i,
        {
            proof {
                let prefix = self@.subrange(0, i as int);
                assert(self@.subrange(0, i + 1) == prefix.push(self@[i as int]));
                lemma_max_id_push(prefix, self@[i as int]);
            }
            match self.bookings[i].booking_id {
                Some(id) => {
                    if id > r {
                        r = id;
                    }
                },
                None => {},
            }
            i = i + 1;
        }
        assert(self@.subrange(0, i as int) == self@);
        r
    }
    /// A store holding exactly the given bookings, if they meet the store's
    /// invariant: each has an id and a status, and no two share an id.
    pub fn from_bookings(bookings: Vec<RoomBooking>) -> (r: Option<BookingStore>)
        ensures
            r is Some <==> well_formed(views(bookings@)),
            r matches Some(s) ==> s.wf() && s@ == views(bookings@),
    {
        let ghost w = views(bookings@);
        let mut i: usize = 0;
        while i < bookings.len()
            invariant
                i <= bookings@.len(),
                w == views(bookings@),
                forall|a: int| 0 <= a < i ==> is_stored(#[trigger] w[a]),
                forall|a: int, b: int|
                    0 <= a < i && 0 <= b < i && a != b ==> #[trigger] w[a].booking_id
                        != #[trigger] w[b].booking_id,
            decreases bookings@.len() - i,
        {
            if bookings[i].booking_id.is_none() || bookings[i].status.is_none() {
                assert(!is_stored(w[i as int]));
                return None;
            }
            let mut j: usize = 0;
            while j < i
                invariant
                    i < bookings@.len(),
                    j <= i,
                    w == views(bookings@),
                    forall|b: int| 0 <= b < j ==> #[trigger] w[b].booking_id != w[i as int].booking_id,
                decreases i - j,
            {
                if bookings[j].booking_id == bookings[i].booking_id {
                    assert(w[j as int].booking_id == w[i as int].booking_id);
                    return None;
                }
                j = j + 1;
            }
            i = i + 1;
        }
        Some(BookingStore { bookings })
    }

    /// The index of the booking with the given id, if one is present.
    fn position_of(&self, booking_id: u32) -> (r: Option<usize>)
        ensures
            r matches Some(i) ==> i < self@.len() && self@[i as int].booking_id == Some(booking_id),
            r is None ==> forall|i: int| 0 <= i < self@.len() ==> #[trigger] self@[i].booking_id != Some(booking_id),
    {
        let mut i: usize = 0;
        while i < self.bookings.len()
            invariant
                i <= self.bookings@.len(),
                self@ == views(self.bookings@),
                forall|j: int| 0 <= j < i ==> #[trigger] self@[j].booking_id != Some(booking_id),
            decreases self.bookings@.len() - i,
        {
            if self.bookings[i].booking_id == Some(booking_id) {
                return Some(i);
            }
            i = i + 1;
        }
        None
    }
}

/// The view of a sequence grows by the view of the pushed booking.
pub proof fn lemma_views_push(s: Seq<RoomBooking>, b: RoomBooking)
    ensures
        views(s.push(b)) == views(s).push(b@),
{
    assert(views(s.push(b)) =~= views(s).push(b@));
}

/// Creates a booking. The caller leaves `booking_id` and `status` unset; the
/// store assigns one more than the largest id present and the status
/// `Confirmed`, keeps the booking and returns a copy of it. A booking that
/// arrives with either field set is refused, as is one for which no id
/// remains.
pub fn create(store: &mut BookingStore, booking: RoomBooking) -> (r: Result<RoomBooking, ()>)
    requires
        old(store).wf(),
    ensures
        final(store).wf(),
        r is Ok <==> (booking.booking_id is None && booking.status is None && max_id(old(store)@)
            < u32::MAX),
        r matches Ok(b) ==> forall|i: int|
            0 <= i < old(store)@.len() ==> #[trigger] old(store)@[i].booking_id != b.booking_id,
        r matches Ok(b) ==> (b@ == booking@.with_booking_id(next_id(old(store)@) as u32).with_status(
            BookingStatus::Confirmed) && final(store)@ == old(store)@.push(b@)),
        r is Err ==> final(store)@ == old(store)@,
{
    if booking.booking_id.is_some() || booking.status.is_some() {
        return Err(());
    }
    let max = store.max_booking_id();
    if max == u32::MAX {
        return Err(());
    }
    let next = max + 1;
    let mut booking = booking;
    booking.set_booking_id(next);
    booking.set_status(BookingStatus::Confirmed);
    proof {
        lemma_max_id_bounds(store@);
        lemma_views_push(store.bookings@, booking);
    }
    let ghost before = store@;
    store.bookings.push(booking.duplicate());
    assert(store@ == before.push(booking@));
    assert forall|i: int| 0 <= i < store@.len() - 1 implies #[trigger] store@[i] == before[i] by {}
    Ok(booking)
}

/// Moves the booking with the given id to a new status. Returns false, and
/// changes nothing, when no booking has that id or its status may not move
/// to the requested one.
pub fn status(store: &mut BookingStore, booking_id: u32, new_status: BookingStatus) -> (r: bool)
    requires
        old(store).wf(),
    ensures
        final(store).wf(),
        r == status_change_accepted(old(store)@, booking_id, new_status),
        r ==> final(store)@ == with_status_of(old(store)@, booking_id, new_status),
        !r ==> final(store)@ == old(store)@,
{
    proof {
        lemma_find_id(store@, booking_id);
    }
    let i = match store.position_of(booking_id) {
        Some(i) => i,
        None => {
            return false;
        },
    };
    let current = match store.bookings[i].status {
        Some(current) => current,
        None => {
            return false;
        },
    };
    if !transition_allowed(current, new_status) {
        return false;
    }
    let ghost before = store@;
    let mut updated = store.bookings[i].duplicate();
    updated.set_status(new_status);
    store.bookings.set(i, updated);
    assert(store@ =~= with_status_of(before, booking_id, new_status)) by {
        assert forall|j: int| 0 <= j < before.len() implies #[trigger] store@[j] == (if before[j].booking_id == Some(booking_id) {
            before[j].with_status(new_status)
        } else {
            before[j]
        }) by {
            if j != i {
                assert(before[j].booking_id != before[i as int].booking_id);
            }
        }
    }
    true
}

/// The booking with the given id, if one is present.
pub fn fetch_by_id(store: &BookingStore, booking_id: u32) -> (r: Option<RoomBooking>)
    requires
        store.wf(),
    ensures
        match r {
            Some(b) => find_id(store@, booking_id) == Some(b@),
            None => find_id(store@, booking_id) is None,
        },
{
    proof {
        lemma_find_id(store@, booking_id);
    }
    match store.position_of(booking_id) {
        Some(i) => Some(store.bookings[i].duplicate()),
        None => None,
    }
}

/// The bookings of the given customer.
pub open spec fn by_customer(s: Seq<RoomBookingView>, customer_id: u32) -> Seq<RoomBookingView> {
    s.filter(|b: RoomBookingView| b.customer_id == customer_id)
}

/// The bookings whose check-in date is the given one.
pub open spec fn by_check_in_date(s: Seq<RoomBookingView>, date: Seq<char>) -> Seq<RoomBookingView> {
    s.filter(|b: RoomBookingView| b.check_in_date == date)
}

/// The bookings of the given room type.
pub open spec fn by_room_type(s: Seq<RoomBookingView>, room_type_id: u8) -> Seq<RoomBookingView> {
    s.filter(|b: RoomBookingView| b.room_type_id == room_type_id)
}

/// The bookings made by the given customer, in the order the store holds them.
pub fn fetch_by_customer_id(store: &BookingStore, customer_id: u32) -> (r: Vec<RoomBooking>)
    ensures
        views(r@) == by_customer(store@, customer_id),
{
    let mut r: Vec<RoomBooking> = Vec::new();
    let mut i: usize = 0;
    while i < store.bookings.len()
        invariant
            i <= store.bookings@.len(),
            store@ == views(store.bookings@),
            views(r@) == by_customer(store@.subrange(0, i as int), customer_id),
        decreases store.bookings@.len() - i,
    {
        proof {
            let prefix = store@.subrange(0, i as int);
            assert(store@.subrange(0, i + 1) == prefix.push(store@[i as int]));
            prefix.lemma_filter_push(store@[i as int], |b: RoomBookingView| b.customer_id == customer_id);
        }
        if store.bookings[i].customer_id == customer_id {
            let b = store.bookings[i].duplicate();
            proof {
                lemma_views_push(r@, b);
            }
            r.push(b);
        }
        i = i + 1;
    }
    assert(store@.subrange(0, i as int) == store@);
    r
}

/// The bookings that check in on the given date, in the order the store holds them.
pub fn fetch_by_check_in_date(store: &BookingStore, date: &str) -> (r: Vec<RoomBooking>)
    ensures
        views(r@) == by_check_in_date(store@, date@),
{
    let mut r: Vec<RoomBooking> = Vec::new();
    let mut i: usize = 0;
    while i < store.bookings.len()
        invariant
            i <= store.bookings@.len(),
            store@ == views(store.bookings@),
            views(r@) == by_check_in_date(store@.subrange(0, i as int), date@),
        decreases store.bookings@.len() - i,
    {
        proof {
            let prefix = store@.subrange(0, i as int);
            assert(store@.subrange(0, i + 1) == prefix.push(store@[i as int]));
            prefix.lemma_filter_push(store@[i as int], |b: RoomBookingView| b.check_in_date == date@);
        }
        if same_text(store.bookings[i].check_in_date.as_str(), date) {
            let b = store.bookings[i].duplicate();
            proof {
                lemma_views_push(r@, b);
            }
            r.push(b);
        }
        i = i + 1;
    }
    assert(store@.subrange(0, i as int) == store@);
    r
}

/// The bookings of the given room type, in the order the store holds them.
pub fn fetch_by_room_type_id(store: &BookingStore, room_type_id: u8) -> (r: Vec<RoomBooking>)
    ensures
        views(r@) == by_room_type(store@, room_type_id),
{
    let mut r: Vec<RoomBooking> = Vec::new();
    let mut i: usize = 0;
    while i < store.bookings.len()
        invariant
            i <= store.bookings@.len(),
            store@ == views(store.bookings@),
            views(r@) == by_room_type(store@.subrange(0, i as int), room_type_id),
        decreases store.bookings@.len() - i,
    {
        proof {
            let prefix = store@.subrange(0, i as int);
            assert(store@.subrange(0, i + 1) == prefix.push(store@[i as int]));
            prefix.lemma_filter_push(store@[i as int], |b: RoomBookingView| b.room_type_id == room_type_id);
        }
        if store.bookings[i].room_type_id == room_type_id {
            let b = store.bookings[i].duplicate();
            proof {
                lemma_views_push(r@, b);
            }
            r.push(b);
        }
        i = i + 1;
    }
    assert(store@.subrange(0, i as int) == store@);
    r
}

/// Copies of all bookings, in the order the store holds them.
pub fn fetch_all(store: &BookingStore) -> (r: Vec<RoomBooking>)
    ensures
        views(r@) == store@,
{
    let mut r: Vec<RoomBooking> = Vec::new();
    let mut i: usize = 0;
    while i < store.bookings.len()
        invariant
            i <= store.bookings@.len(),
            store@ == views(store.bookings@),
            views(r@) == store@.subrange(0, i as int),
        decreases store.bookings@.len() - i,
    {
        let b = store.bookings[i].duplicate();
        proof {
            lemma_views_push(r@, b);
            assert(store@.subrange(0, i + 1) == store@.subrange(0, i as int).push(b@));
        }
        r.push(b);
        i = i + 1;
    }
    assert(store@.subrange(0, i as int) == store@);
    r
}

/// Creation hands out ids in strictly increasing order. The first booking
/// created in an empty store gets id 1. The id a creation assigns exceeds
/// every id already stored, so it is unique, and the creation after it
/// assigns an id one larger still.
pub proof fn lemma_creation_ids(s: Seq<RoomBookingView>, created: RoomBookingView)
    requires
        well_formed(s),
        created.booking_id == Some(next_id(s) as u32),
        next_id(s) <= u32::MAX,
    ensures
        next_id(Seq::<RoomBookingView>::empty()) == 1,
        forall|i: int| 0 <= i < s.len() ==> #[trigger] id_value(s[i]) < id_value(created),
        next_id(s.push(created)) == next_id(s) + 1,
{
    lemma_max_id_bounds(s);
    lemma_max_id_push(s, created);
}

/// A status change keeps every id, so the id the next creation assigns is
/// the same before and after it. With `lemma_creation_ids` and the contract
/// of `create`, ids keep increasing across creations whatever status changes
/// and lookups come between them.
pub proof fn lemma_status_keeps_next_id(s: Seq<RoomBookingView>, id: u32, status: BookingStatus)
    ensures
        next_id(with_status_of(s, id, status)) == next_id(s),
    decreases s.len(),
{
    if s.len() > 0 {
        assert(with_status_of(s, id, status).drop_last() == with_status_of(s.drop_last(), id, status));
        lemma_status_keeps_next_id(s.drop_last(), id, status);
    }
}

/// Changing the status of the booking with `id` leaves every other booking
/// alone and gives that one the new status.
pub proof fn lemma_find_after_status(s: Seq<RoomBookingView>, id: u32, status: BookingStatus)
    ensures
        find_id(with_status_of(s, id, status), id) == match find_id(s, id) {
            Some(b) => Some(b.with_status(status)),
            None => None::<RoomBookingView>,
        },
    decreases s.len(),
{
    if s.len() > 0 {
        assert(with_status_of(s, id, status).drop_last() == with_status_of(s.drop_last(), id, status));
        lemma_find_after_status(s.drop_last(), id, status);
    }
}

/// A `Confirmed` booking accepts a move to `Complete` or `Cancelled` once:
/// afterwards no status change of the same id is accepted, whatever the
/// requested status, so the booking keeps its terminal status.
pub proof fn lemma_terminal_once(
    s: Seq<RoomBookingView>,
    id: u32,
    first: BookingStatus,
    second: BookingStatus,
)
    requires
        well_formed(s),
        find_id(s, id) matches Some(b) && b.status == Some(BookingStatus::Confirmed),
        first != BookingStatus::Confirmed,
    ensures
        status_change_accepted(s, id, first),
        find_id(with_status_of(s, id, first), id) == Some(find_id(s, id)->Some_0.with_status(first)),
        !status_change_accepted(with_status_of(s, id, first), id, second),
{
    lemma_find_after_status(s, id, first);
}

/// A status change of an id that no booking carries is never accepted.
pub proof fn lemma_missing_id_refused(s: Seq<RoomBookingView>, id: u32, status: BookingStatus)
    requires
        well_formed(s),
        forall|i: int| 0 <= i < s.len() ==> #[trigger] s[i].booking_id != Some(id),
    ensures
        !status_change_accepted(s, id, status),
{
    lemma_find_id(s, id);
}

/// A filter keeps exactly the elements that satisfy the predicate, each once
/// where the input holds each once.
pub proof fn lemma_filter_exact(s: Seq<RoomBookingView>, p: spec_fn(RoomBookingView) -> bool)
    ensures
        forall|x: RoomBookingView| #[trigger] s.filter(p).contains(x) <==> (s.contains(x) && p(x)),
        s.no_duplicates() ==> s.filter(p).no_duplicates(),
    decreases s.len(),
{
    reveal(Seq::filter);
    if s.len() > 0 {
        let t = s.drop_last();
        let x = s.last();
        lemma_filter_exact(t, p);
        assert(s == t.push(x));
        assert forall|y: RoomBookingView| #[trigger] s.contains(y) <==> (t.contains(y) || y == x) by {
            if s.contains(y) && y != x {
                let k = choose|k: int| 0 <= k < s.len() && s[k] == y;
                assert(t[k] == y);
            }
            if t.contains(y) {
                let k = choose|k: int| 0 <= k < t.len() && t[k] == y;
                assert(s[k] == y);
            }
            if y == x {
                assert(s[s.len() - 1] == y);
            }
        }
        let ft = t.filter(p);
        if p(x) {
            assert(s.filter(p) == ft.push(x));
            assert forall|y: RoomBookingView| #[trigger] ft.push(x).contains(y) <==> (ft.contains(y) || y == x) by {
                if ft.push(x).contains(y) && y != x {
                    let k = choose|k: int| 0 <= k < ft.len() + 1 && ft.push(x)[k] == y;
                    assert(ft[k] == y);
                }
                if ft.contains(y) {
                    let k = choose|k: int| 0 <= k < ft.len() && ft[k] == y;
                    assert(ft.push(x)[k] == y);
                }
                if y == x {
                    assert(ft.push(x)[ft.len() as int] == y);
                }
            }
            if s.no_duplicates() {
                assert(t.no_duplicates());
                assert(!t.contains(x)) by {
                    if t.contains(x) {
                        let k = choose|k: int| 0 <= k < t.len() && t[k] == x;
                        assert(s[k] == s[s.len() - 1]);
                    }
                }
                assert(!ft.contains(x));
                assert forall|a: int, b: int| 0 <= a < b < ft.len() + 1 implies ft.push(x)[a] != ft.push(x)[b] by {
                    if b == ft.len() {
                        assert(ft.contains(ft[a]));
                    }
                }
            }
        } else {
            assert(s.filter(p) == ft);
            if s.no_duplicates() {
                assert(t.no_duplicates());
            }
        }
    }
}

/// A well-formed collection holds no booking twice.
pub proof fn lemma_well_formed_distinct(s: Seq<RoomBookingView>)
    requires
        well_formed(s),
    ensures
        s.no_duplicates(),
{
    assert forall|i: int, j: int| 0 <= i < s.len() && 0 <= j < s.len() && i != j implies s[i] != s[j] by {
        assert(s[i].booking_id != s[j].booking_id);
    }
}

/// The lookups by customer, by room type and by check-in date give exactly
/// the stored bookings that match, each once, and no others.
pub proof fn lemma_selections_exact(
    s: Seq<RoomBookingView>,
    customer_id: u32,
    room_type_id: u8,
    date: Seq<char>,
)
    requires
        well_formed(s),
    ensures
        forall|x: RoomBookingView| #[trigger] by_customer(s, customer_id).contains(x)
            <==> (s.contains(x) && x.customer_id == customer_id),
        forall|x: RoomBookingView| #[trigger] by_room_type(s, room_type_id).contains(x)
            <==> (s.contains(x) && x.room_type_id == room_type_id),
        forall|x: RoomBookingView| #[trigger] by_check_in_date(s, date).contains(x)
            <==> (s.contains(x) && x.check_in_date == date),
        by_customer(s, customer_id).no_duplicates(),
        by_room_type(s, room_type_id).no_duplicates(),
        by_check_in_date(s, date).no_duplicates(),
{
    lemma_well_formed_distinct(s);
    lemma_filter_exact(s, |b: RoomBookingView| b.customer_id == customer_id);
    lemma_filter_exact(s, |b: RoomBookingView| b.room_type_id == room_type_id);
    lemma_filter_exact(s, |b: RoomBookingView| b.check_in_date == date);
}

} // verus!
