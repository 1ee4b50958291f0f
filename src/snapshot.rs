use vstd::prelude::*;
use crate::room_booking::{BookingStatus, RoomBooking, RoomBookingView};
use crate::storage::{fetch_all, views, well_formed, BookingStore};

verus! {

/// One booking as it is written to a snapshot: its key, then its fields in
/// record order, the status as its position among the three statuses.
pub type SnapshotEntry = (u32, (Option<u32>, u32, u8, String, String, Option<u32>));

/// The mathematical value of a snapshot entry.
pub type EntryView = (u32, (Option<u32>, u32, u8, Seq<char>, Seq<char>, Option<u32>));

/// The bytes that bincode writes for a sequence of entries.
pub uninterp spec fn bincode_encoding(entries: Seq<EntryView>) -> Seq<u8>;

/// The entries that bincode reads from bytes, or `None` where it reports an error.
pub uninterp spec fn bincode_decoding(bytes: Seq<u8>) -> Option<Seq<EntryView>>;

/// Why a snapshot could not be loaded.
#[derive(Clone, Copy, Debug, PartialEq, Eq, Structural)]
pub enum SnapshotError {
    /// The bytes do not decode as a collection of bookings.
    Malformed,
    /// The bookings decode but break the store's invariant: a key that is not
    /// the booking's id, a missing id or status, or an id held twice.
    Inconsistent,
}

/// The views of a sequence of entries.
pub open spec fn entry_views(v: Seq<SnapshotEntry>) -> Seq<EntryView> {
    v.map_values(|e: SnapshotEntry| e@)
}

/// Relies on bincode::serialize (fixed-width little-endian integers, a length
/// before each sequence and string, no size limit): it succeeds on these
/// entries, since each vector and string reports its length and the output
/// is a `Vec`; the result depends on the entries alone, and
/// bincode::deserialize reads it back as the same entries.
#[verifier::external_body]
fn encode_entries(entries: &Vec<SnapshotEntry>) -> (r: Option<Vec<u8>>)
    ensures
        r is Some,
        r matches Some(bytes) ==> bytes@ == bincode_encoding(entry_views(entries@)),
        r matches Some(bytes) ==> bincode_decoding(bytes@) == Some(entry_views(entries@)),
{
    bincode::serialize(entries).ok()
}

/// Relies on bincode::deserialize: the result depends on the bytes alone.
#[verifier::external_body]
fn decode_entries(bytes: &Vec<u8>) -> (r: Option<Vec<SnapshotEntry>>)
    ensures
        match r {
            Some(entries) => bincode_decoding(bytes@) == Some(entry_views(entries@)),
            None => bincode_decoding(bytes@) is None,
        },
{
    bincode::deserialize::<Vec<SnapshotEntry>>(bytes.as_slice()).ok()
}

/// The position of a status among `Confirmed`, `Complete`, `Cancelled`.
pub open spec fn status_code(s: BookingStatus) -> u32 {
    match s {
        BookingStatus::Confirmed => 0,
        BookingStatus::Complete => 1,
        BookingStatus::Cancelled => 2,
    }
}

/// The status at a position, if the position names one.
pub open spec fn status_at(code: u32) -> Option<BookingStatus> {
    if code == 0 {
        Some(BookingStatus::Confirmed)
    } else if code == 1 {
        Some(BookingStatus::Complete)
    } else if code == 2 {
        Some(BookingStatus::Cancelled)
    } else {
        None
    }
}

/// The entry written for a booking, keyed by its id.
pub open spec fn entry_of(b: RoomBookingView) -> EntryView {
    (
        match b.booking_id {
            Some(id) => id,
            None => 0,
        },
        (
            b.booking_id,
            b.customer_id,
            b.room_type_id,
            b.check_in_date,
            b.check_out_date,
            match b.status {
                Some(s) => Some(status_code(s)),
                None => None,
            },
        ),
    )
}

/// The entries written for a collection, in the collection's order.
pub open spec fn snapshot_entries(s: Seq<RoomBookingView>) -> Seq<EntryView> {
    s.map_values(|b: RoomBookingView| entry_of(b))
}

/// An entry whose status, if present, names one of the three statuses.
pub open spec fn entry_readable(e: EntryView) -> bool {
    match e.1.5 {
        Some(code) => code < 3,
        None => true,
    }
}

/// The booking that a readable entry describes.
pub open spec fn booking_of(e: EntryView) -> RoomBookingView {
    RoomBookingView {
        booking_id: e.1.0,
        customer_id: e.1.1,
        room_type_id: e.1.2,
        check_in_date: e.1.3,
        check_out_date: e.1.4,
        status: match e.1.5 {
            Some(code) => status_at(code),
            None => None,
        },
    }
}

/// An entry whose key is the id of its booking.
pub open spec fn entry_keyed(e: EntryView) -> bool {
    e.1.0 == Some(e.0)
}

/// What a sequence of decoded entries gives: the bookings they describe, in
/// order, or the reason they are refused.
pub open spec fn entries_contents(es: Seq<EntryView>) -> Result<Seq<RoomBookingView>, SnapshotError> {
    if !(forall|i: int| 0 <= i < es.len() ==> entry_readable(#[trigger] es[i])) {
        Err(SnapshotError::Malformed)
    } else if !(forall|i: int| 0 <= i < es.len() ==> entry_keyed(#[trigger] es[i]))
        || !well_formed(es.map_values(|e: EntryView| booking_of(e))) {
        Err(SnapshotError::Inconsistent)
    } else {
        Ok(es.map_values(|e: EntryView| booking_of(e)))
    }
}

/// What loading a snapshot gives: the bookings it holds, in the order
/// written, or the reason it is refused.
pub open spec fn snapshot_contents(bytes: Seq<u8>) -> Result<Seq<RoomBookingView>, SnapshotError> {
    match bincode_decoding(bytes) {
        None => Err(SnapshotError::Malformed),
        Some(es) => entries_contents(es),
    }
}

/// The position of a status, as it is written to a snapshot.
fn status_to_code(s: BookingStatus) -> (r: u32)
    ensures
        r == status_code(s),
{
    match s {
        BookingStatus::Confirmed => 0,
        BookingStatus::Complete => 1,
        BookingStatus::Cancelled => 2,
    }
}

/// The entry written for a booking.
fn entry_from_booking(b: &RoomBooking) -> (e: SnapshotEntry)
    ensures
        e@ == entry_of(b@),
{
    let key = match b.booking_id {
        Some(id) => id,
        None => 0,
    };
    let code = match b.status {
        Some(s) => Some(status_to_code(s)),
        None => None,
    };
    (
        key,
        (
            b.booking_id,
            b.customer_id,
            b.room_type_id,
            b.check_in_date.clone(),
            b.check_out_date.clone(),
            code,
        ),
    )
}

/// The booking an entry describes, or `None` where its status is unknown.
fn booking_from_entry(e: &SnapshotEntry) -> (r: Option<RoomBooking>)
    ensures
        r is Some <==> entry_readable(e@),
        r matches Some(b) ==> b@ == booking_of(e@),
{
    let status = match (e.1).5 {
        Some(code) => {
            if code == 0 {
                Some(BookingStatus::Confirmed)
            } else if code == 1 {
                Some(BookingStatus::Complete)
            } else if code == 2 {
                Some(BookingStatus::Cancelled)
            } else {
                return None;
            }
        },
        None => None,
    };
    Some(
        RoomBooking {
            booking_id: (e.1).0,
            customer_id: (e.1).1,
            room_type_id: (e.1).2,
            check_in_date: (e.1).3.clone(),
            check_out_date: (e.1).4.clone(),
            status,
        },
    )
}


/// Encodes the whole collection as one snapshot, the bookings in the store's
/// order. The encoder does not fail on these entries, so the result is always
/// `Some`; the `Option` keeps the encoder's error path visible to callers.
pub fn encode_snapshot(store: &BookingStore) -> (r: Option<Vec<u8>>)
    ensures
        r is Some,
        r matches Some(bytes) ==> bytes@ == bincode_encoding(snapshot_entries(store@)),
        r matches Some(bytes) ==> bincode_decoding(bytes@) == Some(snapshot_entries(store@)),
{
    let all = fetch_all(store);
    let mut entries: Vec<SnapshotEntry> = Vec::new();
    let mut i: usize = 0;
    while i < all.len()
        invariant
            i <= all@.len(),
            views(all@) == store@,
            entry_views(entries@) == snapshot_entries(store@.subrange(0, i as int)),
        decreases all@.len() - i,
    {
        let e = entry_from_booking(&all[i]);
        proof {
            assert(store@[i as int] == all@[i as int]@);
            assert(store@.subrange(0, i + 1) == store@.subrange(0, i as int).push(store@[i as int]));
            assert(entry_views(entries@.push(e)) == entry_views(entries@).push(e@));
            assert(snapshot_entries(store@.subrange(0, i + 1)) == snapshot_entries(
                store@.subrange(0, i as int),
            ).push(entry_of(store@[i as int])));
        }
        entries.push(e);
        i = i + 1;
    }
    assert(store@.subrange(0, i as int) == store@);
    encode_entries(&entries)
}

/// The store that a sequence of decoded entries describes. Refused as
/// `Malformed` where an entry names no known status, and as `Inconsistent`
/// where a key is not its booking's id or the bookings break the store's
/// invariant.
pub fn bookings_from_entries(entries: Vec<SnapshotEntry>) -> (r: Result<BookingStore, SnapshotError>)
    ensures
        match r {
            Ok(loaded) => loaded.wf() && entries_contents(entry_views(entries@)) == Ok::<
                Seq<RoomBookingView>,
                SnapshotError,
            >(loaded@),
            Err(e) => entries_contents(entry_views(entries@)) == Err::<
                Seq<RoomBookingView>,
                SnapshotError,
            >(e),
        },
{
    let ghost es = entry_views(entries@);
    let mut bookings: Vec<RoomBooking> = Vec::new();
    let mut keyed = true;
    let mut i: usize = 0;
    while i < entries.len()
        invariant
            i <= entries@.len(),
            es == entry_views(entries@),
            forall|a: int| 0 <= a < i ==> entry_readable(#[trigger] es[a]),
            views(bookings@) == es.subrange(0, i as int).map_values(|e: EntryView| booking_of(e)),
            keyed == forall|a: int| 0 <= a < i ==> entry_keyed(#[trigger] es[a]),
        decreases entries@.len() - i,
    {
        let b = match booking_from_entry(&entries[i]) {
            Some(b) => b,
            None => {
                assert(!entry_readable(es[i as int]));
                assert(!(forall|a: int| 0 <= a < es.len() ==> entry_readable(#[trigger] es[a])));
                return Err(SnapshotError::Malformed);
            },
        };
        if (entries[i].1).0 != Some(entries[i].0) {
            keyed = false;
        }
        proof {
            assert(es[i as int] == entries@[i as int]@);
            assert(es.subrange(0, i + 1) == es.subrange(0, i as int).push(es[i as int]));
            assert(es.subrange(0, i + 1).map_values(|e: EntryView| booking_of(e)) == es.subrange(
                0,
                i as int,
            ).map_values(|e: EntryView| booking_of(e)).push(booking_of(es[i as int])));
            assert(views(bookings@.push(b)) == views(bookings@).push(b@));
        }
        bookings.push(b);
        i = i + 1;
    }
    assert(es.subrange(0, i as int) == es);
    if !keyed {
        return Err(SnapshotError::Inconsistent);
    }
    match BookingStore::from_bookings(bookings) {
        Some(loaded) => Ok(loaded),
        None => Err(SnapshotError::Inconsistent),
    }
}

/// Replaces the store's contents wholesale with the bookings of a snapshot.
/// On an error the store is left as it was.
pub fn load_snapshot(store: &mut BookingStore, bytes: &Vec<u8>) -> (r: Result<(), SnapshotError>)
    ensures
        match snapshot_contents(bytes@) {
            Ok(s) => r is Ok && final(store).wf() && final(store)@ == s,
            Err(e) => r == Err::<(), SnapshotError>(e) && final(store)@ == old(store)@,
        },
{
    let entries = match decode_entries(bytes) {
        Some(entries) => entries,
        None => {
            return Err(SnapshotError::Malformed);
        },
    };
    match bookings_from_entries(entries) {
        Ok(loaded) => {
            *store = loaded;
            Ok(())
        },
        Err(e) => Err(e),
    }
}

/// Saving and then loading reproduces the collection: bytes that decode to
/// the entries written for a well-formed collection load as exactly that
/// collection, with the same ids, fields, statuses and order.
pub proof fn lemma_save_then_load(s: Seq<RoomBookingView>, bytes: Seq<u8>)
    requires
        well_formed(s),
        bincode_decoding(bytes) == Some(snapshot_entries(s)),
    ensures
        snapshot_contents(bytes) == Ok::<Seq<RoomBookingView>, SnapshotError>(s),
{
    let es = snapshot_entries(s);
    assert forall|i: int| 0 <= i < es.len() implies entry_readable(#[trigger] es[i]) && entry_keyed(
        es[i],
    ) && booking_of(es[i]) == s[i] by {
        assert(es[i] == entry_of(s[i]));
    }
    assert(es.map_values(|e: EntryView| booking_of(e)) == s);
}

} // verus!
