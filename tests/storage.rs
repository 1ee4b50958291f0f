use room_booking::{
    bookings_from_entries, create, encode_snapshot, fetch_all, fetch_by_check_in_date, fetch_by_customer_id,
    fetch_by_id, fetch_by_room_type_id, load_snapshot, status, transition_allowed, BookingStatus,
    BookingStore, RoomBooking, SnapshotEntry, SnapshotError,
};

/// Describes a single room booking
fn dummmy_booking() -> RoomBooking {
    return RoomBooking {
        booking_id: None,
        customer_id: 1,
        room_type_id: 3,
        check_in_date: "2020-01-01".to_string(),
        check_out_date: "2020-01-08".to_string(),
        status: None,
    };
}

/// Describes the expected output when the dummy_booking is created
fn dummmy_booking_success() -> RoomBooking {
    return RoomBooking {
        booking_id: Some(1),
        customer_id: 1,
        room_type_id: 3,
        check_in_date: "2020-01-01".to_string(),
        check_out_date: "2020-01-08".to_string(),
        status: Some(BookingStatus::Confirmed),
    };
}

fn booking(customer_id: u32, room_type_id: u8, check_in: &str) -> RoomBooking {
    RoomBooking {
        booking_id: None,
        customer_id,
        room_type_id,
        check_in_date: check_in.to_string(),
        check_out_date: "2020-02-01".to_string(),
        status: None,
    }
}

#[test]
fn create_booking() {
    let mut store = BookingStore::new();
    assert_eq!(create(&mut store, dummmy_booking()), Ok(dummmy_booking_success()));

    let failed_booking = RoomBooking {
        booking_id: Some(5),
        customer_id: 4,
        room_type_id: 2,
        check_in_date: "2020-01-01".to_string(),
        check_out_date: "2020-01-08".to_string(),
        status: None,
    };

    assert!(create(&mut store, failed_booking).is_err());
}

#[test]
fn fetch_booking() {
    let mut store = BookingStore::new();
    assert!(create(&mut store, dummmy_booking()).is_ok());

    let booking: RoomBooking = fetch_by_id(&store, 1).unwrap();
    assert_eq!(booking, dummmy_booking_success());
}

#[test]
fn update_booking_status() {
    let mut store = BookingStore::new();
    assert!(create(&mut store, dummmy_booking()).is_ok());

    assert!(create(&mut store, dummmy_booking()).is_ok());

    assert_eq!(status(&mut store, 2, BookingStatus::Complete), true);
    let booking: RoomBooking = fetch_by_id(&store, 2).unwrap();
    assert_eq!(booking.status, Some(BookingStatus::Complete));
}

#[test]
fn create_complete_then_cancel_scenario() {
    let mut store = BookingStore::new();
    assert_eq!(create(&mut store, dummmy_booking()), Ok(dummmy_booking_success()));
    assert!(status(&mut store, 1, BookingStatus::Complete));
    assert_eq!(fetch_by_id(&store, 1).unwrap().status, Some(BookingStatus::Complete));
    assert!(!status(&mut store, 1, BookingStatus::Cancelled));
    assert_eq!(fetch_by_id(&store, 1).unwrap().status, Some(BookingStatus::Complete));
}

#[test]
fn create_refuses_preset_status() {
    let mut store = BookingStore::new();
    let mut b = dummmy_booking();
    b.status = Some(BookingStatus::Confirmed);
    assert_eq!(create(&mut store, b), Err(()));
    let mut b = dummmy_booking();
    b.booking_id = Some(1);
    b.status = Some(BookingStatus::Cancelled);
    assert_eq!(create(&mut store, b), Err(()));
    assert_eq!(store.len(), 0);
    assert!(fetch_all(&store).is_empty());
}

#[test]
fn sequential_ids_start_at_one_and_increase() {
    let mut store = BookingStore::new();
    assert_eq!(store.max_booking_id(), 0);
    for expected in 1..=5u32 {
        let created = create(&mut store, booking(expected, 1, "2021-05-05")).unwrap();
        assert_eq!(created.booking_id, Some(expected));
        assert_eq!(created.status, Some(BookingStatus::Confirmed));
        assert_eq!(created.customer_id, expected);
    }
    assert_eq!(store.max_booking_id(), 5);
    assert_eq!(store.len(), 5);
}

#[test]
fn ids_continue_after_the_largest_loaded_id() {
    let mut stored = dummmy_booking_success();
    stored.booking_id = Some(41);
    let mut store = BookingStore::from_bookings(vec![stored]).unwrap();
    let created = create(&mut store, dummmy_booking()).unwrap();
    assert_eq!(created.booking_id, Some(42));
}

#[test]
fn create_fails_when_no_id_remains() {
    let mut stored = dummmy_booking_success();
    stored.booking_id = Some(u32::MAX);
    let mut store = BookingStore::from_bookings(vec![stored]).unwrap();
    assert!(create(&mut store, dummmy_booking()).is_err());
    assert_eq!(store.len(), 1);
}

#[test]
fn cancel_then_any_change_refused() {
    let mut store = BookingStore::new();
    create(&mut store, dummmy_booking()).unwrap();
    assert!(status(&mut store, 1, BookingStatus::Cancelled));
    assert!(!status(&mut store, 1, BookingStatus::Complete));
    assert!(!status(&mut store, 1, BookingStatus::Cancelled));
    assert!(!status(&mut store, 1, BookingStatus::Confirmed));
    assert_eq!(fetch_by_id(&store, 1).unwrap().status, Some(BookingStatus::Cancelled));
}

#[test]
fn confirmed_to_confirmed_refused() {
    let mut store = BookingStore::new();
    create(&mut store, dummmy_booking()).unwrap();
    assert!(!status(&mut store, 1, BookingStatus::Confirmed));
    assert_eq!(fetch_by_id(&store, 1).unwrap().status, Some(BookingStatus::Confirmed));
}

#[test]
fn status_of_missing_id_changes_nothing() {
    let mut store = BookingStore::new();
    create(&mut store, dummmy_booking()).unwrap();
    let before = fetch_all(&store);
    assert!(!status(&mut store, 7, BookingStatus::Complete));
    assert_eq!(fetch_all(&store), before);
    assert_eq!(fetch_by_id(&store, 7), None);
}

#[test]
fn status_changes_only_the_named_booking() {
    let mut store = BookingStore::new();
    create(&mut store, booking(1, 1, "2020-01-01")).unwrap();
    create(&mut store, booking(2, 2, "2020-01-02")).unwrap();
    assert!(status(&mut store, 2, BookingStatus::Cancelled));
    assert_eq!(fetch_by_id(&store, 1).unwrap().status, Some(BookingStatus::Confirmed));
    assert_eq!(fetch_by_id(&store, 2).unwrap().status, Some(BookingStatus::Cancelled));
}

#[test]
fn selections_return_exact_matches() {
    let mut store = BookingStore::new();
    create(&mut store, booking(1, 3, "2020-01-01")).unwrap();
    create(&mut store, booking(2, 3, "2020-01-02")).unwrap();
    create(&mut store, booking(1, 4, "2020-01-02")).unwrap();
    create(&mut store, booking(5, 5, "2020-01-09")).unwrap();

    let ids = |v: Vec<RoomBooking>| v.iter().map(|b| b.booking_id.unwrap()).collect::<Vec<u32>>();
    assert_eq!(ids(fetch_by_customer_id(&store, 1)), vec![1, 3]);
    assert_eq!(ids(fetch_by_room_type_id(&store, 3)), vec![1, 2]);
    assert_eq!(ids(fetch_by_check_in_date(&store, "2020-01-02")), vec![2, 3]);
    assert_eq!(ids(fetch_all(&store)), vec![1, 2, 3, 4]);
    assert!(fetch_by_customer_id(&store, 9).is_empty());
    assert!(fetch_by_room_type_id(&store, 9).is_empty());
    assert!(fetch_by_check_in_date(&store, "2020-01-0").is_empty());
    assert!(fetch_by_check_in_date(&store, "").is_empty());
}

#[test]
fn lookups_on_empty_store_are_empty() {
    let store = BookingStore::new();
    assert_eq!(fetch_by_id(&store, 1), None);
    assert!(fetch_all(&store).is_empty());
    assert!(fetch_by_customer_id(&store, 1).is_empty());
}

#[test]
fn status_from_string() {
    assert_eq!(BookingStatus::from_string("Confirmed"), Some(BookingStatus::Confirmed));
    assert_eq!(BookingStatus::from_string("Complete"), Some(BookingStatus::Complete));
    assert_eq!(BookingStatus::from_string("Cancelled"), Some(BookingStatus::Cancelled));
    assert_eq!(BookingStatus::from_string("cancelled"), None);
    assert_eq!(BookingStatus::from_string("Completed"), None);
    assert_eq!(BookingStatus::from_string(""), None);
}

#[test]
fn lifecycle_transitions() {
    let confirmed = BookingStatus::Confirmed;
    let complete = BookingStatus::Complete;
    let cancelled = BookingStatus::Cancelled;
    assert!(transition_allowed(confirmed, complete));
    assert!(transition_allowed(confirmed, cancelled));
    assert!(!transition_allowed(confirmed, confirmed));
    for s in [confirmed, complete, cancelled] {
        assert!(!transition_allowed(complete, s));
        assert!(!transition_allowed(cancelled, s));
    }
}

#[test]
fn setters_assign_fields() {
    let mut b = dummmy_booking();
    b.set_booking_id(1);
    b.set_status(BookingStatus::Confirmed);
    assert_eq!(b, dummmy_booking_success());
    assert_eq!(b.duplicate(), b);
}

#[test]
fn snapshot_round_trip() {
    let mut store = BookingStore::new();
    create(&mut store, booking(1, 3, "2020-01-01")).unwrap();
    create(&mut store, booking(2, 4, "2020-03-01")).unwrap();
    create(&mut store, booking(3, 5, "2020-04-01")).unwrap();
    assert!(status(&mut store, 2, BookingStatus::Complete));
    assert!(status(&mut store, 3, BookingStatus::Cancelled));

    let bytes = encode_snapshot(&store).unwrap();
    let mut loaded = BookingStore::new();
    assert_eq!(load_snapshot(&mut loaded, &bytes), Ok(()));
    assert_eq!(fetch_all(&loaded), fetch_all(&store));
}

#[test]
fn snapshot_bytes_are_exact() {
    let mut store = BookingStore::new();
    create(&mut store, dummmy_booking()).unwrap();
    let bytes = encode_snapshot(&store).unwrap();
    let mut expected: Vec<u8> = vec![1, 0, 0, 0, 0, 0, 0, 0];
    expected.extend_from_slice(&[1, 0, 0, 0]);
    expected.extend_from_slice(&[1, 1, 0, 0, 0]);
    expected.extend_from_slice(&[1, 0, 0, 0]);
    expected.push(3);
    expected.extend_from_slice(&[10, 0, 0, 0, 0, 0, 0, 0]);
    expected.extend_from_slice(b"2020-01-01");
    expected.extend_from_slice(&[10, 0, 0, 0, 0, 0, 0, 0]);
    expected.extend_from_slice(b"2020-01-08");
    expected.extend_from_slice(&[1, 0, 0, 0, 0]);
    assert_eq!(bytes, expected);

    let empty = encode_snapshot(&BookingStore::new()).unwrap();
    assert_eq!(empty, vec![0, 0, 0, 0, 0, 0, 0, 0]);
}

#[test]
fn snapshot_garbage_is_malformed() {
    let mut store = BookingStore::new();
    create(&mut store, dummmy_booking()).unwrap();
    assert_eq!(load_snapshot(&mut store, &vec![1, 2, 3]), Err(SnapshotError::Malformed));
    assert_eq!(fetch_all(&store), vec![dummmy_booking_success()]);
}

fn entry(key: u32, id: Option<u32>, code: Option<u32>) -> SnapshotEntry {
    (key, (id, 1, 3, "2020-01-01".to_string(), "2020-01-08".to_string(), code))
}

#[test]
fn snapshot_unknown_status_is_malformed() {
    let bytes = bincode::serialize(&vec![entry(1, Some(1), Some(7))]).unwrap();
    let mut store = BookingStore::new();
    assert_eq!(load_snapshot(&mut store, &bytes), Err(SnapshotError::Malformed));
    assert_eq!(store.len(), 0);
}

#[test]
fn snapshot_inconsistent_entries_refused() {
    let mut store = BookingStore::new();
    let wrong_key = bincode::serialize(&vec![entry(2, Some(1), Some(0))]).unwrap();
    assert_eq!(load_snapshot(&mut store, &wrong_key), Err(SnapshotError::Inconsistent));
    let no_status = bincode::serialize(&vec![entry(1, Some(1), None)]).unwrap();
    assert_eq!(load_snapshot(&mut store, &no_status), Err(SnapshotError::Inconsistent));
    let twice = bincode::serialize(&vec![entry(1, Some(1), Some(0)), entry(1, Some(1), Some(1))])
        .unwrap();
    assert_eq!(load_snapshot(&mut store, &twice), Err(SnapshotError::Inconsistent));
    assert_eq!(store.len(), 0);

    let good = bincode::serialize(&vec![entry(4, Some(4), Some(1)), entry(2, Some(2), Some(2))])
        .unwrap();
    assert_eq!(load_snapshot(&mut store, &good), Ok(()));
    assert_eq!(fetch_by_id(&store, 4).unwrap().status, Some(BookingStatus::Complete));
    assert_eq!(fetch_by_id(&store, 2).unwrap().status, Some(BookingStatus::Cancelled));
    assert_eq!(create(&mut store, dummmy_booking()).unwrap().booking_id, Some(5));
}

#[test]
fn from_bookings_checks_invariant() {
    assert!(BookingStore::from_bookings(vec![dummmy_booking()]).is_none());
    assert!(
        BookingStore::from_bookings(vec![dummmy_booking_success(), dummmy_booking_success()])
            .is_none()
    );
    assert!(BookingStore::from_bookings(vec![dummmy_booking_success()]).is_some());
}

#[test]
fn entries_build_a_store_or_are_refused() {
    let loaded = bookings_from_entries(vec![entry(3, Some(3), Some(0)), entry(1, Some(1), Some(2))])
        .unwrap();
    assert_eq!(fetch_by_id(&loaded, 3).unwrap().status, Some(BookingStatus::Confirmed));
    assert_eq!(fetch_by_id(&loaded, 1).unwrap().status, Some(BookingStatus::Cancelled));
    assert_eq!(loaded.len(), 2);

    assert_eq!(bookings_from_entries(Vec::new()).unwrap().len(), 0);
    assert_eq!(
        bookings_from_entries(vec![entry(1, Some(1), Some(0)), entry(2, Some(2), Some(3))]).err(),
        Some(SnapshotError::Malformed)
    );
    assert_eq!(
        bookings_from_entries(vec![entry(1, None, Some(0))]).err(),
        Some(SnapshotError::Inconsistent)
    );
    assert_eq!(
        bookings_from_entries(vec![entry(1, Some(1), Some(0)), entry(1, Some(1), Some(0))]).err(),
        Some(SnapshotError::Inconsistent)
    );
}

#[test]
fn ids_increase_across_status_changes() {
    let mut store = BookingStore::new();
    let first = create(&mut store, dummmy_booking()).unwrap().booking_id.unwrap();
    assert!(status(&mut store, first, BookingStatus::Cancelled));
    let second = create(&mut store, dummmy_booking()).unwrap().booking_id.unwrap();
    assert!(status(&mut store, second, BookingStatus::Complete));
    assert!(fetch_by_id(&store, second).is_some());
    let third = create(&mut store, dummmy_booking()).unwrap().booking_id.unwrap();
    assert!(first < second && second < third);
    assert_eq!((first, second, third), (1, 2, 3));
}
