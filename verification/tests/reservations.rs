use flight_reservation::entities::{Booking, Flight, Passenger};
use flight_reservation::errors::Error;
use flight_reservation::system::Reservations;

fn add_sample_flight(sys: &mut Reservations, capacity: u32) -> Flight {
    sys.add_flight(
        "AA".to_string(),
        "100".to_string(),
        "JFK".to_string(),
        "LAX".to_string(),
        1000,
        2000,
        capacity,
    )
    .unwrap()
}

fn add_sample_passenger(sys: &mut Reservations) -> Passenger {
    sys.add_passenger("Bob".to_string(), "b@x.com".to_string()).unwrap()
}

#[test]
fn full_booking_scenario() {
    let mut sys = Reservations::new();
    let flight = add_sample_flight(&mut sys, 1);
    assert_eq!(flight.id, 1);
    assert_eq!(flight.available_seats, 1);
    assert_eq!(flight.capacity, 1);
    assert_eq!(flight.airline, "AA");
    assert_eq!(flight.flight_number, "100");
    assert_eq!(flight.origin, "JFK");
    assert_eq!(flight.destination, "LAX");
    assert_eq!(flight.departure_time, 1000);
    assert_eq!(flight.arrival_time, 2000);

    let passenger = add_sample_passenger(&mut sys);
    assert_eq!(passenger.id, 2);
    assert_eq!(passenger.name, "Bob");
    assert_eq!(passenger.email, "b@x.com");

    let booking: Booking = sys.book_flight(1, 2).unwrap();
    assert_eq!(booking.id, 3);
    assert_eq!(booking.flight_id, 1);
    assert_eq!(booking.passenger_id, 2);
    assert_eq!(sys.get_flight(1).unwrap().available_seats, 0);

    let again = sys.book_flight(1, 2);
    assert!(matches!(again, Err(Error::InvalidInput { .. })));

    sys.cancel_booking(3).unwrap();
    assert_eq!(sys.get_flight(1).unwrap().available_seats, 1);
    assert!(matches!(sys.get_booking(3), Err(Error::NotFound { .. })));
}

#[test]
fn search_finds_the_matching_flight() {
    let mut sys = Reservations::new();
    add_sample_flight(&mut sys, 1);
    let found = sys.search_flights("AA".to_string());
    assert_eq!(found.len(), 1);
    assert_eq!(found[0].id, 1);
}

#[test]
fn search_matches_any_text_field() {
    let mut sys = Reservations::new();
    add_sample_flight(&mut sys, 5);
    sys.add_flight(
        "BA".to_string(),
        "205".to_string(),
        "LHR".to_string(),
        "SFO".to_string(),
        3000,
        4000,
        10,
    )
    .unwrap();

    assert_eq!(sys.search_flights("JFK".to_string()).len(), 1);
    assert_eq!(sys.search_flights("SFO".to_string()).len(), 1);
    assert_eq!(sys.search_flights("205".to_string()).len(), 1);
    assert_eq!(sys.search_flights("A".to_string()).len(), 2);
    assert_eq!(sys.search_flights("ZZZ".to_string()).len(), 0);
    // The empty criteria string occurs in every field, so every flight matches.
    let all = sys.search_flights(String::new());
    assert_eq!(all.len(), 2);
    assert_eq!(all[0].id, 1);
    assert_eq!(all[1].id, 2);
}

#[test]
fn booking_reduces_availability_by_one() {
    let mut sys = Reservations::new();
    let flight = add_sample_flight(&mut sys, 7);
    let passenger = add_sample_passenger(&mut sys);
    let before = sys.get_flight(flight.id).unwrap().available_seats;
    sys.book_flight(flight.id, passenger.id).unwrap();
    let after = sys.get_flight(flight.id).unwrap().available_seats;
    assert_eq!(after, before - 1);
}

#[test]
fn cancelling_restores_one_seat_and_deletes_the_booking() {
    let mut sys = Reservations::new();
    let flight = add_sample_flight(&mut sys, 3);
    let passenger = add_sample_passenger(&mut sys);
    let booking = sys.book_flight(flight.id, passenger.id).unwrap();
    let before = sys.get_flight(flight.id).unwrap().available_seats;
    sys.cancel_booking(booking.id).unwrap();
    assert_eq!(sys.get_flight(flight.id).unwrap().available_seats, before + 1);
    assert!(matches!(sys.get_booking(booking.id), Err(Error::NotFound { .. })));
}

#[test]
fn second_delete_fails_and_does_not_reverse_the_first() {
    let mut sys = Reservations::new();
    let flight = add_sample_flight(&mut sys, 2);
    sys.delete_flight(flight.id).unwrap();
    assert!(matches!(sys.get_flight(flight.id), Err(Error::NotFound { .. })));
    let second = sys.delete_flight(flight.id);
    assert!(matches!(second, Err(Error::NotFound { .. })));
    assert!(matches!(sys.get_flight(flight.id), Err(Error::NotFound { .. })));
    assert_eq!(sys.list_all_flights().len(), 0);
}

#[test]
fn updating_a_missing_flight_leaves_the_store_unchanged() {
    let mut sys = Reservations::new();
    add_sample_flight(&mut sys, 4);
    let before = sys.list_all_flights().len();
    let outcome = sys.update_flight(
        99,
        "XX".to_string(),
        "1".to_string(),
        "AAA".to_string(),
        "BBB".to_string(),
        1,
        2,
        9,
    );
    assert!(matches!(outcome, Err(Error::NotFound { .. })));
    assert_eq!(sys.list_all_flights().len(), before);
    assert_eq!(sys.flights.len(), 1);
}

#[test]
fn updating_a_flight_preserves_its_available_seats() {
    let mut sys = Reservations::new();
    let flight = add_sample_flight(&mut sys, 2);
    let passenger = add_sample_passenger(&mut sys);
    sys.book_flight(flight.id, passenger.id).unwrap();
    let updated = sys
        .update_flight(
            flight.id,
            "UA".to_string(),
            "7".to_string(),
            "ORD".to_string(),
            "DEN".to_string(),
            5000,
            6000,
            5,
        )
        .unwrap();
    assert_eq!(updated.id, flight.id);
    assert_eq!(updated.airline, "UA");
    assert_eq!(updated.flight_number, "7");
    assert_eq!(updated.origin, "ORD");
    assert_eq!(updated.destination, "DEN");
    assert_eq!(updated.departure_time, 5000);
    assert_eq!(updated.arrival_time, 6000);
    assert_eq!(updated.capacity, 5);
    // One of the two seats the flight started with was consumed; the new
    // capacity does not reset what is still available.
    assert_eq!(updated.available_seats, 1);
    assert_eq!(sys.get_flight(flight.id).unwrap().available_seats, 1);
}

#[test]
fn availability_check_reports_seats_and_missing_flights() {
    let mut sys = Reservations::new();
    let flight = add_sample_flight(&mut sys, 1);
    let passenger = add_sample_passenger(&mut sys);
    assert_eq!(sys.check_flight_availability(flight.id).unwrap(), true);
    sys.book_flight(flight.id, passenger.id).unwrap();
    assert_eq!(sys.check_flight_availability(flight.id).unwrap(), false);
    assert!(matches!(
        sys.check_flight_availability(42),
        Err(Error::NotFound { .. })
    ));
}

#[test]
fn booking_failures_name_the_missing_record() {
    let mut sys = Reservations::new();
    let flight = add_sample_flight(&mut sys, 0);
    let passenger = add_sample_passenger(&mut sys);
    // Flight missing entirely.
    assert!(matches!(
        sys.book_flight(50, passenger.id),
        Err(Error::NotFound { .. })
    ));
    // Passenger missing.
    assert!(matches!(
        sys.book_flight(flight.id, 50),
        Err(Error::NotFound { .. })
    ));
    // Both present but no seat: a capacity-zero flight can never be booked.
    assert!(matches!(
        sys.book_flight(flight.id, passenger.id),
        Err(Error::InvalidInput { .. })
    ));
    assert_eq!(sys.list_all_bookings().len(), 0);
}

#[test]
fn cancelling_a_missing_booking_fails() {
    let mut sys = Reservations::new();
    assert!(matches!(sys.cancel_booking(1), Err(Error::NotFound { .. })));
}

#[test]
fn cancelling_an_orphaned_booking_fails_and_keeps_it() {
    let mut sys = Reservations::new();
    let flight = add_sample_flight(&mut sys, 2);
    let passenger = add_sample_passenger(&mut sys);
    let booking = sys.book_flight(flight.id, passenger.id).unwrap();
    sys.delete_flight(flight.id).unwrap();
    let outcome = sys.cancel_booking(booking.id);
    assert!(matches!(outcome, Err(Error::NotFound { .. })));
    assert!(sys.get_booking(booking.id).is_ok());
}

#[test]
fn cancelling_never_pushes_availability_above_capacity() {
    let mut sys = Reservations::new();
    let flight = add_sample_flight(&mut sys, 2);
    let passenger = add_sample_passenger(&mut sys);
    let first = sys.book_flight(flight.id, passenger.id).unwrap();
    let second = sys.book_flight(flight.id, passenger.id).unwrap();
    // Lower the capacity below the consumed count.
    sys.update_flight(
        flight.id,
        "AA".to_string(),
        "100".to_string(),
        "JFK".to_string(),
        "LAX".to_string(),
        1000,
        2000,
        1,
    )
    .unwrap();
    // Releasing the first seat still fits under the new capacity of 1.
    sys.cancel_booking(first.id).unwrap();
    assert_eq!(sys.get_flight(flight.id).unwrap().available_seats, 1);
    // Releasing the second would exceed it; the call fails and changes nothing.
    let outcome = sys.cancel_booking(second.id);
    assert!(matches!(outcome, Err(Error::InvalidInput { .. })));
    assert_eq!(sys.get_flight(flight.id).unwrap().available_seats, 1);
    assert!(sys.get_booking(second.id).is_ok());
}

#[test]
fn passenger_crud_round_trip() {
    let mut sys = Reservations::new();
    let p = add_sample_passenger(&mut sys);
    assert_eq!(p.id, 1);
    let fetched = sys.get_passenger(p.id).unwrap();
    assert_eq!(fetched.name, "Bob");
    assert_eq!(fetched.email, "b@x.com");

    let updated = sys
        .update_passenger(p.id, "Robert".to_string(), "r@x.com".to_string())
        .unwrap();
    assert_eq!(updated.id, p.id);
    assert_eq!(updated.name, "Robert");
    assert_eq!(sys.get_passenger(p.id).unwrap().email, "r@x.com");

    assert!(matches!(
        sys.update_passenger(9, "N".to_string(), "e".to_string()),
        Err(Error::NotFound { .. })
    ));

    sys.delete_passenger(p.id).unwrap();
    assert!(matches!(sys.get_passenger(p.id), Err(Error::NotFound { .. })));
    assert!(matches!(sys.delete_passenger(p.id), Err(Error::NotFound { .. })));
    assert_eq!(sys.list_all_passengers().len(), 0);
}

#[test]
fn listings_come_back_in_ascending_id_order() {
    let mut sys = Reservations::new();
    let f1 = add_sample_flight(&mut sys, 3);
    let p1 = add_sample_passenger(&mut sys);
    let f2 = sys
        .add_flight(
            "DL".to_string(),
            "9".to_string(),
            "ATL".to_string(),
            "MIA".to_string(),
            10,
            20,
            3,
        )
        .unwrap();
    let p2 = sys.add_passenger("Eve".to_string(), "e@x.com".to_string()).unwrap();
    let b1 = sys.book_flight(f2.id, p1.id).unwrap();
    let b2 = sys.book_flight(f1.id, p2.id).unwrap();

    let flights = sys.list_all_flights();
    assert_eq!(flights.len(), 2);
    assert_eq!(flights[0].id, f1.id);
    assert_eq!(flights[1].id, f2.id);

    let passengers = sys.list_all_passengers();
    assert_eq!(passengers.len(), 2);
    assert_eq!(passengers[0].id, p1.id);
    assert_eq!(passengers[1].id, p2.id);

    let bookings = sys.list_all_bookings();
    assert_eq!(bookings.len(), 2);
    assert_eq!(bookings[0].id, b1.id);
    assert_eq!(bookings[1].id, b2.id);
    assert_eq!(bookings[0].flight_id, f2.id);
    assert_eq!(bookings[1].flight_id, f1.id);
}

#[test]
fn identifiers_are_shared_and_never_reused() {
    let mut sys = Reservations::new();
    let f = add_sample_flight(&mut sys, 1);
    assert_eq!(f.id, 1);
    sys.delete_flight(f.id).unwrap();
    // A fresh record never takes over a deleted record's identifier.
    let p = add_sample_passenger(&mut sys);
    assert_eq!(p.id, 2);
    let f2 = add_sample_flight(&mut sys, 1);
    assert_eq!(f2.id, 3);
}

#[test]
fn seat_accounting_matches_the_active_bookings() {
    let mut sys = Reservations::new();
    let flight = add_sample_flight(&mut sys, 10);
    let passenger = add_sample_passenger(&mut sys);
    let mut ids = Vec::new();
    for _ in 0..4 {
        ids.push(sys.book_flight(flight.id, passenger.id).unwrap().id);
    }
    let stored = sys.get_flight(flight.id).unwrap();
    let active = sys
        .list_all_bookings()
        .iter()
        .filter(|b| b.flight_id == flight.id)
        .count() as u32;
    assert_eq!(stored.capacity - stored.available_seats, active);
    sys.cancel_booking(ids[0]).unwrap();
    sys.cancel_booking(ids[2]).unwrap();
    let stored = sys.get_flight(flight.id).unwrap();
    let active = sys
        .list_all_bookings()
        .iter()
        .filter(|b| b.flight_id == flight.id)
        .count() as u32;
    assert_eq!(stored.capacity - stored.available_seats, active);
    assert_eq!(stored.available_seats, 8);
}

#[test]
fn error_messages_are_readable() {
    let sys = Reservations::new();
    match sys.get_flight(1) {
        Err(e) => assert!(!e.message().is_empty()),
        Ok(_) => panic!("a flight was found in an empty system"),
    }
}
