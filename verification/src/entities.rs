//! The three record kinds held by the reservation system.
//!
//! Records are plain data: stores hand out copies of them, never references
//! to their own memory, so a caller can never alias or corrupt a stored
//! record.

use vstd::prelude::*;

verus! {

/// A flight with a fixed seat capacity and a derived-but-persisted count of
/// seats still available. The system-wide invariant relating
/// `available_seats`, `capacity` and the set of active bookings is stated in
/// [`crate::system::Reservations::consistent`].
pub struct Flight {
    pub id: u64,
    pub airline: String,
    pub flight_number: String,
    pub origin: String,
    pub destination: String,
    /// Unix timestamp; no ordering against `arrival_time` is enforced.
    pub departure_time: u64,
    /// Unix timestamp; no ordering against `departure_time` is enforced.
    pub arrival_time: u64,
    pub capacity: u32,
    pub available_seats: u32,
}

/// The flight `f` with its `available_seats` field replaced by `seats` and
/// every other field kept.
pub open spec fn with_seats(f: Flight, seats: u32) -> Flight {
    Flight { available_seats: seats, ..f }
}

impl Flight {
    /// An exact copy of the record.
    pub fn duplicate(&self) -> (r: Flight)
        ensures
            r == *self,
    {
        Flight {
            id: self.id,
            airline: self.airline.clone(),
            flight_number: self.flight_number.clone(),
            origin: self.origin.clone(),
            destination: self.destination.clone(),
            departure_time: self.departure_time,
            arrival_time: self.arrival_time,
            capacity: self.capacity,
            available_seats: self.available_seats,
        }
    }

    /// A copy of the record with `available_seats` replaced by `seats`.
    pub fn replace_seats(&self, seats: u32) -> (r: Flight)
        ensures
            r == with_seats(*self, seats),
    {
        Flight {
            id: self.id,
            airline: self.airline.clone(),
            flight_number: self.flight_number.clone(),
            origin: self.origin.clone(),
            destination: self.destination.clone(),
            departure_time: self.departure_time,
            arrival_time: self.arrival_time,
            capacity: self.capacity,
            available_seats: seats,
        }
    }
}

/// A passenger. No uniqueness is enforced on `email`.
pub struct Passenger {
    pub id: u64,
    pub name: String,
    pub email: String,
}

impl Passenger {
    /// An exact copy of the record.
    pub fn duplicate(&self) -> (r: Passenger)
        ensures
            r == *self,
    {
        Passenger { id: self.id, name: self.name.clone(), email: self.email.clone() }
    }
}

/// A booking. Its existence represents exactly one consumed seat on the
/// flight it references. Immutable after creation.
pub struct Booking {
    pub id: u64,
    pub flight_id: u64,
    pub passenger_id: u64,
}

impl Booking {
    /// An exact copy of the record.
    pub fn duplicate(&self) -> (r: Booking)
        ensures
            r == *self,
    {
        Booking { id: self.id, flight_id: self.flight_id, passenger_id: self.passenger_id }
    }
}

} // verus!
