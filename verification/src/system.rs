//! The top-level service context: the identifier allocator and the three
//! entity stores, together with the well-formedness and seat-accounting
//! invariants that the operations maintain.

use vstd::prelude::*;
use crate::entities::{Booking, Flight, Passenger};
use crate::ids::IdAllocator;
use crate::store::Table;

verus! {

/// The identifiers of the active bookings that consume a seat on flight
/// `fid`.
pub open spec fn seat_consumers(m: Map<u64, Booking>, fid: u64) -> Set<u64> {
    m.dom().filter(|bid: u64| m[bid].flight_id == fid)
}

/// How many active bookings consume a seat on flight `fid`.
pub open spec fn booked_count(m: Map<u64, Booking>, fid: u64) -> nat {
    seat_consumers(m, fid).len()
}

/// The whole reservation service: one shared identifier allocator and the
/// three stores. Every exposed operation runs to completion on `&mut self`
/// or `&self`, so no caller ever observes a partially applied transaction.
pub struct Reservations {
    pub ids: IdAllocator,
    pub flights: Table<Flight>,
    pub passengers: Table<Passenger>,
    pub bookings: Table<Booking>,
}

impl Reservations {
    /// Structural well-formedness: every stored record carries the
    /// identifier it is keyed under, and no identifier stored anywhere —
    /// including the flight referenced by a booking — exceeds the
    /// allocator's counter. The constructor establishes it and every
    /// operation preserves it; it is what makes freshly allocated
    /// identifiers provably absent from every table.
    pub open spec fn wf(self) -> bool {
        &&& forall|k: u64| #[trigger]
            self.flights@.contains_key(k) ==> self.flights@[k].id == k && k <= self.ids.counter
        &&& forall|k: u64| #[trigger]
            self.passengers@.contains_key(k) ==> self.passengers@[k].id == k && k
                <= self.ids.counter
        &&& forall|k: u64| #[trigger]
            self.bookings@.contains_key(k) ==> self.bookings@[k].id == k && k <= self.ids.counter
                && self.bookings@[k].flight_id <= self.ids.counter
    }

    /// The seat-accounting invariant: for every stored flight, the available
    /// seats never exceed the capacity, and the seats consumed — capacity
    /// minus available — equal the number of active bookings that reference
    /// the flight.
    pub open spec fn consistent(self) -> bool {
        forall|k: u64| #[trigger]
            self.flights@.contains_key(k) ==> {
                let f = self.flights@[k];
                &&& f.available_seats <= f.capacity
                &&& f.capacity - f.available_seats == booked_count(self.bookings@, k)
            }
    }

    /// An empty service: no records, and the first allocated identifier
    /// will be 1.
    pub fn new() -> (r: Reservations)
        ensures
            r.ids.counter == 0,
            r.flights@ == Map::<u64, Flight>::empty(),
            r.passengers@ == Map::<u64, Passenger>::empty(),
            r.bookings@ == Map::<u64, Booking>::empty(),
            r.wf(),
            r.consistent(),
    {
        Reservations {
            ids: IdAllocator::new(),
            flights: Table::new(),
            passengers: Table::new(),
            bookings: Table::new(),
        }
    }
}

/// Inserting a booking under a fresh identifier raises the consumed-seat
/// count of the flight it references by exactly one and leaves the count of
/// every other flight unchanged.
pub proof fn lemma_booked_count_insert(m: Map<u64, Booking>, bid: u64, b: Booking, fid: u64)
    requires
        m.dom().finite(),
        !m.contains_key(bid),
    ensures
        b.flight_id == fid ==> booked_count(m.insert(bid, b), fid) == booked_count(m, fid) + 1,
        b.flight_id != fid ==> booked_count(m.insert(bid, b), fid) == booked_count(m, fid),
{
    let m2 = m.insert(bid, b);
    m.dom().lemma_len_filter(|x: u64| m[x].flight_id == fid);
    if b.flight_id == fid {
        assert(seat_consumers(m2, fid) =~= seat_consumers(m, fid).insert(bid));
    } else {
        assert(seat_consumers(m2, fid) =~= seat_consumers(m, fid));
    }
}

/// Removing a booking lowers the consumed-seat count of the flight it
/// references by exactly one and leaves the count of every other flight
/// unchanged.
pub proof fn lemma_booked_count_remove(m: Map<u64, Booking>, bid: u64, fid: u64)
    requires
        m.dom().finite(),
        m.contains_key(bid),
    ensures
        m[bid].flight_id == fid ==> booked_count(m.remove(bid), fid) + 1 == booked_count(m, fid),
        m[bid].flight_id != fid ==> booked_count(m.remove(bid), fid) == booked_count(m, fid),
{
    let m2 = m.remove(bid);
    m.dom().lemma_len_filter(|x: u64| m[x].flight_id == fid);
    m2.dom().lemma_len_filter(|x: u64| m2[x].flight_id == fid);
    if m[bid].flight_id == fid {
        assert(seat_consumers(m2, fid) =~= seat_consumers(m, fid).remove(bid));
    } else {
        assert(seat_consumers(m2, fid) =~= seat_consumers(m, fid));
    }
}

/// A flight with no booking referencing it — in particular one whose
/// identifier is fresh — has a consumed-seat count of zero.
pub proof fn lemma_booked_count_zero(m: Map<u64, Booking>, fid: u64)
    requires
        m.dom().finite(),
        forall|bid: u64| #[trigger] m.contains_key(bid) ==> m[bid].flight_id != fid,
    ensures
        booked_count(m, fid) == 0,
{
    assert(seat_consumers(m, fid) =~= Set::<u64>::empty());
}

} // verus!
