//! Flight service: CRUD, search and availability over Flight records.

use vstd::prelude::*;
use crate::entities::Flight;
use crate::errors::Error;
use crate::system::{booked_count, lemma_booked_count_zero, Reservations};
use crate::text::{flight_matches, flight_matches_exec};

verus! {

broadcast use crate::store::lemma_table_view_finite;

impl Reservations {
    /// Creates a flight under a fresh identifier, with every seat available,
    /// and returns a copy of the stored record. No validation is performed on
    /// the text fields, the timestamps or the capacity: that is the caller's
    /// responsibility.
    pub fn add_flight(
        &mut self,
        airline: String,
        flight_number: String,
        origin: String,
        destination: String,
        departure_time: u64,
        arrival_time: u64,
        capacity: u32,
    ) -> (r: Result<Flight, Error>)
        requires
            old(self).wf(),
            old(self).ids.counter < u64::MAX,
        ensures
            final (self).wf(),
            r is Ok,
            r matches Ok(f) ==> {
                &&& f == (Flight {
                    id: (old(self).ids.counter + 1) as u64,
                    airline,
                    flight_number,
                    origin,
                    destination,
                    departure_time,
                    arrival_time,
                    capacity,
                    available_seats: capacity,
                })
                &&& !old(self).flights@.contains_key(f.id)
                &&& final (self).flights@ == old(self).flights@.insert(f.id, f)
            },
            final (self).ids.counter == old(self).ids.counter + 1,
            final (self).passengers@ == old(self).passengers@,
            final (self).bookings@ == old(self).bookings@,
            old(self).consistent() ==> final (self).consistent(),
    {
        let id = self.ids.next_id();
        let flight = Flight {
            id,
            airline,
            flight_number,
            origin,
            destination,
            departure_time,
            arrival_time,
            capacity,
            available_seats: capacity,
        };
        let stored = flight.duplicate();
        self.flights.insert(id, flight);
        proof {
            if old(self).consistent() {
                lemma_booked_count_zero(self.bookings@, id);
                assert forall|k: u64| #[trigger] self.flights@.contains_key(k) implies {
                    let f = self.flights@[k];
                    &&& f.available_seats <= f.capacity
                    &&& f.capacity - f.available_seats == booked_count(self.bookings@, k)
                } by {
                    if k != id {
                        assert(old(self).flights@.contains_key(k));
                    }
                }
            }
        }
        Ok(stored)
    }

    /// Replaces every field of the flight at `id` except its identifier and
    /// its `available_seats`, which is carried over from the stored record: a
    /// capacity change does not retroactively grant or revoke seats already
    /// booked. Fails with `NotFound`, leaving the service untouched, when no
    /// flight is stored at `id`.
    pub fn update_flight(
        &mut self,
        id: u64,
        airline: String,
        flight_number: String,
        origin: String,
        destination: String,
        departure_time: u64,
        arrival_time: u64,
        capacity: u32,
    ) -> (r: Result<Flight, Error>)
        requires
            old(self).wf(),
        ensures
            final (self).wf(),
            final (self).ids == old(self).ids,
            final (self).passengers@ == old(self).passengers@,
            final (self).bookings@ == old(self).bookings@,
            r is Ok <==> old(self).flights@.contains_key(id),
            r matches Ok(f) ==> {
                &&& f == (Flight {
                    id,
                    airline,
                    flight_number,
                    origin,
                    destination,
                    departure_time,
                    arrival_time,
                    capacity,
                    available_seats: old(self).flights@[id].available_seats,
                })
                &&& final (self).flights@ == old(self).flights@.insert(id, f)
            },
            r is Err ==> *final (self) == *old(self),
            r matches Err(e) ==> e is NotFound,
            old(self).consistent() && (old(self).flights@.contains_key(id) ==> capacity == old(
                self,
            ).flights@[id].capacity) ==> final (self).consistent(),
    {
        let seats = match self.flights.get(id) {
            Some(f) => f.available_seats,
            None => {
                return Err(
                    Error::NotFound { msg: "no flight is stored under the given id".to_owned() },
                );
            },
        };
        let updated = Flight {
            id,
            airline,
            flight_number,
            origin,
            destination,
            departure_time,
            arrival_time,
            capacity,
            available_seats: seats,
        };
        let stored = updated.duplicate();
        self.flights.insert(id, updated);
        proof {
            if old(self).consistent() && capacity == old(self).flights@[id].capacity {
                assert forall|k: u64| #[trigger] self.flights@.contains_key(k) implies {
                    let f = self.flights@[k];
                    &&& f.available_seats <= f.capacity
                    &&& f.capacity - f.available_seats == booked_count(self.bookings@, k)
                } by {
                    assert(old(self).flights@.contains_key(k));
                }
            }
        }
        Ok(stored)
    }

    /// Deletes the flight at `id`; fails with `NotFound`, leaving the
    /// service untouched, when none is stored there. Bookings that reference
    /// the deleted flight are not cascaded: they stay, and cancelling one of
    /// them later fails with `NotFound`.
    pub fn delete_flight(&mut self, id: u64) -> (r: Result<(), Error>)
        requires
            old(self).wf(),
        ensures
            final (self).wf(),
            final (self).ids == old(self).ids,
            final (self).passengers@ == old(self).passengers@,
            final (self).bookings@ == old(self).bookings@,
            r is Ok <==> old(self).flights@.contains_key(id),
            r is Ok ==> final (self).flights@ == old(self).flights@.remove(id),
            r is Err ==> final (self).flights@ == old(self).flights@,
            r matches Err(e) ==> e is NotFound,
            old(self).consistent() ==> final (self).consistent(),
    {
        let removed = self.flights.remove(id);
        proof {
            if !old(self).flights@.contains_key(id) {
                assert(self.flights@ =~= old(self).flights@);
            }
            if old(self).consistent() {
                assert forall|k: u64| #[trigger] self.flights@.contains_key(k) implies {
                    let f = self.flights@[k];
                    &&& f.available_seats <= f.capacity
                    &&& f.capacity - f.available_seats == booked_count(self.bookings@, k)
                } by {
                    assert(old(self).flights@.contains_key(k));
                }
            }
        }
        match removed {
            Some(_) => Ok(()),
            None => Err(Error::NotFound { msg: "no flight is stored under the given id".to_owned() }),
        }
    }

    /// A copy of the flight at `id`; fails with `NotFound` when none is
    /// stored there.
    pub fn get_flight(&self, id: u64) -> (r: Result<Flight, Error>)
        ensures
            r is Ok <==> self.flights@.contains_key(id),
            r matches Ok(f) ==> f == self.flights@[id],
            r matches Err(e) ==> e is NotFound,
    {
        match self.flights.get(id) {
            Some(f) => Ok(f.duplicate()),
            None => Err(Error::NotFound { msg: "no flight is stored under the given id".to_owned() }),
        }
    }

    /// Whether the flight at `id` still has at least one available seat;
    /// fails with `NotFound` when none is stored there.
    pub fn check_flight_availability(&self, id: u64) -> (r: Result<bool, Error>)
        ensures
            r is Ok <==> self.flights@.contains_key(id),
            r matches Ok(b) ==> b == (self.flights@[id].available_seats > 0),
            r matches Err(e) ==> e is NotFound,
    {
        match self.flights.get(id) {
            Some(f) => Ok(f.available_seats > 0),
            None => Err(Error::NotFound { msg: "no flight is stored under the given id".to_owned() }),
        }
    }

    /// Copies of all stored flights, in ascending identifier order.
    #[verifier::loop_isolation(false)]
    pub fn list_all_flights(&self) -> (r: Vec<Flight>)
        requires
            self.wf(),
        ensures
            r@.len() == self.flights@.dom().len(),
            forall|i: int|
                0 <= i < r@.len() ==> #[trigger] self.flights@.contains_key(r@[i].id)
                    && self.flights@[r@[i].id] == r@[i],
            forall|i: int, j: int| 0 <= i < j < r@.len() ==> r@[i].id < r@[j].id,
            forall|k: u64|
                #[trigger] self.flights@.contains_key(k) ==> exists|i: int|
                    0 <= i < r@.len() && r@[i].id == k,
    {
        let pairs = self.flights.entries();
        let mut r: Vec<Flight> = Vec::new();
        let n = pairs.len();
        let mut idx: usize = 0;
        while idx < n
            invariant
                idx <= n,
                r@.len() == idx,
                forall|i: int| 0 <= i < idx ==> r@[i] == *pairs@[i].1 && r@[i].id == pairs@[i].0,
            decreases n - idx,
        {
            let copy = pairs[idx].1.duplicate();
            proof {
                assert(self.flights@.contains_key(pairs@[idx as int].0));
            }
            r.push(copy);
            idx = idx + 1;
        }
        proof {
            assert forall|k: u64| #[trigger] self.flights@.contains_key(k) implies exists|i: int|
                0 <= i < r@.len() && r@[i].id == k by {
                let i = choose|i: int| 0 <= i < pairs@.len() && pairs@[i].0 == k;
                assert(r@[i].id == k);
            }
        }
        r
    }

    /// All stored flights whose airline, flight number, origin or destination
    /// contains the criteria string, in ascending identifier order.
    #[verifier::loop_isolation(false)]
    pub fn search_flights(&self, criteria: String) -> (r: Vec<Flight>)
        requires
            self.wf(),
        ensures
            forall|i: int|
                0 <= i < r@.len() ==> #[trigger] self.flights@.contains_key(r@[i].id)
                    && self.flights@[r@[i].id] == r@[i] && flight_matches(r@[i], criteria@),
            forall|i: int, j: int| 0 <= i < j < r@.len() ==> r@[i].id < r@[j].id,
            forall|k: u64|
                #[trigger] self.flights@.contains_key(k) && flight_matches(
                    self.flights@[k],
                    criteria@,
                ) ==> exists|i: int| 0 <= i < r@.len() && r@[i].id == k,
    {
        let pairs = self.flights.entries();
        let mut r: Vec<Flight> = Vec::new();
        let n = pairs.len();
        let mut idx: usize = 0;
        while idx < n
            invariant
                idx <= n,
                forall|a: int|
                    0 <= a < r@.len() ==> #[trigger] self.flights@.contains_key(r@[a].id)
                        && self.flights@[r@[a].id] == r@[a] && flight_matches(r@[a], criteria@),
                forall|a: int|
                    0 <= a < r@.len() ==> exists|j: int|
                        0 <= j < idx && pairs@[j].0 == (#[trigger] r@[a]).id,
                forall|a: int, b: int| 0 <= a < b < r@.len() ==> r@[a].id < r@[b].id,
                forall|j: int|
                    0 <= j < idx && flight_matches(*(#[trigger] pairs@[j]).1, criteria@)
                        ==> exists|a: int| 0 <= a < r@.len() && r@[a].id == pairs@[j].0,
            decreases n - idx,
        {
            if flight_matches_exec(pairs[idx].1, criteria.as_str()) {
                let copy = pairs[idx].1.duplicate();
                proof {
                    assert(self.flights@.contains_key(pairs@[idx as int].0));
                    assert(copy.id == pairs@[idx as int].0);
                    assert forall|a: int| 0 <= a < r@.len() implies r@[a].id < copy.id by {
                        let j = choose|j: int| 0 <= j < idx && pairs@[j].0 == r@[a].id;
                        assert(pairs@[j].0 < pairs@[idx as int].0);
                    }
                }
                let ghost r0 = r@;
                r.push(copy);
                proof {
                    assert(r@[r@.len() - 1].id == pairs@[idx as int].0);
                    assert forall|j: int|
                        0 <= j < idx + 1 && flight_matches(*(#[trigger] pairs@[j]).1, criteria@)
                        implies exists|a: int| 0 <= a < r@.len() && r@[a].id == pairs@[j].0 by {
                        if j < idx {
                            let a = choose|a: int| 0 <= a < r0.len() && r0[a].id == pairs@[j].0;
                            assert(r@[a].id == pairs@[j].0);
                        } else {
                            assert(r@[r@.len() - 1].id == pairs@[j].0);
                        }
                    }
                }
            }
            idx = idx + 1;
        }
        proof {
            assert forall|k: u64|
                #[trigger] self.flights@.contains_key(k) && flight_matches(
                    self.flights@[k],
                    criteria@,
                ) implies exists|i: int| 0 <= i < r@.len() && r@[i].id == k by {
                let j = choose|j: int| 0 <= j < pairs@.len() && pairs@[j].0 == k;
                assert(flight_matches(*pairs@[j].1, criteria@));
            }
        }
        r
    }
}

} // verus!
