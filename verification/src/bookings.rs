//! Booking service: the cross-entity transactions that consume and release
//! seats, plus read-only access to Booking records.

use vstd::prelude::*;
use crate::entities::{Booking, with_seats};
use crate::errors::Error;
use crate::system::{booked_count, lemma_booked_count_insert, lemma_booked_count_remove,
    Reservations};

verus! {

broadcast use crate::store::lemma_table_view_finite;

impl Reservations {
    /// Books one seat on flight `flight_id` for passenger `passenger_id`:
    /// decrements the flight's available seats, persists the flight, and
    /// creates the Booking under a fresh identifier, all within one call, so
    /// no other caller ever observes the seat consumed without the booking
    /// existing or vice versa. Fails with `NotFound` when the flight or the
    /// passenger does not exist, and with `InvalidInput` when the flight has
    /// no available seat; every failure leaves the service untouched.
    pub fn book_flight(&mut self, flight_id: u64, passenger_id: u64) -> (r: Result<Booking, Error>)
        requires
            old(self).wf(),
            old(self).ids.counter < u64::MAX,
        ensures
            final (self).wf(),
            r is Ok <==> (old(self).flights@.contains_key(flight_id)
                && old(self).passengers@.contains_key(passenger_id)
                && old(self).flights@[flight_id].available_seats > 0),
            r matches Ok(b) ==> {
                let f0 = old(self).flights@[flight_id];
                &&& b == (Booking {
                    id: (old(self).ids.counter + 1) as u64,
                    flight_id,
                    passenger_id,
                })
                &&& !old(self).bookings@.contains_key(b.id)
                &&& final (self).ids.counter == old(self).ids.counter + 1
                &&& final (self).flights@ == old(self).flights@.insert(
                    flight_id,
                    with_seats(f0, (f0.available_seats - 1) as u32),
                )
                &&& final (self).bookings@ == old(self).bookings@.insert(b.id, b)
                &&& final (self).passengers@ == old(self).passengers@
                &&& final (self).flights@[flight_id].available_seats + 1 == f0.available_seats
            },
            r is Err ==> *final (self) == *old(self),
            r matches Err(e) ==> {
                ||| (!old(self).flights@.contains_key(flight_id) && e is NotFound)
                ||| (old(self).flights@.contains_key(flight_id) && !old(
                    self,
                ).passengers@.contains_key(passenger_id) && e is NotFound)
                ||| (old(self).flights@.contains_key(flight_id) && old(
                    self,
                ).passengers@.contains_key(passenger_id) && old(
                    self,
                ).flights@[flight_id].available_seats == 0 && e is InvalidInput)
            },
            old(self).consistent() ==> final (self).consistent(),
    {
        let seats = match self.flights.get(flight_id) {
            Some(f) => f.available_seats,
            None => {
                return Err(
                    Error::NotFound { msg: "no flight is stored under the given id".to_owned() },
                );
            },
        };
        if self.passengers.get(passenger_id).is_none() {
            return Err(
                Error::NotFound { msg: "no passenger is stored under the given id".to_owned() },
            );
        }
        if seats == 0 {
            return Err(
                Error::InvalidInput { msg: "no available seats for this flight".to_owned() },
            );
        }
        let updated = match self.flights.get(flight_id) {
            Some(f) => f.replace_seats(seats - 1),
            None => vstd::pervasive::unreached(),
        };
        self.flights.insert(flight_id, updated);
        let id = self.ids.next_id();
        let booking = Booking { id, flight_id, passenger_id };
        let stored = booking.duplicate();
        self.bookings.insert(id, booking);
        proof {
            assert(!old(self).bookings@.contains_key(id));
            if old(self).consistent() {
                assert forall|k: u64| #[trigger] self.flights@.contains_key(k) implies {
                    let f = self.flights@[k];
                    &&& f.available_seats <= f.capacity
                    &&& f.capacity - f.available_seats == booked_count(self.bookings@, k)
                } by {
                    lemma_booked_count_insert(old(self).bookings@, id, booking, k);
                    if k != flight_id {
                        assert(old(self).flights@.contains_key(k));
                    }
                }
            }
        }
        Ok(stored)
    }

    /// Cancels the booking at `booking_id`: releases the consumed seat back
    /// to the referenced flight and deletes the Booking, all within one
    /// call. Fails with `NotFound` when the booking does not exist, or when
    /// the flight it references no longer does (an orphaned booking). Fails
    /// with `InvalidInput` when releasing the seat would push the flight's
    /// available seats above its capacity — possible only after the flight's
    /// capacity was separately lowered below its consumed count; the count
    /// is capped rather than silently exceeded. Every failure leaves the
    /// service untouched.
    pub fn cancel_booking(&mut self, booking_id: u64) -> (r: Result<(), Error>)
        requires
            old(self).wf(),
        ensures
            final (self).wf(),
            r is Ok <==> (old(self).bookings@.contains_key(booking_id) && {
                let fid = old(self).bookings@[booking_id].flight_id;
                &&& old(self).flights@.contains_key(fid)
                &&& old(self).flights@[fid].available_seats < old(self).flights@[fid].capacity
            }),
            r is Ok ==> ({
                let b = old(self).bookings@[booking_id];
                let f0 = old(self).flights@[b.flight_id];
                &&& final (self).bookings@ == old(self).bookings@.remove(booking_id)
                &&& final (self).flights@ == old(self).flights@.insert(
                    b.flight_id,
                    with_seats(f0, (f0.available_seats + 1) as u32),
                )
                &&& final (self).flights@[b.flight_id].available_seats == f0.available_seats + 1
                &&& final (self).passengers@ == old(self).passengers@
                &&& final (self).ids == old(self).ids
            }),
            r is Err ==> *final (self) == *old(self),
            r matches Err(e) ==> {
                ||| (!old(self).bookings@.contains_key(booking_id) && e is NotFound)
                ||| (old(self).bookings@.contains_key(booking_id) && !old(
                    self,
                ).flights@.contains_key(old(self).bookings@[booking_id].flight_id)
                    && e is NotFound)
                ||| (old(self).bookings@.contains_key(booking_id) && {
                    let fid = old(self).bookings@[booking_id].flight_id;
                    &&& old(self).flights@.contains_key(fid)
                    &&& old(self).flights@[fid].available_seats >= old(
                        self,
                    ).flights@[fid].capacity
                    &&& e is InvalidInput
                })
            },
            old(self).consistent() ==> final (self).consistent(),
    {
        let fid = match self.bookings.get(booking_id) {
            Some(b) => b.flight_id,
            None => {
                return Err(
                    Error::NotFound { msg: "no booking is stored under the given id".to_owned() },
                );
            },
        };
        let updated = match self.flights.get(fid) {
            Some(f) => {
                if f.available_seats >= f.capacity {
                    return Err(
                        Error::InvalidInput {
                            msg: "releasing the seat would exceed the flight's capacity".to_owned(),
                        },
                    );
                }
                f.replace_seats(f.available_seats + 1)
            },
            None => {
                return Err(
                    Error::NotFound {
                        msg: "the flight referenced by the booking no longer exists".to_owned(),
                    },
                );
            },
        };
        self.flights.insert(fid, updated);
        self.bookings.remove(booking_id);
        proof {
            if old(self).consistent() {
                assert forall|k: u64| #[trigger] self.flights@.contains_key(k) implies {
                    let f = self.flights@[k];
                    &&& f.available_seats <= f.capacity
                    &&& f.capacity - f.available_seats == booked_count(self.bookings@, k)
                } by {
                    lemma_booked_count_remove(old(self).bookings@, booking_id, k);
                    if k != fid {
                        assert(old(self).flights@.contains_key(k));
                    }
                }
            }
        }
        Ok(())
    }

    /// A copy of the booking at `id`; fails with `NotFound` when none is
    /// stored there.
    pub fn get_booking(&self, id: u64) -> (r: Result<Booking, Error>)
        ensures
            r is Ok <==> self.bookings@.contains_key(id),
            r matches Ok(b) ==> b == self.bookings@[id],
            r matches Err(e) ==> e is NotFound,
    {
        match self.bookings.get(id) {
            Some(b) => Ok(b.duplicate()),
            None => Err(
                Error::NotFound { msg: "no booking is stored under the given id".to_owned() },
            ),
        }
    }

    /// Copies of all stored bookings, in ascending identifier order.
    #[verifier::loop_isolation(false)]
    pub fn list_all_bookings(&self) -> (r: Vec<Booking>)
        requires
            self.wf(),
        ensures
            r@.len() == self.bookings@.dom().len(),
            forall|i: int|
                0 <= i < r@.len() ==> #[trigger] self.bookings@.contains_key(r@[i].id)
                    && self.bookings@[r@[i].id] == r@[i],
            forall|i: int, j: int| 0 <= i < j < r@.len() ==> r@[i].id < r@[j].id,
            forall|k: u64|
                #[trigger] self.bookings@.contains_key(k) ==> exists|i: int|
                    0 <= i < r@.len() && r@[i].id == k,
    {
        let pairs = self.bookings.entries();
        let mut r: Vec<Booking> = Vec::new();
        let n = pairs.len();
        let mut idx: usize = 0;
        while idx < n
            invariant
                idx <= n,
                r@.len() == idx,
                forall|i: int| 0 <= i < idx ==> r@[i] == *pairs@[i].1 && r@[i].id == pairs@[i].0,
            decreases n - idx,
        {
            let copy = pairs[idx].1.duplicate();
            proof {
                assert(self.bookings@.contains_key(pairs@[idx as int].0));
            }
            r.push(copy);
            idx = idx + 1;
        }
        proof {
            assert forall|k: u64| #[trigger] self.bookings@.contains_key(k) implies exists|i: int|
                0 <= i < r@.len() && r@[i].id == k by {
                let i = choose|i: int| 0 <= i < pairs@.len() && pairs@[i].0 == k;
                assert(r@[i].id == k);
            }
        }
        r
    }
}

} // verus!
