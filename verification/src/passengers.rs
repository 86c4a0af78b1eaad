//! Passenger service: CRUD over Passenger records. No cross-entity
//! invariant attaches to passengers.

use vstd::prelude::*;
use crate::entities::Passenger;
use crate::errors::Error;
use crate::system::Reservations;

verus! {

impl Reservations {
    /// Creates a passenger under a fresh identifier and returns a copy of
    /// the stored record.
    pub fn add_passenger(&mut self, name: String, email: String) -> (r: Result<Passenger, Error>)
        requires
            old(self).wf(),
            old(self).ids.counter < u64::MAX,
        ensures
            final (self).wf(),
            r is Ok,
            r matches Ok(p) ==> {
                &&& p == (Passenger { id: (old(self).ids.counter + 1) as u64, name, email })
                &&& !old(self).passengers@.contains_key(p.id)
                &&& final (self).passengers@ == old(self).passengers@.insert(p.id, p)
            },
            final (self).ids.counter == old(self).ids.counter + 1,
            final (self).flights@ == old(self).flights@,
            final (self).bookings@ == old(self).bookings@,
            old(self).consistent() ==> final (self).consistent(),
    {
        let id = self.ids.next_id();
        let passenger = Passenger { id, name, email };
        let stored = passenger.duplicate();
        self.passengers.insert(id, passenger);
        Ok(stored)
    }

    /// Replaces the name and email of the passenger at `id`, keeping its
    /// identifier. Fails with `NotFound`, leaving the service untouched,
    /// when no passenger is stored there.
    pub fn update_passenger(&mut self, id: u64, name: String, email: String) -> (r: Result<
        Passenger,
        Error,
    >)
        requires
            old(self).wf(),
        ensures
            final (self).wf(),
            final (self).ids == old(self).ids,
            final (self).flights@ == old(self).flights@,
            final (self).bookings@ == old(self).bookings@,
            r is Ok <==> old(self).passengers@.contains_key(id),
            r matches Ok(p) ==> {
                &&& p == (Passenger { id, name, email })
                &&& final (self).passengers@ == old(self).passengers@.insert(id, p)
            },
            r is Err ==> *final (self) == *old(self),
            r matches Err(e) ==> e is NotFound,
            old(self).consistent() ==> final (self).consistent(),
    {
        if self.passengers.get(id).is_none() {
            return Err(
                Error::NotFound { msg: "no passenger is stored under the given id".to_owned() },
            );
        }
        let updated = Passenger { id, name, email };
        let stored = updated.duplicate();
        self.passengers.insert(id, updated);
        Ok(stored)
    }

    /// Deletes the passenger at `id`; fails with `NotFound`, leaving the
    /// service untouched, when none is stored there. Bookings that reference
    /// the deleted passenger are not cascaded.
    pub fn delete_passenger(&mut self, id: u64) -> (r: Result<(), Error>)
        requires
            old(self).wf(),
        ensures
            final (self).wf(),
            final (self).ids == old(self).ids,
            final (self).flights@ == old(self).flights@,
            final (self).bookings@ == old(self).bookings@,
            r is Ok <==> old(self).passengers@.contains_key(id),
            r is Ok ==> final (self).passengers@ == old(self).passengers@.remove(id),
            r is Err ==> final (self).passengers@ == old(self).passengers@,
            r matches Err(e) ==> e is NotFound,
            old(self).consistent() ==> final (self).consistent(),
    {
        let removed = self.passengers.remove(id);
        proof {
            if !old(self).passengers@.contains_key(id) {
                assert(self.passengers@ =~= old(self).passengers@);
            }
        }
        match removed {
            Some(_) => Ok(()),
            None => Err(
                Error::NotFound { msg: "no passenger is stored under the given id".to_owned() },
            ),
        }
    }

    /// A copy of the passenger at `id`; fails with `NotFound` when none is
    /// stored there.
    pub fn get_passenger(&self, id: u64) -> (r: Result<Passenger, Error>)
        ensures
            r is Ok <==> self.passengers@.contains_key(id),
            r matches Ok(p) ==> p == self.passengers@[id],
            r matches Err(e) ==> e is NotFound,
    {
        match self.passengers.get(id) {
            Some(p) => Ok(p.duplicate()),
            None => Err(
                Error::NotFound { msg: "no passenger is stored under the given id".to_owned() },
            ),
        }
    }

    /// Copies of all stored passengers, in ascending identifier order.
    #[verifier::loop_isolation(false)]
    pub fn list_all_passengers(&self) -> (r: Vec<Passenger>)
        requires
            self.wf(),
        ensures
            r@.len() == self.passengers@.dom().len(),
            forall|i: int|
                0 <= i < r@.len() ==> #[trigger] self.passengers@.contains_key(r@[i].id)
                    && self.passengers@[r@[i].id] == r@[i],
            forall|i: int, j: int| 0 <= i < j < r@.len() ==> r@[i].id < r@[j].id,
            forall|k: u64|
                #[trigger] self.passengers@.contains_key(k) ==> exists|i: int|
                    0 <= i < r@.len() && r@[i].id == k,
    {
        let pairs = self.passengers.entries();
        let mut r: Vec<Passenger> = Vec::new();
        let n = pairs.len();
        let mut idx: usize = 0;
        while idx < n
            invariant
                idx <= n,
                r@.len() == idx,
                forall|i: int| 0 <= i < idx ==> r@[i] == *pairs@[i].1 && r@[i].id == pairs@[i].0,
            decreases n - idx,
        {
            let copy = pairs[idx].1.duplicate();
            proof {
                assert(self.passengers@.contains_key(pairs@[idx as int].0));
            }
            r.push(copy);
            idx = idx + 1;
        }
        proof {
            assert forall|k: u64| #[trigger] self.passengers@.contains_key(k) implies exists|
                i: int,
            | 0 <= i < r@.len() && r@[i].id == k by {
                let i = choose|i: int| 0 <= i < pairs@.len() && pairs@[i].0 == k;
                assert(r@[i].id == k);
            }
        }
        r
    }
}

} // verus!
