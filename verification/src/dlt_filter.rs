use vstd::prelude::*;
use libc::c_int;
use crate::dlt_common::{dlt_id_eq, dlt_id_is_empty, spec_id_is_empty, DltMessage, DltMessageView};
use crate::dlt_protocol::{spec_htyp_ueh, DLT_IS_HTYP_UEH};

verus! {

/// Why a filter operation failed.
#[derive(Debug, Clone, Copy, PartialEq, Eq, Structural)]
pub enum DltFilterError {
    /// The pair to add is in the list already.
    AlreadyExists,
    /// The list holds as many pairs as it can.
    CapacityExceeded,
    /// The pair is not in the list.
    NotFound,
}

/// Structure to store filter parameters.
/// ID are maximal four characters. Unused values are filled with zeros.
/// If every value as filter is valid, the id should be empty by having only zero values.
#[derive(Debug, Clone, PartialEq, Eq)]
pub struct DltFilter {
    /// Application id
    pub apid: Vec<[u8; 4]>,
    /// Context id
    pub ctid: Vec<[u8; 4]>,
    /// Number of filters
    pub counter: usize,
    /// Number of filters that the list can hold
    pub capacity: usize,
}

/// Whether one pair of a filter lets a message with these ids through: each id of the pair
/// is empty or equal to the message's.
pub open spec fn spec_pair_matches(pair: ([u8; 4], [u8; 4]), apid: [u8; 4], ctid: [u8; 4]) -> bool {
    &&& (spec_id_is_empty(pair.0@) || pair.0 == apid)
    &&& (spec_id_is_empty(pair.1@) || pair.1 == ctid)
}

impl View for DltFilter {
    type V = Seq<([u8; 4], [u8; 4])>;

    /// The pairs of the list, in the order in which they were added.
    open spec fn view(&self) -> Seq<([u8; 4], [u8; 4])> {
        Seq::new(self.counter as nat, |i: int| (self.apid@[i], self.ctid@[i]))
    }
}

impl DltFilter {
    /// A filter is well formed when both id lists hold `counter` ids, `counter` is within
    /// the capacity, and no pair stands in the list twice.
    pub open spec fn wf(&self) -> bool {
        &&& self.apid@.len() == self.counter
        &&& self.ctid@.len() == self.counter
        &&& self.counter <= self.capacity
        &&& forall|i: int, j: int| 0 <= i < j < self.counter ==> self@[i] != self@[j]
    }

    /// Whether some pair of the list lets a message with these ids through.
    pub open spec fn spec_matches_ids(&self, apid: [u8; 4], ctid: [u8; 4]) -> bool {
        exists|i: int| 0 <= i < self@.len() && spec_pair_matches(#[trigger] self@[i], apid, ctid)
    }

    /// Whether the filter lets a message through: the message has an extended header, and
    /// some pair of the list matches its application id and context id.
    pub open spec fn spec_matches(&self, msg: DltMessageView) -> bool {
        spec_htyp_ueh(msg.standardheader.htyp) && self.spec_matches_ids(
            msg.extendedheader.apid,
            msg.extendedheader.ctid,
        )
    }

    /// Whether the filter is well formed.
    pub fn is_wf(&self) -> (ok: bool)
        ensures
            ok == self.wf(),
    {
        if self.apid.len() != self.counter || self.ctid.len() != self.counter || self.counter
            > self.capacity {
            return false;
        }
        let mut j: usize = 0;
        while j < self.counter
            invariant
                self.apid@.len() == self.counter,
                self.ctid@.len() == self.counter,
                self.counter <= self.capacity,
                j <= self.counter,
                forall|a: int, b: int| 0 <= a < b < j ==> self@[a] != self@[b],
            decreases self.counter - j,
        {
            let mut i: usize = 0;
            while i < j
                invariant
                    self.apid@.len() == self.counter,
                    self.ctid@.len() == self.counter,
                    i <= j < self.counter,
                    forall|a: int| 0 <= a < i ==> self@[a] != self@[j as int],
                decreases j - i,
            {
                if dlt_id_eq(&self.apid[i], &self.apid[j]) && dlt_id_eq(&self.ctid[i], &self.ctid[j]) {
                    assert(self@[i as int] == self@[j as int]);
                    return false;
                }
                i += 1;
            }
            j += 1;
        }
        true
    }

    /// An empty filter list that can hold `capacity` pairs.
    pub fn init(capacity: usize) -> (filter: DltFilter)
        ensures
            filter.wf(),
            filter@.len() == 0,
            filter.capacity == capacity,
    {
        DltFilter { apid: Vec::new(), ctid: Vec::new(), counter: 0, capacity }
    }

    /// Removes all pairs from the list.
    pub fn free(&mut self)
        ensures
            final(self).wf(),
            final(self)@.len() == 0,
            final(self).capacity == old(self).capacity,
    {
        self.apid = Vec::new();
        self.ctid = Vec::new();
        self.counter = 0;
    }

    /// Finds the position of a pair in the list.
    /// Fails with `NotFound` where the pair is not in the list.
    pub fn find(&self, apid: &[u8; 4], ctid: &[u8; 4]) -> (r: Result<usize, DltFilterError>)
        requires
            self.wf(),
        ensures
            match r {
                Ok(i) => i < self@.len() && self@[i as int] == (*apid, *ctid),
                Err(e) => e == DltFilterError::NotFound && forall|i: int|
                    0 <= i < self@.len() ==> self@[i] != (*apid, *ctid),
            },
    {
        let mut i: usize = 0;
        while i < self.counter
            invariant
                self.wf(),
                i <= self.counter,
                forall|j: int| 0 <= j < i ==> self@[j] != (*apid, *ctid),
            decreases self.counter - i,
        {
            if dlt_id_eq(&self.apid[i], apid) && dlt_id_eq(&self.ctid[i], ctid) {
                return Ok(i);
            }
            i += 1;
        }
        Err(DltFilterError::NotFound)
    }

    /// Adds a pair at the end of the list and gives its position.
    ///
    /// Fails with `AlreadyExists` where the pair is in the list, else with
    /// `CapacityExceeded` where the list is full. A call that fails changes nothing.
    pub fn add(&mut self, apid: &[u8; 4], ctid: &[u8; 4]) -> (r: Result<usize, DltFilterError>)
        requires
            old(self).wf(),
        ensures
            final(self).wf(),
            final(self).capacity == old(self).capacity,
            match r {
                Ok(i) => {
                    &&& !old(self)@.contains((*apid, *ctid))
                    &&& old(self)@.len() < old(self).capacity
                    &&& i == old(self)@.len()
                    &&& final(self)@ == old(self)@.push((*apid, *ctid))
                },
                Err(e) => {
                    &&& final(self)@ == old(self)@
                    &&& e == (if old(self)@.contains((*apid, *ctid)) {
                        DltFilterError::AlreadyExists
                    } else {
                        DltFilterError::CapacityExceeded
                    })
                    &&& (old(self)@.contains((*apid, *ctid)) || old(self)@.len() == old(
                        self,
                    ).capacity)
                },
            },
    {
        if self.find(apid, ctid).is_ok() {
            return Err(DltFilterError::AlreadyExists);
        }
        if self.counter >= self.capacity {
            return Err(DltFilterError::CapacityExceeded);
        }
        let at = self.counter;
        self.apid.push(*apid);
        self.ctid.push(*ctid);
        self.counter = at + 1;
        assert(self@ =~= old(self)@.push((*apid, *ctid)));
        Ok(at)
    }

    /// Takes a pair out of the list; the pairs behind it move up by one.
    /// Fails with `NotFound`, changing nothing, where the pair is not in the list.
    pub fn delete(&mut self, apid: &[u8; 4], ctid: &[u8; 4]) -> (r: Result<(), DltFilterError>)
        requires
            old(self).wf(),
        ensures
            final(self).wf(),
            final(self).capacity == old(self).capacity,
            !final(self)@.contains((*apid, *ctid)),
            match r {
                Ok(_) => exists|i: int|
                    0 <= i < old(self)@.len() && old(self)@[i] == (*apid, *ctid) && final(self)@
                        == old(self)@.remove(i),
                Err(e) => e == DltFilterError::NotFound && !old(self)@.contains((*apid, *ctid))
                    && final(self)@ == old(self)@,
            },
    {
        match self.find(apid, ctid) {
            Err(e) => Err(e),
            Ok(i) => {
                self.apid.remove(i);
                self.ctid.remove(i);
                self.counter = self.counter - 1;
                proof {
                    let before = old(self)@;
                    assert(self@ =~= before.remove(i as int));
                    assert forall|a: int, b: int| 0 <= a < b < self.counter implies self@[a]
                        != self@[b] by {
                        let a0 = if a < i {
                            a
                        } else {
                            a + 1
                        };
                        let b0 = if b < i {
                            b
                        } else {
                            b + 1
                        };
                        assert(self@[a] == before[a0] && self@[b] == before[b0]);
                    }
                    assert forall|k: int| 0 <= k < self@.len() implies self@[k] != (
                        *apid,
                        *ctid,
                    ) by {
                        let k0 = if k < i {
                            k
                        } else {
                            k + 1
                        };
                        assert(self@[k] == before[k0]);
                    }
                }
                Ok(())
            },
        }
    }

    /// Whether the filter lets through a message with these ids: some pair of the list has
    /// each of its ids empty or equal to the one given.
    pub fn matches_ids(&self, apid: &[u8; 4], ctid: &[u8; 4]) -> (found: bool)
        requires
            self.wf(),
        ensures
            found == self.spec_matches_ids(*apid, *ctid),
    {
        let mut i: usize = 0;
        while i < self.counter
            invariant
                self.wf(),
                i <= self.counter,
                forall|j: int| 0 <= j < i ==> !spec_pair_matches(#[trigger] self@[j], *apid, *ctid),
            decreases self.counter - i,
        {
            if (dlt_id_is_empty(&self.apid[i]) || dlt_id_eq(&self.apid[i], apid)) && (
            dlt_id_is_empty(&self.ctid[i]) || dlt_id_eq(&self.ctid[i], ctid)) {
                assert(spec_pair_matches(self@[i as int], *apid, *ctid));
                return true;
            }
            i += 1;
        }
        false
    }

    /// Whether the filter lets a message through. All pairs are applied, and one that
    /// matches is enough; a message without extended header matches none.
    pub fn matches(&self, msg: &DltMessage) -> (found: bool)
        requires
            self.wf(),
        ensures
            found == self.spec_matches(msg@),
    {
        DLT_IS_HTYP_UEH(msg.standardheader.htyp as c_int) != 0 && self.matches_ids(
            &msg.extendedheader.apid,
            &msg.extendedheader.ctid,
        )
    }
}

} // verus!
