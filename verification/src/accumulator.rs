//! What one round has gathered so far: at most one value from each peer.

use crate::error::SignError;
use vstd::prelude::*;
use vstd::set_lib::*;

verus! {

/// The index that the relay gives a peer: `1..=capacity`.
pub type PeerId = u32;

/// The contributions of a round as a map from peer index to the body received.
pub type Entries = Map<int, Seq<char>>;

/// Whether every key of `entries` is a peer index of a session of `capacity` peers.
pub open spec fn entries_within(entries: Entries, capacity: nat) -> bool {
    &&& entries.dom().finite()
    &&& forall|id: int| entries.contains_key(id) ==> 1 <= id <= capacity
}

/// Whether all `capacity` peers have contributed.
pub open spec fn is_quorum(entries: Entries, capacity: nat) -> bool {
    entries.len() == capacity
}

/// The map after peer `id` contributed `value`: a new entry, or the same map
/// where the peer sent the same value before. A peer index outside the
/// session is rejected, and so is a second value that differs from the first.
pub open spec fn inserted(entries: Entries, capacity: nat, id: int, value: Seq<char>) -> Result<
    Entries,
    SignError,
> {
    if !(1 <= id <= capacity) {
        Err(SignError::PeerOutOfRange)
    } else if entries.contains_key(id) && entries[id] != value {
        Err(SignError::InconsistentPayload)
    } else {
        Ok(entries.insert(id, value))
    }
}

/// The contributions arranged by peer index, that of peer 1 first.
pub open spec fn in_order(entries: Entries, capacity: nat) -> Seq<Seq<char>> {
    Seq::new(capacity, |j: int| entries[j + 1])
}

/// A round never holds more contributions than there are peers, and one that
/// holds as many holds one of every peer.
pub proof fn lemma_quorum_covers(entries: Entries, capacity: nat)
    requires
        entries_within(entries, capacity),
    ensures
        entries.len() <= capacity,
        is_quorum(entries, capacity) <==> (forall|id: int|
            1 <= id <= capacity ==> entries.contains_key(id)),
{
    let all = set_int_range(1, capacity as int + 1);
    lemma_int_range(1, capacity as int + 1);
    assert(entries.dom().subset_of(all));
    lemma_len_subset(entries.dom(), all);
    if is_quorum(entries, capacity) {
        lemma_subset_equality(entries.dom(), all);
        assert forall|id: int| 1 <= id <= capacity implies entries.contains_key(id) by {
            assert(all.contains(id));
        }
    }
    if forall|id: int| 1 <= id <= capacity ==> entries.contains_key(id) {
        assert(entries.dom() =~= all);
    }
}

/// A contribution never removes one: the map only grows, and by at most one entry.
pub proof fn lemma_inserted_grows(entries: Entries, capacity: nat, id: int, value: Seq<char>)
    requires
        entries_within(entries, capacity),
        inserted(entries, capacity, id, value) is Ok,
    ensures
        entries_within(inserted(entries, capacity, id, value).unwrap(), capacity),
        entries.submap_of(inserted(entries, capacity, id, value).unwrap()),
        inserted(entries, capacity, id, value).unwrap().len() == if entries.contains_key(id) {
            entries.len()
        } else {
            entries.len() + 1
        },
{
    let after = entries.insert(id, value);
    if entries.contains_key(id) {
        assert(after =~= entries);
    }
}

/// Contributions of different peers can come in either order.
pub proof fn lemma_inserted_commutes(
    entries: Entries,
    capacity: nat,
    a: int,
    x: Seq<char>,
    b: int,
    y: Seq<char>,
)
    requires
        a != b,
        inserted(entries, capacity, a, x) is Ok,
        inserted(entries, capacity, b, y) is Ok,
    ensures
        inserted(inserted(entries, capacity, a, x).unwrap(), capacity, b, y) is Ok,
        inserted(inserted(entries, capacity, b, y).unwrap(), capacity, a, x) is Ok,
        inserted(inserted(entries, capacity, a, x).unwrap(), capacity, b, y) == inserted(
            inserted(entries, capacity, b, y).unwrap(),
            capacity,
            a,
            x,
        ),
{
    assert(entries.insert(a, x).insert(b, y) =~= entries.insert(b, y).insert(a, x));
}

/// The contributions of one round: at most one value from each peer.
#[derive(Debug)]
pub struct Accumulator {
    capacity: u32,
    slots: Vec<Option<String>>,
    filled: usize,
}

impl View for Accumulator {
    type V = Entries;

    closed spec fn view(&self) -> Entries {
        Map::new(
            |id: int| 1 <= id <= self.slots.len() && self.slots[id - 1] is Some,
            |id: int| self.slots[id - 1].unwrap()@,
        )
    }
}

impl Accumulator {
    /// The number of peers in the session.
    pub closed spec fn capacity(&self) -> nat {
        self.capacity as nat
    }

    /// There is a slot for no more peers than the session has, and the
    /// count that is kept beside the slots agrees with them.
    pub closed spec fn inv(&self) -> bool {
        &&& self.slots.len() <= self.capacity
        &&& self.filled == self@.len()
    }

    /// Well-formedness: every entry belongs to a peer of the session.
    pub open spec fn wf(&self) -> bool {
        &&& self.inv()
        &&& entries_within(self@, self.capacity())
    }

    /// An accumulator without contributions, for a session of `capacity` peers.
    pub fn new(capacity: u32) -> (acc: Accumulator)
        ensures
            acc.wf(),
            acc.capacity() == capacity,
            acc@ == Entries::empty(),
    {
        let acc = Accumulator { capacity, slots: Vec::new(), filled: 0 };
        proof {
            assert(acc@ =~= Entries::empty());
        }
        acc
    }

    /// The number of peers that have contributed.
    pub fn len(&self) -> (n: usize)
        requires
            self.wf(),
        ensures
            n == self@.len(),
    {
        self.filled
    }

    /// Whether every peer has contributed.
    pub fn is_full(&self) -> (full: bool)
        requires
            self.wf(),
        ensures
            full == is_quorum(self@, self.capacity()),
    {
        self.filled == self.capacity as usize
    }

    /// The contribution of peer `id`, if there is one.
    pub fn get(&self, id: PeerId) -> (value: Option<&String>)
        requires
            self.wf(),
        ensures
            value is Some <==> self@.contains_key(id as int),
            value is Some ==> value.unwrap()@ == self@[id as int],
    {
        if id == 0 || id as usize > self.slots.len() {
            return None;
        }
        match &self.slots[id as usize - 1] {
            Some(value) => Some(value),
            None => None,
        }
    }

    /// Makes room for the contributions of the peers up to `id`.
    fn reserve(&mut self, id: PeerId)
        requires
            old(self).wf(),
            id <= old(self).capacity(),
        ensures
            final(self).wf(),
            final(self).capacity() == old(self).capacity(),
            final(self)@ == old(self)@,
            final(self).slots.len() >= id,
    {
        while self.slots.len() < id as usize
            invariant
                self.wf(),
                self.capacity == old(self).capacity,
                self@ == old(self)@,
                id <= self.capacity,
            decreases id - self.slots.len(),
        {
            let ghost before = self@;
            self.slots.push(None);
            proof {
                assert(self@ =~= before);
            }
        }
    }

    /// Records that peer `id` contributed `value`.
    pub fn insert(&mut self, id: PeerId, value: String) -> (res: Result<(), SignError>)
        requires
            old(self).wf(),
        ensures
            final(self).wf(),
            final(self).capacity() == old(self).capacity(),
            match inserted(old(self)@, old(self).capacity(), id as int, value@) {
                Ok(entries) => res is Ok && final(self)@ == entries,
                Err(e) => res == Err::<(), SignError>(e) && final(self)@ == old(self)@,
            },
    {
        if id == 0 || id > self.capacity {
            return Err(SignError::PeerOutOfRange);
        }
        self.reserve(id);
        let slot = id as usize - 1;
        let known = match &self.slots[slot] {
            Some(existing) => Some(*existing == value),
            None => None,
        };
        match known {
            Some(same) => {
                if !same {
                    return Err(SignError::InconsistentPayload);
                }
                proof {
                    assert(self@.insert(id as int, value@) =~= self@);
                }
                Ok(())
            },
            None => {
                proof {
                    lemma_quorum_covers(self@, self.capacity());
                    assert(!self@.contains_key(id as int));
                    assert(self@.len() < self.capacity());
                }
                let ghost before = self@;
                self.slots.set(slot, Some(value));
                self.filled = self.filled + 1;
                proof {
                    assert(self@ =~= before.insert(id as int, value@));
                }
                Ok(())
            },
        }
    }

    /// The contributions by peer index, that of peer 1 first, once every peer
    /// has contributed.
    pub fn ordered(&self) -> (values: Option<Vec<String>>)
        requires
            self.wf(),
        ensures
            values is Some <==> is_quorum(self@, self.capacity()),
            values is Some ==> values.unwrap().deep_view() == in_order(self@, self.capacity()),
    {
        if self.filled != self.capacity as usize {
            return None;
        }
        proof {
            lemma_quorum_covers(self@, self.capacity());
            if self.capacity > 0 {
                assert(self@.contains_key(self.capacity as int));
            }
        }
        let mut values: Vec<String> = Vec::new();
        let mut i: usize = 0;
        while i < self.slots.len()
            invariant
                i <= self.slots.len(),
                self.slots.len() == self.capacity,
                values.len() == i,
                forall|id: int| 1 <= id <= self.slots.len() ==> self@.contains_key(id),
                forall|j: int| 0 <= j < i ==> values[j]@ == self@[j + 1],
            decreases self.slots.len() - i,
        {
            assert(self@.contains_key(i as int + 1));
            match &self.slots[i] {
                Some(value) => {
                    values.push(value.clone());
                },
                None => {},
            }
            i += 1;
        }
        proof {
            assert(values.deep_view() =~= in_order(self@, self.capacity()));
        }
        Some(values)
    }
}

} // verus!
