//! A bounded memory of the event identifiers seen last.

use vstd::prelude::*;
use crate::ids::{lemma_without_contains, lemma_without_unique, without, Id, IdSet};

verus! {

/// What a memory of `capacity` places holds after `id` is recorded: `id` is
/// the newest entry, and where there is no place left the oldest entry goes.
pub open spec fn remembered(order: Seq<Id>, capacity: nat, id: Id) -> Seq<Id> {
    let rest = without(order, id);
    if rest.len() < capacity {
        rest.push(id)
    } else {
        rest.drop_first().push(id)
    }
}

/// The identifiers recorded last, at most `capacity` of them, oldest first.
pub struct SeenEvents {
    capacity: usize,
    ids: IdSet,
}

impl SeenEvents {
    /// The identifiers held, oldest first.
    pub closed spec fn order(&self) -> Seq<Id> {
        self.ids.order()
    }

    /// How many identifiers the memory holds at most.
    pub closed spec fn capacity(&self) -> nat {
        self.capacity as nat
    }

    /// Nothing is held twice, and no more than the capacity, which is at
    /// least one.
    pub closed spec fn wf(&self) -> bool {
        &&& self.ids.wf()
        &&& self.capacity >= 1
        &&& self.ids.order().len() <= self.capacity
    }

    /// The memory never holds more than its capacity, nor anything twice.
    pub proof fn lemma_bounded(&self)
        requires
            self.wf(),
        ensures
            self.capacity() >= 1,
            self.order().len() <= self.capacity(),
            self.order().no_duplicates(),
    {
        self.ids.lemma_order();
    }

    /// An empty memory of `capacity` places.
    pub fn new(capacity: usize) -> (r: Self)
        requires
            capacity >= 1,
        ensures
            r.wf(),
            r.capacity() == capacity,
            r.order() == Seq::<Id>::empty(),
    {
        SeenEvents { capacity, ids: IdSet::new() }
    }

    /// How many identifiers are held.
    pub fn len(&self) -> (r: usize)
        ensures
            r == self.order().len(),
    {
        self.ids.len()
    }

    /// Whether `id` is held.
    pub fn contains(&self, id: &str) -> (r: bool)
        ensures
            r == self.order().contains(id@),
    {
        self.ids.contains(id)
    }

    /// Records `id` as the newest entry, letting the oldest go where the
    /// memory is full.
    pub fn insert(&mut self, id: String)
        requires
            old(self).wf(),
        ensures
            final(self).wf(),
            final(self).capacity() == old(self).capacity(),
            final(self).order() == remembered(old(self).order(), old(self).capacity(), id@),
    {
        proof {
            self.ids.lemma_order();
        }
        let ghost before = self.order();
        self.ids.remove(id.as_str());
        let ghost rest = self.ids.order();
        proof {
            lemma_without_contains(before, id@);
            self.ids.lemma_order();
        }
        if self.ids.len() >= self.capacity {
            let oldest = self.ids.get(0).clone();
            self.ids.remove(oldest.as_str());
            proof {
                lemma_without_unique(rest, 0);
                assert(rest.remove(0) =~= rest.drop_first());
                self.ids.lemma_order();
                assert(!rest.drop_first().contains(id@)) by {
                    if rest.drop_first().contains(id@) {
                        let j = choose|j: int|
                            0 <= j < rest.drop_first().len() && rest.drop_first()[j] == id@;
                        assert(rest[j + 1] == id@);
                    }
                }
            }
        }
        self.ids.insert(id);
    }
}

} // verus!
