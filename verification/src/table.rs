//! A map from identifiers to records that remembers the order in which its
//! keys were added.

use vstd::prelude::*;
use crate::ids::{find_id, lemma_without_absent, lemma_without_unique, without, Id};
use crate::record::{views, Record};

verus! {

/// The order and the map of the table that holds `values` under `keys`, put in
/// one after the other: a key that comes again keeps its place and takes the
/// later value.
pub open spec fn filled<T>(keys: Seq<Id>, values: Seq<T>) -> (Seq<Id>, Map<Id, T>)
    decreases keys.len(),
{
    if keys.len() == 0 || values.len() != keys.len() {
        (Seq::empty(), Map::empty())
    } else {
        let (order, map) = filled(keys.drop_last(), values.drop_last());
        (
            if map.contains_key(keys.last()) {
                order
            } else {
                order.push(keys.last())
            },
            map.insert(keys.last(), values.last()),
        )
    }
}

/// Every key of a filled map is one of the keys given, and what stands under
/// it is the value given with one of its occurrences; every key given is in
/// the map.
pub proof fn lemma_filled<T>(keys: Seq<Id>, values: Seq<T>)
    requires
        keys.len() == values.len(),
    ensures
        forall|k: Id| #[trigger]
            filled(keys, values).1.contains_key(k) ==> exists|i: int|
                0 <= i < keys.len() && keys[i] == k && filled(keys, values).1[k] == values[i],
        forall|i: int| 0 <= i < keys.len() ==> filled(keys, values).1.contains_key(#[trigger] keys[i]),
    decreases keys.len(),
{
    if keys.len() > 0 {
        let ks = keys.drop_last();
        let vs = values.drop_last();
        lemma_filled(ks, vs);
        let m = filled(keys, values).1;
        assert forall|k: Id| #[trigger] m.contains_key(k) implies exists|i: int|
            0 <= i < keys.len() && keys[i] == k && m[k] == values[i] by {
            if k == keys.last() {
                assert(keys[keys.len() - 1] == k && m[k] == values[keys.len() - 1]);
            } else {
                assert(filled(ks, vs).1.contains_key(k));
                let i = choose|i: int|
                    0 <= i < ks.len() && ks[i] == k && filled(ks, vs).1[k] == vs[i];
                assert(keys[i] == k && m[k] == values[i]);
            }
        }
        assert forall|i: int| 0 <= i < keys.len() implies m.contains_key(#[trigger] keys[i]) by {
            if i < ks.len() {
                assert(ks[i] == keys[i]);
            }
        }
    }
}

/// Records under their identifiers. The view is the map; `order` lists the
/// keys, oldest first.
pub struct Table<V> {
    keys: Vec<String>,
    values: Vec<V>,
}

impl<V: Record> View for Table<V> {
    type V = Map<Id, V::V>;

    closed spec fn view(&self) -> Map<Id, V::V> {
        Map::new(
            |k: Id| self.order().contains(k),
            |k: Id| views(self.values@)[self.order().index_of(k)],
        )
    }
}

impl<V: Record> Table<V> {
    /// The keys, oldest first.
    pub closed spec fn order(&self) -> Seq<Id> {
        views(self.keys@)
    }

    /// Every key stands once, with one record.
    pub closed spec fn wf(&self) -> bool {
        &&& self.order().no_duplicates()
        &&& self.keys.len() == self.values.len()
    }

    /// The keys of the map are those of the order, each once.
    pub proof fn lemma_keys(&self)
        requires
            self.wf(),
        ensures
            self.order().no_duplicates(),
            self@.dom() == self.order().to_set(),
            forall|k: Id| self@.contains_key(k) <==> self.order().contains(k),
    {
        assert(self@.dom() =~= self.order().to_set());
    }

    pub fn new() -> (r: Self)
        ensures
            r.wf(),
            r.order() == Seq::<Id>::empty(),
            r@ == Map::<Id, V::V>::empty(),
    {
        let r = Table { keys: Vec::new(), values: Vec::new() };
        assert(r.order() =~= Seq::<Id>::empty());
        assert(r@ =~= Map::<Id, V::V>::empty());
        r
    }

    pub fn len(&self) -> (r: usize)
        ensures
            r == self.order().len(),
    {
        self.keys.len()
    }

    /// The table that holds a copy of each of `values` under the key given
    /// with it, put in one after the other.
    pub fn from_lists(keys: &Vec<String>, values: &Vec<V>) -> (r: Self)
        requires
            keys.len() == values.len(),
        ensures
            r.wf(),
            (r.order(), r@) == filled(views(keys@), views(values@)),
    {
        let mut r: Table<V> = Table::new();
        let mut i: usize = 0;
        assert(views(keys@).take(0) =~= Seq::<Id>::empty());
        while i < keys.len()
            invariant
                i <= keys.len(),
                keys.len() == values.len(),
                r.wf(),
                (r.order(), r@) == filled(
                    views(keys@).take(i as int),
                    views(values@).take(i as int),
                ),
            decreases keys.len() - i,
        {
            proof {
                let ks = views(keys@);
                let vs = views(values@);
                assert(ks.take(i + 1).drop_last() =~= ks.take(i as int));
                assert(vs.take(i + 1).drop_last() =~= vs.take(i as int));
                assert(ks.take(i + 1).last() == keys[i as int]@);
                assert(vs.take(i + 1).last() == values[i as int]@);
            }
            r.insert(keys[i].clone(), values[i].duplicate());
            i += 1;
        }
        proof {
            assert(views(keys@).take(keys.len() as int) =~= views(keys@));
            assert(views(values@).take(values.len() as int) =~= views(values@));
        }
        r
    }

    /// The place of `key` in the order, if the table holds it.
    pub fn position(&self, key: &str) -> (r: Option<usize>)
        requires
            self.wf(),
        ensures
            match r {
                Some(i) => i < self.order().len() && self.order()[i as int] == key@
                    && self@.contains_key(key@),
                None => !self@.contains_key(key@),
            },
    {
        find_id(&self.keys, key)
    }

    pub fn contains_key(&self, key: &str) -> (r: bool)
        requires
            self.wf(),
        ensures
            r == self@.contains_key(key@),
    {
        find_id(&self.keys, key).is_some()
    }

    /// The record under `key`, if there is one.
    pub fn get(&self, key: &str) -> (r: Option<&V>)
        requires
            self.wf(),
        ensures
            match r {
                Some(v) => self@.contains_key(key@) && v@ == self@[key@],
                None => !self@.contains_key(key@),
            },
    {
        match find_id(&self.keys, key) {
            Some(i) => {
                proof {
                    self.lemma_at(i as int);
                }
                Some(&self.values[i])
            },
            None => None,
        }
    }

    /// A copy of every record, in the order of the keys.
    pub fn values(&self) -> (r: Vec<V>)
        requires
            self.wf(),
        ensures
            r.len() == self.order().len(),
            forall|i: int| 0 <= i < r.len() ==> (#[trigger] r[i])@ == self@[self.order()[i]],
    {
        let mut r: Vec<V> = Vec::new();
        let mut i: usize = 0;
        while i < self.values.len()
            invariant
                i <= self.values.len(),
                self.wf(),
                r.len() == i,
                forall|j: int| 0 <= j < i ==> (#[trigger] r[j])@ == self@[self.order()[j]],
            decreases self.values.len() - i,
        {
            proof {
                self.lemma_at(i as int);
            }
            r.push(self.values[i].duplicate());
            i += 1;
        }
        r
    }

    /// The key at place `i` of the order.
    pub fn key_at(&self, i: usize) -> (r: &String)
        requires
            self.wf(),
            i < self.order().len(),
        ensures
            r@ == self.order()[i as int],
            self@.contains_key(r@),
    {
        proof {
            self.lemma_at(i as int);
        }
        &self.keys[i]
    }

    /// The record under the key at place `i` of the order.
    pub fn value_at(&self, i: usize) -> (r: &V)
        requires
            self.wf(),
            i < self.order().len(),
        ensures
            self@.contains_key(self.order()[i as int]),
            r@ == self@[self.order()[i as int]],
    {
        proof {
            self.lemma_at(i as int);
        }
        &self.values[i]
    }

    proof fn lemma_at(&self, i: int)
        requires
            self.wf(),
            0 <= i < self.order().len(),
        ensures
            self@.contains_key(self.order()[i]),
            self@[self.order()[i]] == self.values[i]@,
            self.order().index_of(self.order()[i]) == i,
    {
        let k = self.order()[i];
        assert(self.order().contains(k));
        let j = self.order().index_of(k);
        assert(self.order()[j] == k);
    }

    /// Puts `value` under `key`. A key that the table holds keeps its place; a
    /// new key becomes the newest.
    pub fn insert(&mut self, key: String, value: V)
        requires
            old(self).wf(),
        ensures
            final(self).wf(),
            final(self)@ == old(self)@.insert(key@, value@),
            final(self).order() == if old(self)@.contains_key(key@) {
                old(self).order()
            } else {
                old(self).order().push(key@)
            },
    {
        let ghost before = *self;
        match find_id(&self.keys, key.as_str()) {
            Some(i) => {
                self.values.set(i, value);
                proof {
                    assert(self.order() == before.order());
                    assert forall|k: Id| self.order().contains(k) implies #[trigger] self@[k]
                        == before@.insert(key@, value@)[k] by {
                        let j = self.order().index_of(k);
                        assert(self.order()[j] == k);
                    }
                    assert(self@ =~= before@.insert(key@, value@));
                }
            },
            None => {
                self.keys.push(key);
                self.values.push(value);
                proof {
                    let n = before.order().len() as int;
                    assert(self.order() =~= before.order().push(key@));
                    assert forall|k: Id| self.order().contains(k) <==> (before.order().contains(k)
                        || k == key@) by {
                        if before.order().contains(k) {
                            let j = before.order().index_of(k);
                            assert(self.order()[j] == k);
                        }
                        if k == key@ {
                            assert(self.order()[n] == k);
                        }
                    }
                    assert forall|k: Id| self.order().contains(k) implies #[trigger] self@[k]
                        == before@.insert(key@, value@)[k] by {
                        let j = self.order().index_of(k);
                        assert(self.order()[j] == k);
                        if k != key@ {
                            assert(j < n);
                            assert(before.order()[j] == k);
                            before.lemma_at(j);
                        } else {
                            assert(j == n);
                        }
                    }
                    assert(self@ =~= before@.insert(key@, value@));
                }
            },
        }
    }

    /// Takes the record under `key` out, if there is one; the other keys keep
    /// their order.
    pub fn remove(&mut self, key: &str) -> (r: Option<V>)
        requires
            old(self).wf(),
        ensures
            final(self).wf(),
            final(self)@ == old(self)@.remove(key@),
            final(self).order() == without(old(self).order(), key@),
            match r {
                Some(v) => old(self)@.contains_key(key@) && v@ == old(self)@[key@],
                None => !old(self)@.contains_key(key@),
            },
    {
        let ghost before = *self;
        match find_id(&self.keys, key) {
            Some(i) => {
                self.keys.remove(i);
                let v = self.values.remove(i);
                proof {
                    let s = before.order();
                    before.lemma_at(i as int);
                    assert(self.order() =~= s.remove(i as int));
                    lemma_without_unique(s, i as int);
                    assert forall|k: Id| self.order().contains(k) <==> (s.contains(k) && k
                        != key@) by {
                        if s.contains(k) && k != key@ {
                            let j = s.index_of(k);
                            if j < i {
                                assert(self.order()[j] == k);
                            } else {
                                assert(self.order()[j - 1] == k);
                            }
                        }
                        if self.order().contains(k) {
                            let j = self.order().index_of(k);
                            if j < i {
                                assert(s[j] == k);
                            } else {
                                assert(s[j + 1] == k);
                            }
                        }
                    }
                    assert forall|k: Id| self.order().contains(k) implies #[trigger] self@[k]
                        == before@[k] by {
                        let j = self.order().index_of(k);
                        assert(self.order()[j] == k);
                        if j < i {
                            assert(s[j] == k);
                            before.lemma_at(j);
                        } else {
                            assert(s[j + 1] == k);
                            before.lemma_at(j + 1);
                        }
                    }
                    assert(self@ =~= before@.remove(key@));
                }
                Some(v)
            },
            None => {
                proof {
                    lemma_without_absent(before.order(), key@);
                    assert(self@ =~= before@.remove(key@));
                }
                None
            },
        }
    }
}

} // verus!
