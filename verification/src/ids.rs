//! Identifiers and ordered sets of identifiers.
//!
//! Every entity (user, server, channel, role, topic) is named by a string. The
//! mathematical model of an identifier is its sequence of characters.

use vstd::prelude::*;
use crate::record::views;

verus! {

/// The model of an identifier.
pub type Id = Seq<char>;

/// Equality of string slices is equality of their characters, as `str`'s
/// `PartialEq` documents it.
pub assume_specification[ <str as PartialEq>::eq ](a: &str, b: &str) -> (r: bool)
    ensures
        r == (a@ == b@),
;

/// The models of a list of identifiers, in order.
pub open spec fn id_seq(v: Seq<String>) -> Seq<Id> {
    views(v)
}

/// Whether two identifiers are the same text.
pub fn same_id(a: &str, b: &str) -> (r: bool)
    ensures
        r == (a@ == b@),
{
    *a == *b
}

/// The first place at which `id` stands in `list`, if any.
pub fn find_id(list: &Vec<String>, id: &str) -> (r: Option<usize>)
    ensures
        match r {
            Some(i) => i < list.len() && list[i as int]@ == id@ && id_seq(list@)[i as int] == id@
                && id_seq(list@).contains(id@) && !id_seq(list@).take(i as int).contains(id@),
            None => !id_seq(list@).contains(id@),
        },
{
    let mut i: usize = 0;
    while i < list.len()
        invariant
            i <= list.len(),
            !id_seq(list@).take(i as int).contains(id@),
        decreases list.len() - i,
    {
        if same_id(list[i].as_str(), id) {
            assert(id_seq(list@)[i as int] == id@);
            return Some(i);
        }
        proof {
            let s = id_seq(list@);
            assert(s.take(i + 1) =~= s.take(i as int).push(s[i as int]));
        }
        i += 1;
    }
    proof {
        let s = id_seq(list@);
        assert(s.take(list.len() as int) =~= s);
    }
    None
}

/// A set of identifiers that remembers the order in which they were added.
pub struct IdSet {
    items: Vec<String>,
}

impl View for IdSet {
    type V = Set<Id>;

    closed spec fn view(&self) -> Set<Id> {
        self.order().to_set()
    }
}

impl IdSet {
    /// The members, oldest first.
    pub closed spec fn order(&self) -> Seq<Id> {
        id_seq(self.items@)
    }

    /// No identifier stands twice in the order.
    pub closed spec fn wf(&self) -> bool {
        self.order().no_duplicates()
    }

    /// The view holds the members of the order.
    pub proof fn lemma_view(&self)
        ensures
            self@ == self.order().to_set(),
    {
    }

    /// The members are pairwise different and make up the view.
    pub proof fn lemma_order(&self)
        requires
            self.wf(),
        ensures
            self.order().no_duplicates(),
            self@ == self.order().to_set(),
            forall|id: Id| self@.contains(id) <==> self.order().contains(id),
    {
    }

    pub fn new() -> (r: Self)
        ensures
            r.wf(),
            r.order() == Seq::<Id>::empty(),
            r@ == Set::<Id>::empty(),
    {
        let r = IdSet { items: Vec::new() };
        assert(r.order() =~= Seq::<Id>::empty());
        assert(r@ =~= Set::<Id>::empty());
        r
    }

    pub fn len(&self) -> (r: usize)
        ensures
            r == self.order().len(),
    {
        self.items.len()
    }

    pub fn get(&self, i: usize) -> (r: &String)
        requires
            i < self.order().len(),
        ensures
            r@ == self.order()[i as int],
    {
        &self.items[i]
    }

    pub fn contains(&self, id: &str) -> (r: bool)
        ensures
            r == self@.contains(id@),
            r == self.order().contains(id@),
    {
        find_id(&self.items, id).is_some()
    }

    /// A copy of the members, oldest first.
    pub fn to_vec(&self) -> (r: Vec<String>)
        ensures
            id_seq(r@) == self.order(),
    {
        crate::record::duplicate_all(&self.items)
    }

    /// Adds `id` as the newest member unless it is one already.
    pub fn insert(&mut self, id: String) -> (fresh: bool)
        requires
            old(self).wf(),
        ensures
            final(self).wf(),
            fresh == !old(self)@.contains(id@),
            final(self)@ == old(self)@.insert(id@),
            final(self).order() == if fresh { old(self).order().push(id@) } else { old(self).order() },
    {
        if find_id(&self.items, id.as_str()).is_some() {
            assert(self@ =~= self@.insert(id@));
            false
        } else {
            let ghost before = self.order();
            self.items.push(id);
            proof {
                assert(self.order() =~= before.push(id@));
                assert(self@ =~= before.to_set().insert(id@)) by {
                    assert forall|x: Id| self.order().contains(x) <==> (before.contains(x) || x == id@) by {
                        if before.contains(x) {
                            let j = choose|j: int| 0 <= j < before.len() && before[j] == x;
                            assert(self.order()[j] == x);
                        }
                        if x == id@ {
                            assert(self.order()[before.len() as int] == x);
                        }
                    }
                }
            }
            true
        }
    }

    /// Takes `id` out, keeping the others in their order.
    pub fn remove(&mut self, id: &str) -> (found: bool)
        requires
            old(self).wf(),
        ensures
            final(self).wf(),
            found == old(self)@.contains(id@),
            final(self)@ == old(self)@.remove(id@),
            final(self).order() == without(old(self).order(), id@),
    {
        let ghost before = self.order();
        match find_id(&self.items, id) {
            Some(i) => {
                self.items.remove(i);
                proof {
                    assert(self.order() =~= before.remove(i as int));
                    lemma_without_unique(before, i as int);
                    assert(self@ =~= before.to_set().remove(id@)) by {
                        assert forall|x: Id| self.order().contains(x) <==> (before.contains(x) && x != id@) by {
                            if before.contains(x) && x != id@ {
                                let j = choose|j: int| 0 <= j < before.len() && before[j] == x;
                                if j < i {
                                    assert(self.order()[j] == x);
                                } else {
                                    assert(self.order()[j - 1] == x);
                                }
                            }
                        }
                    }
                }
                true
            },
            None => {
                proof {
                    lemma_without_absent(before, id@);
                    assert(self@ =~= self@.remove(id@));
                }
                false
            },
        }
    }

    /// Forgets every member.
    pub fn clear(&mut self)
        ensures
            final(self).wf(),
            final(self).order() == Seq::<Id>::empty(),
            final(self)@ == Set::<Id>::empty(),
    {
        self.items.clear();
        assert(self.order() =~= Seq::<Id>::empty());
        assert(self@ =~= Set::<Id>::empty());
    }
}

/// Those of `list` that are not in `set`, in their order.
pub open spec fn outside_of(list: Seq<Id>, set: Set<Id>) -> Seq<Id>
    decreases list.len(),
{
    if list.len() == 0 {
        Seq::empty()
    } else if set.contains(list.last()) {
        outside_of(list.drop_last(), set)
    } else {
        outside_of(list.drop_last(), set).push(list.last())
    }
}

/// Those of `list` that `other` lacks, in their order.
pub fn lacking(list: &Vec<String>, other: &Vec<String>) -> (r: Vec<String>)
    ensures
        id_seq(r@) == outside_of(id_seq(list@), id_seq(other@).to_set()),
{
    let mut r: Vec<String> = Vec::new();
    let mut i: usize = 0;
    assert(id_seq(list@).take(0) =~= Seq::<Id>::empty());
    assert(id_seq(r@) =~= Seq::<Id>::empty());
    while i < list.len()
        invariant
            i <= list.len(),
            id_seq(r@) == outside_of(id_seq(list@).take(i as int), id_seq(other@).to_set()),
        decreases list.len() - i,
    {
        let ghost before = r@;
        proof {
            let all = id_seq(list@);
            assert(all.take(i + 1).drop_last() =~= all.take(i as int));
            assert(all.take(i + 1).last() == list[i as int]@);
        }
        if find_id(other, list[i].as_str()).is_none() {
            r.push(list[i].clone());
            assert(id_seq(r@) =~= id_seq(before).push(list[i as int]@));
        }
        i += 1;
    }
    assert(id_seq(list@).take(list.len() as int) =~= id_seq(list@));
    r
}

/// `s` with every occurrence of `id` taken out, the rest in their order.
pub open spec fn without(s: Seq<Id>, id: Id) -> Seq<Id>
    decreases s.len(),
{
    if s.len() == 0 {
        s
    } else if s.last() == id {
        without(s.drop_last(), id)
    } else {
        without(s.drop_last(), id).push(s.last())
    }
}

/// Taking out an identifier that a list holds once, at `i`, removes the
/// element at `i`.
pub proof fn lemma_without_unique(s: Seq<Id>, i: int)
    requires
        s.no_duplicates(),
        0 <= i < s.len(),
    ensures
        without(s, s[i]) == s.remove(i),
        s.remove(i).no_duplicates(),
        !s.remove(i).contains(s[i]),
    decreases s.len(),
{
    let t = s.drop_last();
    if i == s.len() - 1 {
        assert(s.remove(i) =~= t);
        assert(!t.contains(s[i]));
        lemma_without_absent(t, s[i]);
    } else {
        lemma_without_unique(t, i);
        assert(t[i] == s[i]);
        assert(s.remove(i) =~= t.remove(i).push(s.last()));
    }
}

/// Taking out an identifier that a list does not hold changes nothing.
pub proof fn lemma_without_absent(s: Seq<Id>, id: Id)
    requires
        !s.contains(id),
    ensures
        without(s, id) == s,
    decreases s.len(),
{
    if s.len() > 0 {
        let t = s.drop_last();
        assert(!t.contains(id)) by {
            if t.contains(id) {
                let j = choose|j: int| 0 <= j < t.len() && t[j] == id;
                assert(s[j] == id);
            }
        }
        lemma_without_absent(t, id);
        assert(s.last() != id);
        assert(t.push(s.last()) =~= s);
    }
}

/// What `without` keeps: the members other than `id`.
pub proof fn lemma_without_contains(s: Seq<Id>, id: Id)
    ensures
        forall|x: Id| without(s, id).contains(x) <==> (s.contains(x) && x != id),
        s.no_duplicates() ==> without(s, id).no_duplicates(),
        without(s, id).len() <= s.len(),
    decreases s.len(),
{
    if s.len() > 0 {
        let t = s.drop_last();
        lemma_without_contains(t, id);
        assert(s =~= t.push(s.last()));
        let w = without(t, id);
        assert forall|x: Id| without(s, id).contains(x) <==> (s.contains(x) && x != id) by {
            if s.contains(x) && x != id {
                let j = choose|j: int| 0 <= j < s.len() && s[j] == x;
                if j < t.len() {
                    assert(t[j] == x);
                    assert(t.contains(x));
                    assert(w.contains(x));
                    let k = choose|k: int| 0 <= k < w.len() && w[k] == x;
                    if s.last() != id {
                        assert(w.push(s.last())[k] == x);
                    }
                } else {
                    assert(w.push(x)[w.len() as int] == x);
                }
            }
            if without(s, id).contains(x) {
                let k = choose|k: int| 0 <= k < without(s, id).len() && without(s, id)[k] == x;
                if s.last() != id && k == w.len() {
                    assert(s[s.len() - 1] == x);
                } else {
                    assert(w[k] == x);
                    assert(w.contains(x));
                    assert(t.contains(x));
                    let j = choose|j: int| 0 <= j < t.len() && t[j] == x;
                    assert(s[j] == x);
                }
            }
        }
        if s.no_duplicates() {
            assert(t.no_duplicates());
            if s.last() != id {
                assert(!w.contains(s.last())) by {
                    if w.contains(s.last()) {
                        assert(t.contains(s.last()));
                        let j = choose|j: int| 0 <= j < t.len() && t[j] == s.last();
                        assert(s[j] == s[s.len() - 1]);
                    }
                }
            }
        }
    }
}

} // verus!
