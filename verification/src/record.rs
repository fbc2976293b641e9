//! Records: values with a mathematical view that can be copied.

use vstd::prelude::*;

verus! {

/// The views of a list of values, in order.
pub open spec fn views<T: View>(s: Seq<T>) -> Seq<T::V> {
    s.map_values(|x: T| x@)
}

/// The view of an optional value.
pub open spec fn view_opt<T: View>(o: Option<T>) -> Option<T::V> {
    match o {
        Some(x) => Some(x@),
        None => None,
    }
}

/// A value that can be copied without changing what it stands for.
pub trait Record: View + Sized {
    fn duplicate(&self) -> (r: Self)
        ensures
            r@ == self@,
    ;
}

impl Record for String {
    fn duplicate(&self) -> (r: Self) {
        self.clone()
    }
}

/// A copy of every element, in order.
pub fn duplicate_all<T: Record>(v: &Vec<T>) -> (r: Vec<T>)
    ensures
        views(r@) == views(v@),
{
    let mut r: Vec<T> = Vec::new();
    let mut i: usize = 0;
    while i < v.len()
        invariant
            i <= v.len(),
            r.len() == i,
            views(r@) == views(v@).take(i as int),
        decreases v.len() - i,
    {
        let ghost before = r@;
        r.push(v[i].duplicate());
        proof {
            assert forall|j: int| 0 <= j < i + 1 implies views(r@)[j] == views(v@)[j] by {
                if j < i {
                    assert(views(before)[j] == views(v@).take(i as int)[j]);
                }
            }
            assert(views(r@) =~= views(v@).take(i + 1));
        }
        i += 1;
    }
    proof {
        assert(views(v@).take(v.len() as int) =~= views(v@));
    }
    r
}

/// A copy of an optional value.
pub fn duplicate_opt<T: Record>(o: &Option<T>) -> (r: Option<T>)
    ensures
        view_opt(r) == view_opt(*o),
{
    match o {
        Some(x) => Some(x.duplicate()),
        None => None,
    }
}

impl Record for bool {
    fn duplicate(&self) -> (r: Self) {
        *self
    }
}

impl Record for i64 {
    fn duplicate(&self) -> (r: Self) {
        *self
    }
}

/// The value of a field after an update that may set it.
pub open spec fn or_else<T>(new: Option<T>, old: T) -> T {
    match new {
        Some(x) => x,
        None => old,
    }
}

/// The value of an optional field after an update that may clear it and may
/// set it: a new value wins over the clearing.
pub open spec fn settled<T>(old: Option<T>, cleared: bool, new: Option<T>) -> Option<T> {
    if new is Some {
        new
    } else if cleared {
        None
    } else {
        old
    }
}

/// A copy of the new value where there is one, else of the old one.
pub fn pick<T: Record>(new: &Option<T>, old: &T) -> (r: T)
    ensures
        r@ == or_else(view_opt(*new), old@),
{
    match new {
        Some(x) => x.duplicate(),
        None => old.duplicate(),
    }
}

/// A copy of the new list where there is one, else of the old one.
pub fn pick_all<T: Record>(new: &Option<Vec<T>>, old: &Vec<T>) -> (r: Vec<T>)
    ensures
        views(r@) == match *new {
            Some(list) => views(list@),
            None => views(old@),
        },
{
    match new {
        Some(list) => duplicate_all(list),
        None => duplicate_all(old),
    }
}

/// A copy of what an optional field holds after an update.
pub fn settle<T: Record>(old: &Option<T>, cleared: bool, new: &Option<T>) -> (r: Option<T>)
    ensures
        view_opt(r) == settled(view_opt(*old), cleared, view_opt(*new)),
{
    match new {
        Some(x) => Some(x.duplicate()),
        None => if cleared {
            None
        } else {
            duplicate_opt(old)
        },
    }
}

/// A copy of an optional list.
pub fn duplicate_opt_all<T: Record>(o: &Option<Vec<T>>) -> (r: Option<Vec<T>>)
    ensures
        view_opt_all(r) == view_opt_all(*o),
{
    match o {
        Some(list) => Some(duplicate_all(list)),
        None => None,
    }
}

/// A copy of a list of plain values.
pub fn copy_all<T: Copy>(v: &Vec<T>) -> (r: Vec<T>)
    ensures
        r@ == v@,
{
    let mut r: Vec<T> = Vec::new();
    let mut i: usize = 0;
    while i < v.len()
        invariant
            i <= v.len(),
            r@ == v@.take(i as int),
        decreases v.len() - i,
    {
        r.push(v[i]);
        assert(r@ =~= v@.take(i + 1));
        i += 1;
    }
    assert(v@.take(v.len() as int) =~= v@);
    r
}

/// The view of an optional list.
pub open spec fn view_opt_all<T: View>(o: Option<Vec<T>>) -> Option<Seq<T::V>> {
    match o {
        Some(list) => Some(views(list@)),
        None => None,
    }
}

} // verus!
