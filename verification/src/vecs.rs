//! Moving the items of a vector into the reverse order.

use vstd::prelude::*;

verus! {

/// The items of `v` in reverse order.
pub fn reversed<T>(v: Vec<T>) -> (r: Vec<T>)
    ensures
        r@ == v@.reverse(),
{
    let ghost olds = v@;
    let mut v = v;
    let mut rev: Vec<T> = Vec::new();
    assert(olds.skip(olds.len() as int).reverse() =~= Seq::<T>::empty());
    assert(olds.take(olds.len() as int) =~= olds);
    while v.len() > 0
        invariant
            v@.len() <= olds.len(),
            v@ == olds.take(v@.len() as int),
            rev@ == olds.skip(v@.len() as int).reverse(),
        decreases v@.len(),
    {
        let ghost m = v@.len();
        let x = v.pop().unwrap();
        assert(x == olds[m - 1]);
        rev.push(x);
        assert(v@ =~= olds.take(m - 1));
        assert(rev@ =~= olds.skip(m - 1).reverse());
    }
    assert(olds.skip(0) =~= olds);
    rev
}

} // verus!
