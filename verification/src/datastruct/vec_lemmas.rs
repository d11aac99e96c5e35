//! What follows from the rules of [`VectorView`] when operations are combined.
//!
//! Each lemma speaks of the abstract state only, so it holds of every
//! `Vector` whose operations are called in the order the lemma names.
use crate::datastruct::vec_model::{
    grown_capacity, is_capacity, is_least_capacity, Operation, VectorView, INITIAL_CAPACITY,
};
use crate::datastruct::vec_struct::Vector;
use vstd::prelude::*;

verus! {

/// The abstract state of a well-formed vector is well-formed.
pub proof fn lemma_view_wf<T>(v: Vector<T>)
    requires
        v.wf(),
    ensures
        v@.wf(),
        v@.len() == v.len(),
        v@.capacity == v.capacity(),
{
}

/// Of two different capacities the larger is at least twice the smaller.
pub proof fn lemma_capacities_double(c: nat, d: nat)
    requires
        is_capacity(c),
        is_capacity(d),
        c < d,
    ensures
        2 * c <= d,
    decreases d,
{
    if d > INITIAL_CAPACITY && c > d / 2 {
        lemma_capacities_double(d / 2, c);
    }
}

/// Every operation keeps the abstract state well-formed.
pub proof fn lemma_operations_keep_wf<T>(v: VectorView<T>, x: T)
    requires
        v.wf(),
    ensures
        VectorView::<T>::empty().wf(),
        v.push_back(x).wf(),
        v.pop_front().1.wf(),
        v.pop_back().1.wf(),
{
}

/// No operation lowers the capacity: removals keep it, and an insertion
/// keeps or raises it.
pub proof fn lemma_capacity_never_shrinks<T>(v: VectorView<T>, x: T)
    ensures
        v.push_back(x).capacity >= v.capacity,
        v.pop_front().1.capacity == v.capacity,
        v.pop_back().1.capacity == v.capacity,
{
}

/// However insertions and removals are interleaved, the state stays
/// well-formed and the capacity is never lower than it was.
pub proof fn lemma_any_interleaving<T>(v: VectorView<T>, operations: Seq<Operation<T>>)
    requires
        v.wf(),
    ensures
        v.apply_all(operations).wf(),
        v.apply_all(operations).capacity >= v.capacity,
    decreases operations.len(),
{
    if operations.len() > 0 {
        lemma_any_interleaving(v, operations.drop_last());
    }
}

/// The capacity is tight for `n` elements: it holds them, and the capacity
/// before the last doubling would not.
spec fn tight(c: nat, n: nat) -> bool {
    &&& is_capacity(c)
    &&& n <= c
    &&& c == 0 ==> n == 0
    &&& c == INITIAL_CAPACITY ==> n >= 1
    &&& c > INITIAL_CAPACITY ==> c / 2 < n
}

proof fn lemma_tight_is_least(c: nat, n: nat)
    requires
        tight(c, n),
    ensures
        is_least_capacity(c, n),
{
    assert forall|d: nat| is_capacity(d) && n <= d implies c <= d by {
        if d < c {
            lemma_capacities_double(d, c);
        }
    }
}

/// Pushing `xs` appends `xs`, whatever the vector held before.
pub proof fn lemma_push_back_all_items<T>(v: VectorView<T>, xs: Seq<T>)
    ensures
        v.push_back_all(xs).items == v.items + xs,
    decreases xs.len(),
{
    if xs.len() > 0 {
        lemma_push_back_all_items(v, xs.drop_last());
    }
}

/// A vector that was only ever pushed to holds the pushed elements in the
/// order of the calls, and its capacity is the smallest of 0, 4, 8, 16, ...
/// that holds them.
pub proof fn lemma_pushes_len_and_capacity<T>(xs: Seq<T>)
    ensures
        VectorView::<T>::empty().push_back_all(xs).items == xs,
        VectorView::<T>::empty().push_back_all(xs).len() == xs.len(),
        is_least_capacity(VectorView::<T>::empty().push_back_all(xs).capacity, xs.len()),
{
    lemma_pushes_tight(xs);
    lemma_tight_is_least(VectorView::<T>::empty().push_back_all(xs).capacity, xs.len());
}

proof fn lemma_pushes_tight<T>(xs: Seq<T>)
    ensures
        VectorView::<T>::empty().push_back_all(xs).items == xs,
        tight(VectorView::<T>::empty().push_back_all(xs).capacity, xs.len()),
    decreases xs.len(),
{
    lemma_push_back_all_items(VectorView::<T>::empty(), xs);
    if xs.len() > 0 {
        lemma_pushes_tight(xs.drop_last());
    }
}

/// `push_back(x)` and then `pop_back()` returns `x` and restores the
/// elements. The capacity is not lowered; it is the one from before the two
/// calls unless the insertion found the block full and grew it.
pub proof fn lemma_push_back_then_pop_back<T>(v: VectorView<T>, x: T)
    ensures
        v.push_back(x).pop_back().0 == Some(x),
        v.push_back(x).pop_back().1.items == v.items,
        v.push_back(x).pop_back().1.len() == v.len(),
        v.push_back(x).pop_back().1.capacity >= v.capacity,
        !v.is_full() ==> v.push_back(x).pop_back().1 == v,
        v.is_full() ==> v.push_back(x).pop_back().1.capacity == grown_capacity(v.capacity),
{
    assert(v.items.push(x).drop_last() =~= v.items);
}

/// `n` calls of `pop_front()` return the first `n` elements in logical
/// order, then `None` for every call past the length, and leave the rest.
pub proof fn lemma_pop_front_n<T>(v: VectorView<T>, n: nat)
    ensures
        v.pop_front_n(n).0 == Seq::new(n, |i: int| v.get(i)),
        v.pop_front_n(n).1.items == v.items.skip(
            if n <= v.len() {
                n as int
            } else {
                v.len() as int
            },
        ),
        v.pop_front_n(n).1.capacity == v.capacity,
    decreases n,
{
    if n > 0 {
        lemma_pop_front_n(v, (n - 1) as nat);
    }
}

/// `n` calls of `pop_back()` return the last `n` elements, newest first,
/// then `None` for every call past the length, and leave the rest.
pub proof fn lemma_pop_back_n<T>(v: VectorView<T>, n: nat)
    ensures
        v.pop_back_n(n).0 == Seq::new(n, |i: int| v.get(v.len() - 1 - i)),
        v.pop_back_n(n).1.items == v.items.take(
            if n <= v.len() {
                v.len() - n
            } else {
                0
            },
        ),
        v.pop_back_n(n).1.capacity == v.capacity,
    decreases n,
{
    if n > 0 {
        lemma_pop_back_n(v, (n - 1) as nat);
    }
}

/// First in, first out: after pushing `xs` onto an empty vector, as many
/// calls of `pop_front()` return the elements of `xs` from first to last
/// and leave the vector empty.
pub proof fn lemma_fifo<T>(xs: Seq<T>)
    ensures
        VectorView::<T>::empty().push_back_all(xs).pop_front_n(xs.len()).0 == xs.map_values(
            |x: T| Some(x),
        ),
        VectorView::<T>::empty().push_back_all(xs).pop_front_n(xs.len()).1.len() == 0,
{
    lemma_pushes_len_and_capacity(xs);
    lemma_pop_front_n(VectorView::<T>::empty().push_back_all(xs), xs.len());
}

/// Last in, first out: after pushing `xs` onto an empty vector, as many
/// calls of `pop_back()` return the elements of `xs` from last to first and
/// leave the vector empty.
pub proof fn lemma_lifo<T>(xs: Seq<T>)
    ensures
        VectorView::<T>::empty().push_back_all(xs).pop_back_n(xs.len()).0
            == xs.reverse().map_values(|x: T| Some(x)),
        VectorView::<T>::empty().push_back_all(xs).pop_back_n(xs.len()).1.len() == 0,
{
    lemma_pushes_len_and_capacity(xs);
    lemma_pop_back_n(VectorView::<T>::empty().push_back_all(xs), xs.len());
}

/// `get` follows the logical order through every operation: an insertion,
/// whether it grows the block or not, adds position `len` and keeps the
/// others; `pop_front` shifts every position down by one; `pop_back` drops
/// the last position.
pub proof fn lemma_get_follows_operations<T>(v: VectorView<T>, x: T, i: int)
    ensures
        v.push_back(x).get(i) == if i == v.len() {
            Some(x)
        } else {
            v.get(i)
        },
        i >= 0 ==> v.pop_front().1.get(i) == v.get(i + 1),
        v.pop_back().1.get(i) == if i == v.len() - 1 {
            None
        } else {
            v.get(i)
        },
{
}

/// Emptying a vector from the back keeps its block, and so does emptying
/// it from the front; the next insertion uses that block and allocates
/// nothing.
pub proof fn lemma_drained_keeps_block<T>(v: VectorView<T>, x: T)
    requires
        v.wf(),
        v.capacity > 0,
    ensures
        v.pop_back_n(v.len()).1.len() == 0,
        v.pop_back_n(v.len()).1.capacity == v.capacity,
        v.pop_back_n(v.len()).1.push_back(x).capacity == v.capacity,
        v.pop_front_n(v.len()).1.len() == 0,
        v.pop_front_n(v.len()).1.capacity == v.capacity,
        v.pop_front_n(v.len()).1.push_back(x).capacity == v.capacity,
{
    lemma_pop_back_n(v, v.len());
    lemma_pop_front_n(v, v.len());
}

} // verus!
