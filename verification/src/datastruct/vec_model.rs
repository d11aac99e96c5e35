//! The abstract state of a [`Vector`](crate::datastruct::vec_struct::Vector)
//! and the rules by which the operations change it.
//!
//! Seen from outside, a vector is a sequence of elements in front-to-back
//! order together with a capacity. Every operation of the container is stated
//! as a function on this pair; the physical placement of the elements in the
//! ring is described in `vec_struct`.
use vstd::prelude::*;

verus! {

/// Number of slots that the first insertion allocates.
pub const INITIAL_CAPACITY: usize = 4;

/// The capacities a vector can have: none at all, or the initial capacity
/// doubled any number of times.
pub open spec fn is_capacity(c: nat) -> bool
    decreases c,
{
    c == 0 || c == INITIAL_CAPACITY || (c > INITIAL_CAPACITY && c % 2 == 0 && is_capacity(c / 2))
}

/// Capacity of the block that replaces a full block of `capacity` slots.
pub open spec fn grown_capacity(capacity: nat) -> nat {
    if capacity == 0 {
        INITIAL_CAPACITY as nat
    } else {
        2 * capacity
    }
}

/// `c` is the smallest capacity a vector can have that holds `n` elements.
pub open spec fn is_least_capacity(c: nat, n: nat) -> bool {
    &&& is_capacity(c)
    &&& n <= c
    &&& forall|d: nat| is_capacity(d) && n <= d ==> c <= d
}

/// What a vector is to its user: the live elements from front to back, and
/// the number of slots of the block that holds them.
pub struct VectorView<T> {
    pub items: Seq<T>,
    pub capacity: nat,
}

/// A call that changes a vector.
pub enum Operation<T> {
    PushBack(T),
    PopFront,
    PopBack,
}

impl<T> VectorView<T> {
    /// The elements fit into the block, and the block has a capacity that
    /// growth can reach.
    pub open spec fn wf(self) -> bool {
        &&& self.items.len() <= self.capacity
        &&& is_capacity(self.capacity)
    }

    /// The state of a new vector: no element and no block.
    pub open spec fn empty() -> Self {
        VectorView { items: Seq::empty(), capacity: 0 }
    }

    pub open spec fn len(self) -> nat {
        self.items.len()
    }

    /// Every slot of the block is taken, so the next insertion has to grow.
    pub open spec fn is_full(self) -> bool {
        self.items.len() >= self.capacity
    }

    /// State after `push_back(x)`: `x` follows the other elements, and the
    /// capacity changes only if the block was full.
    pub open spec fn push_back(self, x: T) -> Self {
        VectorView {
            items: self.items.push(x),
            capacity: if self.is_full() {
                grown_capacity(self.capacity)
            } else {
                self.capacity
            },
        }
    }

    /// Result and state after `pop_front()`.
    pub open spec fn pop_front(self) -> (Option<T>, Self) {
        if self.items.len() == 0 {
            (None, self)
        } else {
            (
                Some(self.items.first()),
                VectorView { items: self.items.drop_first(), capacity: self.capacity },
            )
        }
    }

    /// Result and state after `pop_back()`.
    pub open spec fn pop_back(self) -> (Option<T>, Self) {
        if self.items.len() == 0 {
            (None, self)
        } else {
            (
                Some(self.items.last()),
                VectorView { items: self.items.drop_last(), capacity: self.capacity },
            )
        }
    }

    /// Result of `get(i)`: the element at logical position `i`, if there is one.
    pub open spec fn get(self, i: int) -> Option<T> {
        if 0 <= i < self.items.len() {
            Some(self.items[i])
        } else {
            None
        }
    }

    /// State after the call `operation`.
    pub open spec fn apply(self, operation: Operation<T>) -> Self {
        match operation {
            Operation::PushBack(x) => self.push_back(x),
            Operation::PopFront => self.pop_front().1,
            Operation::PopBack => self.pop_back().1,
        }
    }

    /// State after the calls `operations`, made in this order.
    pub open spec fn apply_all(self, operations: Seq<Operation<T>>) -> Self
        decreases operations.len(),
    {
        if operations.len() == 0 {
            self
        } else {
            self.apply_all(operations.drop_last()).apply(operations.last())
        }
    }

    /// State after pushing the elements of `xs` onto the back, first to last.
    pub open spec fn push_back_all(self, xs: Seq<T>) -> Self
        decreases xs.len(),
    {
        if xs.len() == 0 {
            self
        } else {
            self.push_back_all(xs.drop_last()).push_back(xs.last())
        }
    }

    /// Results of `n` calls of `pop_front()` in the order of the calls, and
    /// the state after them.
    pub open spec fn pop_front_n(self, n: nat) -> (Seq<Option<T>>, Self)
        decreases n,
    {
        if n == 0 {
            (Seq::empty(), self)
        } else {
            let (results, before) = self.pop_front_n((n - 1) as nat);
            let (result, after) = before.pop_front();
            (results.push(result), after)
        }
    }

    /// Results of `n` calls of `pop_back()` in the order of the calls, and
    /// the state after them.
    pub open spec fn pop_back_n(self, n: nat) -> (Seq<Option<T>>, Self)
        decreases n,
    {
        if n == 0 {
            (Seq::empty(), self)
        } else {
            let (results, before) = self.pop_back_n((n - 1) as nat);
            let (result, after) = before.pop_back();
            (results.push(result), after)
        }
    }
}

} // verus!
