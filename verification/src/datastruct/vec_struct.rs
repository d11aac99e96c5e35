//! A growable double-ended array written `Vector<T>`.
//!
//! A vector owns one block of slots and keeps its elements in a window of that
//! block which may wrap around the end. Elements are inserted at the back and
//! removed at either end in constant time; when the block is full, the next
//! insertion moves the elements to a block of twice the size.
//!
//! The elements of a vector `v` in front-to-back order, and its capacity, are
//! its view `v@`; [`VectorView`] says how each operation changes it.
//!
//! The block belongs to the vector alone. It is released when the vector is
//! dropped, together with the elements that were never removed.
use crate::datastruct::vec_model::{grown_capacity, is_capacity, VectorView, INITIAL_CAPACITY};
use vstd::prelude::*;

verus! {

/// Slot of the element at logical position `i` in a window that starts at slot
/// `front` of a block of `capacity` slots.
pub open spec fn slot_of(front: int, i: int, capacity: int) -> int {
    (front + i) % capacity
}

/// Number of steps from slot `front` forward to slot `p`, walking around the
/// end of a block of `capacity` slots.
pub open spec fn offset_of(front: int, p: int, capacity: int) -> int {
    (p - front) % capacity
}

/// Without the modulus: a window position lies at most one turn past the end
/// of the block.
pub broadcast proof fn lemma_slot_of(front: int, i: int, capacity: int)
    requires
        0 <= front < capacity,
        -1 <= i <= capacity,
    ensures
        #[trigger] slot_of(front, i, capacity) == if front + i < 0 {
            front + i + capacity
        } else if front + i < capacity {
            front + i
        } else {
            front + i - capacity
        },
{
    let x = front + i;
    if x < 0 {
        vstd::arithmetic::div_mod::lemma_fundamental_div_mod_converse(x, capacity, -1, x + capacity);
    } else if x < capacity {
        vstd::arithmetic::div_mod::lemma_fundamental_div_mod_converse(x, capacity, 0, x);
    } else {
        vstd::arithmetic::div_mod::lemma_fundamental_div_mod_converse(x, capacity, 1, x - capacity);
    }
}

/// Without the modulus: a slot before `front` is reached by wrapping around.
pub broadcast proof fn lemma_offset_of(front: int, p: int, capacity: int)
    requires
        0 <= front < capacity,
        0 <= p < capacity,
    ensures
        #[trigger] offset_of(front, p, capacity) == if p < front {
            p - front + capacity
        } else {
            p - front
        },
{
    let x = p - front;
    if x < 0 {
        vstd::arithmetic::div_mod::lemma_fundamental_div_mod_converse(x, capacity, -1, x + capacity);
    } else {
        vstd::arithmetic::div_mod::lemma_fundamental_div_mod_converse(x, capacity, 0, x);
    }
}

/// The slot `steps` steps after `front`, computed without leaving the range
/// of `usize`.
fn advance(front: usize, steps: usize, capacity: usize) -> (slot: usize)
    requires
        front < capacity,
        steps <= capacity,
    ensures
        slot == slot_of(front as int, steps as int, capacity as int),
        slot < capacity,
{
    broadcast use lemma_slot_of;

    if steps < capacity - front {
        front + steps
    } else {
        steps - (capacity - front)
    }
}

/// The block that growth builds: the elements at the start of the block, in
/// logical order, and every other slot empty.
pub open spec fn linear_block<T>(items: Seq<T>, capacity: nat) -> Seq<Option<T>> {
    Seq::new(
        capacity,
        |p: int|
            if p < items.len() {
                Some(items[p])
            } else {
                None
            },
    )
}

/// Moves what the slots `start..end` of `source` hold to the end of `target`,
/// in order, and leaves those slots empty.
fn move_segment<T>(
    source: &mut Vec<Option<T>>,
    start: usize,
    end: usize,
    target: &mut Vec<Option<T>>,
)
    requires
        start <= end <= old(source).len(),
    ensures
        final(target)@ == old(target)@ + old(source)@.subrange(start as int, end as int),
        final(source)@.len() == old(source)@.len(),
        forall|p: int|
            0 <= p < old(source)@.len() ==> #[trigger] final(source)@[p] == if start <= p < end {
                None
            } else {
                old(source)@[p]
            },
{
    let mut p: usize = start;
    while p < end
        invariant
            start <= p <= end <= source@.len(),
            source@.len() == old(source)@.len(),
            target@ == old(target)@ + old(source)@.subrange(start as int, p as int),
            forall|q: int|
                0 <= q < source@.len() ==> #[trigger] source@[q] == if start <= q < p {
                    None
                } else {
                    old(source)@[q]
                },
        decreases end - p,
    {
        let item = source[p].take();
        target.push(item);
        p += 1;
    }
}

/// Appends empty slots to `block` until it has `capacity` of them.
fn pad_block<T>(block: &mut Vec<Option<T>>, capacity: usize)
    requires
        old(block).len() <= capacity,
    ensures
        final(block)@.len() == capacity,
        forall|p: int|
            0 <= p < capacity ==> #[trigger] final(block)@[p] == if p < old(block)@.len() {
                old(block)@[p]
            } else {
                None
            },
{
    while block.len() < capacity
        invariant
            old(block)@.len() <= block@.len() <= capacity,
            forall|p: int|
                0 <= p < block@.len() ==> #[trigger] block@[p] == if p < old(block)@.len() {
                    old(block)@[p]
                } else {
                    None
                },
        decreases capacity - block@.len(),
    {
        block.push(None);
    }
}

pub struct Vector<T> {
    /// The block: one entry for each slot, `None` where no element lives.
    slots: Vec<Option<T>>,
    /// Slot of the oldest element.
    front: Option<usize>,
    /// Slot of the newest element.
    back: Option<usize>,
    length: usize,
}

impl<T> View for Vector<T> {
    type V = VectorView<T>;

    /// The elements from front to back, and the capacity.
    open spec fn view(&self) -> VectorView<T> {
        VectorView { items: self.items(), capacity: self.spec_capacity() as nat }
    }
}

impl<T> Vector<T> {
    /// What each slot of the block holds.
    pub closed spec fn slots(&self) -> Seq<Option<T>> {
        self.slots@
    }

    /// Slot of the oldest element, as the vector records it.
    pub closed spec fn front_index(&self) -> Option<usize> {
        self.front
    }

    /// Slot of the newest element, as the vector records it.
    pub closed spec fn back_index(&self) -> Option<usize> {
        self.back
    }

    pub closed spec fn spec_len(&self) -> usize {
        self.length
    }

    pub closed spec fn spec_capacity(&self) -> usize {
        self.slots.len()
    }

    pub closed spec fn spec_is_empty(&self) -> bool {
        self.length == 0
    }

    /// Slot at which the window starts; slot 0 while no front is recorded.
    pub open spec fn front_slot(&self) -> int {
        match self.front_index() {
            Some(front) => front as int,
            None => 0,
        }
    }

    /// The live elements in logical order: position `i` is read from the slot
    /// `i` steps after the front, modulo the capacity.
    pub open spec fn items(&self) -> Seq<T> {
        Seq::new(
            self.spec_len() as nat,
            |i: int| self.slots()[slot_of(self.front_slot(), i, self.slots().len() as int)].unwrap(),
        )
    }

    /// The invariant of the representation.
    ///
    /// The capacity is one that growth can reach and bounds the length. Front
    /// and back are recorded together, and only an empty vector records none.
    /// Walking from the front for `length` slots, around the end of the block,
    /// ends at the back and visits exactly the slots that hold an element.
    pub open spec fn wf(&self) -> bool {
        let capacity = self.slots().len() as int;
        let length = self.spec_len() as int;
        &&& capacity == self.spec_capacity()
        &&& self.spec_is_empty() == (length == 0)
        &&& is_capacity(capacity as nat)
        &&& length <= capacity
        &&& match self.front_index() {
            None => {
                &&& self.back_index() is None
                &&& length == 0
                &&& forall|p: int| 0 <= p < capacity ==> (#[trigger] self.slots()[p]) is None
            },
            Some(front) => {
                &&& front < capacity
                &&& self.back_index() == Some(slot_of(front as int, length - 1, capacity) as usize)
                &&& forall|p: int|
                    0 <= p < capacity ==> ((#[trigger] self.slots()[p]) is Some <==> offset_of(
                        front as int,
                        p,
                        capacity,
                    ) < length)
            },
        }
    }

    /// An empty vector. It owns no block until the first insertion.
    pub fn new() -> (v: Self)
        ensures
            v.wf(),
            v@ == VectorView::<T>::empty(),
            v.front_index() is None,
            v.back_index() is None,
    {
        let v = Vector { slots: Vec::new(), front: None, back: None, length: 0 };
        assert(v@.items =~= Seq::<T>::empty());
        v
    }

    /// Number of live elements.
    #[verifier::when_used_as_spec(spec_len)]
    pub fn len(&self) -> (n: usize)
        ensures
            n == self.spec_len(),
            n == self@.items.len(),
    {
        return self.length;
    }

    /// Number of slots of the block, live or not.
    #[verifier::when_used_as_spec(spec_capacity)]
    pub fn capacity(&self) -> (n: usize)
        ensures
            n == self.spec_capacity(),
            n == self@.capacity,
    {
        return self.slots.len();
    }

    /// Whether the vector holds no element.
    #[verifier::when_used_as_spec(spec_is_empty)]
    pub fn is_empty(&self) -> (b: bool)
        ensures
            b == self.spec_is_empty(),
            b == (self@.items.len() == 0),
    {
        return self.length == 0;
    }

    /// Where `push_back(element)` puts the element, and where it leaves the
    /// cursors; `after` is the vector that the call leaves behind.
    ///
    /// A full block is replaced by a linear one: the front is slot 0 and the
    /// element is in slot `len`. Else the block is kept and the element is in
    /// the slot after the back, or in slot 0 if no back is recorded; the
    /// front stays, and becomes slot 0 if none is recorded.
    pub open spec fn placed(&self, after: Self, element: T) -> bool {
        if self@.is_full() {
            &&& after.front_index() == Some(0usize)
            &&& after.back_index() == Some(self.spec_len())
            &&& after.slots() == linear_block(after@.items, after@.capacity)
        } else {
            let next = match self.back_index() {
                Some(back) => slot_of(back as int, 1, self.spec_capacity() as int),
                None => 0,
            };
            &&& after.front_index() == Some(self.front_slot() as usize)
            &&& after.back_index() == Some(next as usize)
            &&& after.slots() == self.slots().update(next, Some(element))
        }
    }

    /// Inserts `element` behind the newest element.
    ///
    /// While the block has a free slot, the element is written to the slot
    /// after the back, around the end of the block, or to slot 0 if no back is
    /// recorded. A vector without a block allocates one of
    /// `INITIAL_CAPACITY` slots. A full block is replaced by one of twice the
    /// size: the window is copied to its start, from the front to the end of
    /// the old block and then from slot 0 up to the front, and the element is
    /// written behind it.
    ///
    /// The element type must have a size, and the doubled capacity must fit
    /// in `usize`.
    pub fn push_back(&mut self, element: T)
        requires
            old(self).wf(),
            vstd::layout::size_of::<T>() != 0,
            old(self)@.is_full() ==> grown_capacity(old(self)@.capacity) <= usize::MAX,
        ensures
            final(self).wf(),
            final(self)@ == old(self)@.push_back(element),
            final(self).len() == old(self).len() + 1,
            old(self).placed(*final(self), element),
    {
        let capacity = self.slots.len();
        if capacity == 0 {
            let mut block: Vec<Option<T>> = Vec::with_capacity(INITIAL_CAPACITY);
            block.push(Some(element));
            pad_block(&mut block, INITIAL_CAPACITY);
            self.slots = block;
            self.front = Some(0);
            self.back = Some(0);
            self.length += 1;
            proof {
                Self::lemma_moved_to_new_block(*old(self), *self, element);
            }
        } else if self.length < capacity {
            let next_index = match self.back {
                Some(back) => advance(back, 1, capacity),
                None => 0,
            };
            self.slots[next_index] = Some(element);
            if let None = self.front {
                self.front = Some(0);
            }
            self.back = Some(next_index);
            self.length += 1;
            proof {
                Self::lemma_written_in_place(*old(self), *self, element);
            }
        } else {
            let new_capacity = capacity * 2;
            // A full block always records its front.
            if let Some(front) = self.front {
                let mut block: Vec<Option<T>> = Vec::with_capacity(new_capacity);
                if front == 0 {
                    move_segment(&mut self.slots, 0, capacity, &mut block);
                } else {
                    move_segment(&mut self.slots, front, capacity, &mut block);
                    move_segment(&mut self.slots, 0, front, &mut block);
                }
                block.push(Some(element));
                pad_block(&mut block, new_capacity);
                self.slots = block;
                self.front = Some(0);
                self.back = Some(self.length);
                self.length += 1;
                proof {
                    Self::lemma_moved_to_new_block(*old(self), *self, element);
                }
            }
        }
    }

    /// `push_back` for a caller that cannot tell beforehand whether the
    /// insertion is possible: it inserts `element` if the element type has a
    /// size and the capacity that the insertion needs fits in `usize`, and
    /// else hands `element` back and leaves the vector as it is.
    pub fn try_push_back(&mut self, element: T) -> (r: Result<(), T>)
        requires
            old(self).wf(),
        ensures
            final(self).wf(),
            r is Ok <==> vstd::layout::size_of::<T>() != 0 && (old(self)@.is_full()
                ==> grown_capacity(old(self)@.capacity) <= usize::MAX),
            match r {
                Ok(_) => {
                    &&& final(self)@ == old(self)@.push_back(element)
                    &&& final(self).len() == old(self).len() + 1
                    &&& old(self).placed(*final(self), element)
                },
                Err(rejected) => rejected == element && *final(self) == *old(self),
            },
    {
        let capacity = self.slots.len();
        if core::mem::size_of::<T>() != 0 && (self.length < capacity || capacity <= usize::MAX
            / 2) {
            self.push_back(element);
            Ok(())
        } else {
            Err(element)
        }
    }

    /// The window of a full vector, read slot by slot from the front to the
    /// end of the block and then from slot 0 up to the front, is the sequence
    /// of its elements.
    proof fn lemma_window_of_full(self)
        requires
            self.wf(),
            self.spec_len() == self.spec_capacity(),
        ensures
            self.slots().subrange(self.front_slot(), self.spec_capacity() as int)
                + self.slots().subrange(0, self.front_slot()) == self@.items.map_values(
                |x: T| Some(x),
            ),
    {
        broadcast use {lemma_slot_of, lemma_offset_of};
    }

    /// What `push_back` leaves behind when it had to allocate.
    proof fn lemma_moved_to_new_block(before: Self, after: Self, element: T)
        requires
            before.wf(),
            before.spec_len() == before.spec_capacity(),
            grown_capacity(before.spec_capacity() as nat) <= usize::MAX,
            after.slots().len() == grown_capacity(before.spec_capacity() as nat),
            after.spec_capacity() == after.slots().len(),
            forall|p: int|
                0 <= p < after.slots().len() ==> #[trigger] after.slots()[p] == if p
                    < before.spec_len() {
                    (before.slots().subrange(before.front_slot(), before.spec_capacity() as int)
                        + before.slots().subrange(0, before.front_slot()))[p]
                } else if p == before.spec_len() {
                    Some(element)
                } else {
                    None
                },
            after.front_index() == Some(0usize),
            after.back_index() == Some(before.spec_len()),
            after.spec_len() == before.spec_len() + 1,
            after.spec_is_empty() == false,
        ensures
            after.wf(),
            after@ == before@.push_back(element),
            after.slots() == linear_block(after@.items, after@.capacity),
    {
        broadcast use {lemma_slot_of, lemma_offset_of};

        before.lemma_window_of_full();
        assert(after@.items =~= before@.items.push(element));
    }

    /// What `push_back` leaves behind when the block had a free slot.
    proof fn lemma_written_in_place(before: Self, after: Self, element: T)
        requires
            before.wf(),
            before.spec_len() < before.spec_capacity(),
            after.slots() == before.slots().update(
                match before.back_index() {
                    Some(back) => slot_of(back as int, 1, before.spec_capacity() as int),
                    None => 0,
                },
                Some(element),
            ),
            after.spec_capacity() == before.spec_capacity(),
            after.front_index() == Some(before.front_slot() as usize),
            after.back_index() == Some(
                match before.back_index() {
                    Some(back) => slot_of(back as int, 1, before.spec_capacity() as int),
                    None => 0,
                } as usize,
            ),
            after.spec_len() == before.spec_len() + 1,
            after.spec_is_empty() == false,
        ensures
            after.wf(),
            after@ == before@.push_back(element),
    {
        broadcast use {lemma_slot_of, lemma_offset_of};

        assert(after@.items =~= before@.items.push(element));
    }

    /// Removes the oldest element and returns it; `None` if there is none.
    ///
    /// The front moves one slot forward, around the end of the block. The
    /// cursors stay recorded when the last element leaves: the back is then
    /// the slot before the front, and the next insertion lands on the front.
    pub fn pop_front(&mut self) -> (r: Option<T>)
        requires
            old(self).wf(),
        ensures
            final(self).wf(),
            r == old(self)@.pop_front().0,
            final(self)@ == old(self)@.pop_front().1,
            final(self).len() == final(self)@.len(),
            old(self).len() == 0 ==> *final(self) == *old(self),
            old(self).len() > 0 ==> {
                let front = old(self).front_slot();
                &&& final(self).front_index() == Some(
                    slot_of(front, 1, old(self).capacity() as int) as usize,
                )
                &&& final(self).back_index() == old(self).back_index()
                &&& final(self).slots() == old(self).slots().update(front, None)
            },
    {
        broadcast use {lemma_slot_of, lemma_offset_of};

        if self.length > 0 {
            match self.front {
                Some(front) => {
                    let item = self.slots[front].take();
                    self.front = Some(advance(front, 1, self.slots.len()));
                    self.length -= 1;
                    proof {
                        assert(self@.items =~= old(self)@.items.drop_first());
                    }
                    return item;
                },
                None => return None,
            }
        } else {
            return None;
        }
    }

    /// Removes the newest element and returns it; `None` if there is none.
    ///
    /// The back moves one slot backward, from slot 0 to the last slot of the
    /// block. When the last element leaves, front and back are forgotten.
    pub fn pop_back(&mut self) -> (r: Option<T>)
        requires
            old(self).wf(),
        ensures
            final(self).wf(),
            r == old(self)@.pop_back().0,
            final(self)@ == old(self)@.pop_back().1,
            final(self).len() == final(self)@.len(),
            old(self).len() == 0 ==> *final(self) == *old(self),
            old(self).len() == 1 ==> {
                &&& final(self).front_index() is None
                &&& final(self).back_index() is None
            },
            old(self).len() > 1 ==> {
                let back = old(self).back_index().unwrap() as int;
                &&& final(self).front_index() == old(self).front_index()
                &&& final(self).back_index() == Some(
                    slot_of(back, -1, old(self).capacity() as int) as usize,
                )
            },
            old(self).len() > 0 ==> final(self).slots() == old(self).slots().update(
                old(self).back_index().unwrap() as int,
                None,
            ),
    {
        broadcast use {lemma_slot_of, lemma_offset_of};

        if self.length > 0 {
            match self.back {
                Some(back) => {
                    let item = self.slots[back].take();
                    if back > 0 {
                        self.back = Some(back - 1);
                    } else {
                        self.back = Some(self.slots.len() - 1);
                    }
                    self.length -= 1;
                    if self.length == 0 {
                        self.front = None;
                        self.back = None;
                    }
                    proof {
                        assert(self@.items =~= old(self)@.items.drop_last());
                    }
                    return item;
                },
                None => return None,
            }
        } else {
            return None;
        }
    }

    /// The element at logical position `index`, read from the slot `index`
    /// steps after the front; `None` if `index` is not below the length.
    pub fn get(&self, index: usize) -> (r: Option<&T>)
        requires
            self.wf(),
        ensures
            match r {
                Some(element) => self@.get(index as int) == Some(*element),
                None => self@.get(index as int) is None,
            },
    {
        broadcast use {lemma_slot_of, lemma_offset_of};

        if self.length > 0 && index < self.length {
            if let Some(front) = self.front {
                let slot = advance(front, index, self.slots.len());
                return self.slots[slot].as_ref();
            } else {
                return None;
            }
        } else {
            return None;
        }
    }
}

impl<T> vstd::std_specs::core::IndexSpecImpl<usize> for Vector<T> {
    /// `v[index]` is for positions below the length only.
    open spec fn index_req(&self, index: &usize) -> bool {
        self.wf() && *index < self.len()
    }
}

impl<T> core::ops::Index<usize> for Vector<T> {
    type Output = T;

    /// The element at logical position `index`, found as `get` finds it.
    fn index(&self, index: usize) -> (element: &T)
        ensures
            *element == self@.items[index as int],
    {
        self.get(index).expect("Out of bounds access")
    }
}

} // verus!
