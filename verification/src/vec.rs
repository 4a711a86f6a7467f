//! A vector that is cheap to clone: clones share one buffer until one of them is
//! changed.
use crate::buffer::Buffer;
use crate::std_wrappers::{arc_get_mut, arc_make_mut};
use std::sync::Arc;
use vstd::prelude::*;

verus! {

/// An economical vector with clone-on-write semantics.
///
/// It has the size of one word, and so has an `Option` of it.
///
/// A method that changes the vector first detaches it: if other vectors share its
/// buffer, then it gets a buffer of its own with clones of the elements. Whether
/// that is so depends on which other vectors are alive and is found by the reference
/// count, so the contracts of these methods speak of both cases, and of what asking
/// the reference count may give.
pub struct EcoVec<T> {
    buf: Arc<Buffer<T>>,
}

impl<T> View for EcoVec<T> {
    type V = Seq<T>;

    closed spec fn view(&self) -> Seq<T> {
        self.buf@
    }
}

/// How the elements `before` of a vector relate to its elements `after` it was
/// detached. `shared` tells whether its buffer was shared: then each element is
/// replaced by a clone, otherwise all stay as they are.
pub open spec fn detached<T: Clone>(shared: bool, before: Seq<T>, after: Seq<T>) -> bool {
    if shared {
        crate::buffer::all_cloned(before, after)
    } else {
        after == before
    }
}

/// The capacity of a vector after it was detached. A copy is cut to its elements:
/// it has the capacity of a vector into which they were collected.
pub open spec fn detached_capacity<T>(shared: bool, len: nat, capacity: nat) -> nat {
    if shared {
        crate::layout::collected::<T>(len)
    } else {
        capacity
    }
}

/// Whether detaching `vec` may leave it with the elements `own`: they relate to those
/// that it had, and they are what `Arc::make_mut` may hand out for its buffer.
pub open spec fn detaches<T: Clone>(shared: bool, vec: EcoVec<T>, own: Seq<T>) -> bool {
    &&& detached(shared, vec@, own)
    &&& hands_out(vec, own, detached_capacity::<T>(shared, vec@.len(), vec.spec_capacity()))
}

/// Whether `Arc::make_mut`, called on the buffer of `vec`, may hand out a buffer with
/// the elements `own` and the given capacity.
pub closed spec fn hands_out<T: Clone>(vec: EcoVec<T>, own: Seq<T>, capacity: nat) -> bool {
    exists|this: &mut Arc<Buffer<T>>, buf: &mut Buffer<T>|
        {
            &&& *this == vec.buf
            &&& buf@ == own
            &&& buf.spec_capacity() == capacity
            &&& #[trigger] call_ensures(arc_make_mut::<Buffer<T>>, (this,), buf)
        }
}

/// Whether `Arc::get_mut`, called on the buffer of `vec`, may find it shared, or not
/// shared.
pub closed spec fn finds<T>(vec: EcoVec<T>, shared: bool) -> bool {
    exists|this: &mut Arc<Buffer<T>>, buf: Option<&mut Buffer<T>>|
        {
            &&& *this == vec.buf
            &&& buf is None == shared
            &&& #[trigger] call_ensures(arc_get_mut::<Buffer<T>>, (this,), buf)
        }
}

/// The capacity of a vector after it was detached and room was made for one more
/// element.
pub open spec fn roomy_capacity<T>(shared: bool, len: nat, capacity: nat) -> nat {
    let own = detached_capacity::<T>(shared, len, capacity);
    if len == capacity {
        crate::layout::reserved::<T>(len, own, 1)
    } else if len == own {
        crate::layout::collected::<T>(len + 1)
    } else {
        own
    }
}

/// What `clear` makes of a vector: one without elements stays as it is, and one
/// that shares its buffer leaves it to the other vectors.
pub open spec fn after_clear<T>(before: EcoVec<T>, after: EcoVec<T>) -> bool {
    if before@.len() == 0 {
        after == before
    } else {
        &&& after@ == Seq::<T>::empty()
        &&& exists|shared: bool|
            {
                &&& #[trigger] finds(before, shared)
                &&& after.spec_capacity() == cleared_capacity(shared, before.spec_capacity())
            }
    }
}

/// The capacity that `clear` leaves.
pub open spec fn cleared_capacity(shared: bool, capacity: nat) -> nat {
    if shared {
        0
    } else {
        capacity
    }
}

/// What `push` makes of a vector.
pub open spec fn after_push<T: Clone>(before: EcoVec<T>, value: T, after: EcoVec<T>) -> bool {
    exists|shared: bool, own: Seq<T>|
        {
            &&& #[trigger] detaches(shared, before, own)
            &&& after@ == own.push(value)
            &&& after.spec_capacity() == roomy_capacity::<T>(
                shared,
                before@.len(),
                before.spec_capacity(),
            )
        }
}

/// What `pop` returns and makes of a vector: one without elements stays as it is.
pub open spec fn after_pop<T: Clone>(before: EcoVec<T>, r: Option<T>, after: EcoVec<T>) -> bool {
    if before@.len() == 0 {
        r is None && after == before
    } else {
        exists|shared: bool, own: Seq<T>|
            {
                &&& #[trigger] detaches(shared, before, own)
                &&& r == Some(own.last())
                &&& after@ == own.drop_last()
                &&& after.spec_capacity() == detached_capacity::<T>(
                    shared,
                    before@.len(),
                    before.spec_capacity(),
                )
            }
    }
}

/// What `insert` makes of a vector.
pub open spec fn after_insert<T: Clone>(
    before: EcoVec<T>,
    index: int,
    value: T,
    after: EcoVec<T>,
) -> bool {
    exists|shared: bool, own: Seq<T>|
        {
            &&& #[trigger] detaches(shared, before, own)
            &&& after@ == own.insert(index, value)
            &&& after.spec_capacity() == roomy_capacity::<T>(
                shared,
                before@.len(),
                before.spec_capacity(),
            )
        }
}

/// What `remove` returns and makes of a vector.
pub open spec fn after_remove<T: Clone>(
    before: EcoVec<T>,
    index: int,
    r: T,
    after: EcoVec<T>,
) -> bool {
    exists|shared: bool, own: Seq<T>|
        {
            &&& #[trigger] detaches(shared, before, own)
            &&& r == own[index]
            &&& after@ == own.remove(index)
            &&& after.spec_capacity() == detached_capacity::<T>(
                shared,
                before@.len(),
                before.spec_capacity(),
            )
        }
}

/// What `truncate` makes of a vector: one that is not longer stays as it is.
pub open spec fn after_truncate<T: Clone>(
    before: EcoVec<T>,
    target: int,
    after: EcoVec<T>,
) -> bool {
    if target >= before@.len() {
        after == before
    } else {
        exists|shared: bool, own: Seq<T>|
            {
                &&& #[trigger] detaches(shared, before, own)
                &&& after@ == own.take(target)
                &&& after.spec_capacity() == detached_capacity::<T>(
                    shared,
                    before@.len(),
                    before.spec_capacity(),
                )
            }
    }
}

/// What `reserve` makes of a vector.
pub open spec fn after_reserve<T: Clone>(
    before: EcoVec<T>,
    additional: nat,
    after: EcoVec<T>,
) -> bool {
    exists|shared: bool|
        {
            &&& #[trigger] detaches(shared, before, after@)
            &&& after.spec_capacity() == crate::layout::reserved::<T>(
                before@.len(),
                detached_capacity::<T>(shared, before@.len(), before.spec_capacity()),
                additional,
            )
        }
}

impl<T> EcoVec<T> {
    /// The pointer to the buffer.
    pub closed spec fn store(&self) -> Arc<Buffer<T>> {
        self.buf
    }

    /// How many elements there is room for.
    pub closed spec fn spec_capacity(&self) -> nat {
        self.buf.spec_capacity()
    }

    /// The elements fit into the capacity, and the capacity into an allocation.
    pub open spec fn wf(&self) -> bool {
        crate::layout::valid_capacity::<T>(self@.len(), self.spec_capacity())
    }

    /// A vector that owns the given buffer.
    pub(crate) fn from_buffer(buf: Buffer<T>) -> (r: Self)
        ensures
            r@ == buf@,
            r.spec_capacity() == buf.spec_capacity(),
    {
        EcoVec { buf: Arc::new(buf) }
    }

    /// Create a new, empty vector.
    pub fn new() -> (r: Self)
        ensures
            r.wf(),
            r@ == Seq::<T>::empty(),
            r.spec_capacity() == 0,
    {
        EcoVec::from_buffer(Buffer::new())
    }

    /// Create a new, empty vector with at least the specified capacity.
    pub fn with_capacity(capacity: usize) -> (r: Self)
        requires
            capacity > 0 ==> crate::layout::can_grow::<T>(capacity as nat),
        ensures
            r.wf(),
            r@ == Seq::<T>::empty(),
            r.spec_capacity() == (if capacity > 0 {
                crate::layout::grown::<T>(capacity as nat)
            } else {
                0
            }),
            r.spec_capacity() >= capacity,
    {
        let mut buf = Buffer::new();
        if capacity > 0 {
            buf.grow(capacity);
        }
        EcoVec::from_buffer(buf)
    }

    /// Returns `true` if the vector contains no elements.
    pub fn is_empty(&self) -> (r: bool)
        ensures
            r == (self@.len() == 0),
    {
        self.len() == 0
    }

    /// The number of elements in the vector.
    pub fn len(&self) -> (r: usize)
        ensures
            r == self@.len(),
    {
        self.buf.len()
    }

    /// How many elements the vector has room for.
    ///
    /// Even if `len < capacity`, pushing into the vector may still allocate if its
    /// buffer is shared.
    pub fn capacity(&self) -> (r: usize)
        ensures
            r == self.spec_capacity(),
    {
        self.buf.capacity()
    }

    /// Extracts a slice containing the entire vector.
    pub fn as_slice(&self) -> (r: &[T])
        ensures
            r@ == self@,
    {
        self.buf.as_slice()
    }

    /// Removes all values from the vector.
    ///
    /// A vector that shares its buffer leaves it to the others and has no capacity
    /// left; one that does not keeps its capacity. A vector without elements stays
    /// as it is.
    pub fn clear(&mut self)
        requires
            old(self).wf(),
        ensures
            final(self).wf(),
            after_clear(*old(self), *final(self)),
    {
        if self.is_empty() {
            return;
        }
        match arc_get_mut(&mut self.buf) {
            Some(buf) => {
                assert(finds(*old(self), false));
                buf.clear();
            },
            None => {
                assert(finds(*old(self), true));
                *self = EcoVec::new();
            },
        }
    }
}

impl<T: Clone> EcoVec<T> {
    /// Detaches the vector and hands out the buffer that is now its own.
    pub(crate) fn make_unique(&mut self) -> (buf: &mut Buffer<T>)
        requires
            old(self).wf(),
        ensures
            buf.wf(),
            exists|shared: bool|
                {
                    &&& #[trigger] detaches(shared, *old(self), buf@)
                    &&& buf.spec_capacity() == detached_capacity::<T>(
                        shared,
                        old(self)@.len(),
                        old(self).spec_capacity(),
                    )
                },
            final(self)@ == final(buf)@,
            final(self).spec_capacity() == final(buf).spec_capacity(),
    {
        let buf = arc_make_mut(&mut self.buf);
        assert(detaches(*buf != *old(self).buf, *old(self), buf@));
        buf
    }

    /// Create a new vector with `n` copies of `value`.
    pub fn from_elem(value: T, n: usize) -> (r: Self)
        requires
            n > 0 ==> crate::layout::can_grow::<T>(n as nat),
        ensures
            r.wf(),
            r@.len() == n,
            forall|i: int|
                0 <= i < n ==> vstd::pervasive::strictly_cloned::<T>(value, #[trigger] r@[i]),
            r.spec_capacity() == (if n > 0 {
                crate::layout::grown::<T>(n as nat)
            } else {
                0
            }),
    {
        let mut buf = Buffer::new();
        if n > 0 {
            buf.grow(n);
        }
        let ghost capacity = buf.spec_capacity();
        let mut i: usize = 0;
        while i < n
            invariant
                i <= n,
                buf.wf(),
                buf@.len() == i,
                buf.spec_capacity() == capacity,
                n <= capacity,
                forall|j: int|
                    0 <= j < i ==> vstd::pervasive::strictly_cloned::<T>(value, #[trigger] buf@[j]),
            decreases n - i,
        {
            buf.push(value.clone());
            i += 1;
        }
        EcoVec::from_buffer(buf)
    }

    /// Produce a mutable slice containing the entire vector.
    ///
    /// Clones the elements if the buffer is shared.
    pub fn make_mut(&mut self) -> (r: &mut [T])
        requires
            old(self).wf(),
        ensures
            exists|shared: bool|
                {
                    &&& #[trigger] detaches(shared, *old(self), r@)
                    &&& final(self).spec_capacity() == detached_capacity::<T>(
                        shared,
                        old(self)@.len(),
                        old(self).spec_capacity(),
                    )
                },
            final(self)@ == final(r)@,
            final(r)@.len() == r@.len() ==> final(self).wf(),
    {
        self.make_unique().as_mut_slice()
    }

    /// Add a value at the end of the vector.
    ///
    /// Clones the elements if the buffer is shared.
    pub fn push(&mut self, value: T)
        requires
            old(self).wf(),
            crate::layout::can_reserve::<T>(old(self)@.len(), old(self).spec_capacity(), 1),
        ensures
            final(self).wf(),
            after_push(*old(self), value, *final(self)),
    {
        let buf = self.make_room();
        buf.push(value);
    }

    /// Removes the last element from a vector and returns it, or `None` if the
    /// vector is empty.
    ///
    /// Clones the elements if the buffer is shared.
    pub fn pop(&mut self) -> (r: Option<T>)
        requires
            old(self).wf(),
        ensures
            final(self).wf(),
            after_pop(*old(self), r, *final(self)),
    {
        if self.is_empty() {
            return None;
        }
        self.make_unique().pop()
    }

    /// Inserts an element at position `index` within the vector, shifting all
    /// elements after it to the right.
    ///
    /// Clones the elements if the buffer is shared.
    pub fn insert(&mut self, index: usize, value: T)
        requires
            old(self).wf(),
            index <= old(self)@.len(),
            crate::layout::can_reserve::<T>(old(self)@.len(), old(self).spec_capacity(), 1),
        ensures
            final(self).wf(),
            after_insert(*old(self), index as int, value, *final(self)),
    {
        let buf = self.make_room();
        buf.insert(index, value);
    }

    /// Removes and returns the element at position `index` within the vector,
    /// shifting all elements after it to the left.
    ///
    /// Clones the elements if the buffer is shared.
    pub fn remove(&mut self, index: usize) -> (r: T)
        requires
            old(self).wf(),
            index < old(self)@.len(),
        ensures
            final(self).wf(),
            after_remove(*old(self), index as int, r, *final(self)),
    {
        self.make_unique().remove(index)
    }

    /// Shortens the vector, keeping the first `target` elements and dropping the
    /// rest.
    ///
    /// Clones the elements if the buffer is shared and `target < len`.
    pub fn truncate(&mut self, target: usize)
        requires
            old(self).wf(),
        ensures
            final(self).wf(),
            after_truncate(*old(self), target as int, *final(self)),
    {
        if target >= self.len() {
            return;
        }
        self.make_unique().truncate(target);
    }

    /// Reserve space for at least `additional` more elements.
    ///
    /// Reallocates if the current capacity isn't sufficient or if the buffer is
    /// shared. A shared vector is copied first and may then need to grow where it
    /// would not have to otherwise, so both cases must be within the limit on
    /// allocations.
    pub fn reserve(&mut self, additional: usize)
        requires
            old(self).wf(),
            forall|shared: bool|
                crate::layout::can_reserve::<T>(
                    old(self)@.len(),
                    #[trigger] detached_capacity::<T>(
                        shared,
                        old(self)@.len(),
                        old(self).spec_capacity(),
                    ),
                    additional as nat,
                ),
        ensures
            final(self).wf(),
            after_reserve(*old(self), additional as nat, *final(self)),
            final(self).spec_capacity() - final(self)@.len() >= additional,
    {
        self.make_unique().reserve(additional);
    }

    /// Detaches the vector and makes room for one more element.
    pub(crate) fn make_room(&mut self) -> (buf: &mut Buffer<T>)
        requires
            old(self).wf(),
            crate::layout::can_reserve::<T>(old(self)@.len(), old(self).spec_capacity(), 1),
        ensures
            buf.wf(),
            buf@.len() < buf.spec_capacity(),
            exists|shared: bool|
                {
                    &&& #[trigger] detaches(shared, *old(self), buf@)
                    &&& buf.spec_capacity() == roomy_capacity::<T>(
                        shared,
                        old(self)@.len(),
                        old(self).spec_capacity(),
                    )
                },
            final(self)@ == final(buf)@,
            final(self).spec_capacity() == final(buf).spec_capacity(),
    {
        let full: bool = self.len() == self.capacity();
        proof {
            if !full {
                crate::layout::lemma_can_collect::<T>(self@.len() + 1, self.spec_capacity());
            }
        }
        let buf = self.make_unique();
        buf.make_room(full);
        buf
    }

    /// Retains only the elements for which `f` returns `true`. Each element is
    /// passed to `f` once, in the order of the elements, and `f` may change it.
    ///
    /// Clones the elements if the buffer is shared, even if `f` always returns
    /// `false`.
    pub fn retain<F>(&mut self, f: F) where F: FnMut(&mut T) -> bool
        requires
            old(self).wf(),
            forall|x: &mut T, shared: bool, own: Seq<T>| #[trigger]
                detaches(shared, *old(self), own) && own.contains(*x) ==> #[trigger] call_requires(
                    f,
                    (x,),
                ),
        ensures
            final(self).wf(),
            exists|shared: bool, own: Seq<T>, changed: Seq<T>, keep: Seq<bool>|
                {
                    &&& #[trigger] detaches(shared, *old(self), own)
                    &&& changed.len() == own.len()
                    &&& keep.len() == own.len()
                    &&& forall|i: int| #[trigger]
                        crate::buffer::is_index(changed, i) ==> exists|x: &mut T|
                            {
                                &&& *x == own[i]
                                &&& *final(x) == changed[i]
                                &&& #[trigger] call_ensures(f, (x,), keep[i])
                            }
                    &&& final(self)@ == #[trigger] crate::buffer::kept(changed, keep)
                    &&& final(self).spec_capacity() == detached_capacity::<T>(
                        shared,
                        old(self)@.len(),
                        old(self).spec_capacity(),
                    )
                },
            exists|shared: bool, buf: &mut Buffer<T>|
                {
                    &&& detaches(shared, *old(self), buf@)
                    &&& #[trigger] detached_capacity::<T>(
                        shared,
                        old(self)@.len(),
                        old(self).spec_capacity(),
                    ) == buf.spec_capacity()
                    &&& final(self)@ == final(buf)@
                    &&& final(self).spec_capacity() == final(buf).spec_capacity()
                    &&& #[trigger] call_ensures(Buffer::<T>::retain::<F>, (buf, f), ())
                },
    {
        let buf = self.make_unique();
        buf.retain(f);
    }
}

/// Detaching asks `Arc::make_mut` for the buffer of the vector, and what it hands out is
/// what the vector has from then on.
pub(crate) proof fn law_detaching_asks_for_the_buffer<T: Clone>(
    vec: EcoVec<T>,
    own: Seq<T>,
    capacity: nat,
)
    requires
        hands_out(vec, own, capacity),
    ensures
        exists|this: &mut Arc<Buffer<T>>, buf: &mut Buffer<T>|
            {
                &&& *this == vec.store()
                &&& buf@ == own
                &&& buf.spec_capacity() == capacity
                &&& #[trigger] call_ensures(arc_make_mut::<Buffer<T>>, (this,), buf)
            },
{
}

/// Clearing asks `Arc::get_mut` for the buffer of the vector: it is shared exactly if it is
/// not handed out.
pub(crate) proof fn law_clearing_asks_for_the_buffer<T>(vec: EcoVec<T>, shared: bool)
    requires
        finds(vec, shared),
    ensures
        exists|this: &mut Arc<Buffer<T>>, buf: Option<&mut Buffer<T>>|
            {
                &&& *this == vec.store()
                &&& buf is None == shared
                &&& #[trigger] call_ensures(arc_get_mut::<Buffer<T>>, (this,), buf)
            },
{
}

impl<T: Clone> Clone for EcoVec<T> {
    /// A vector with the same elements and the same capacity, which shares the
    /// buffer.
    fn clone(&self) -> (r: Self)
        ensures
            r == *self,
            r@ == self@,
            r.spec_capacity() == self.spec_capacity(),
    {
        EcoVec { buf: self.buf.clone() }
    }
}

} // verus!
