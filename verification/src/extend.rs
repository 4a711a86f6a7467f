//! Building and extending vectors from other sequences of elements.
use crate::buffer::Buffer;
use crate::layout::reserved_capacity;
use crate::std_wrappers::lower_size_hint;
use crate::vec::EcoVec;
use vstd::prelude::*;
use vstd::std_specs::iter::IteratorSpec;

verus! {

/// The capacity of a vector after the `count` elements of an iterator were added
/// whose announced minimum was `hint`.
pub open spec fn extended_capacity<T>(
    shared: bool,
    len: nat,
    capacity: nat,
    hint: nat,
    count: nat,
) -> nat {
    if hint > 0 {
        let own = crate::vec::detached_capacity::<T>(shared, len, capacity);
        crate::layout::pushed::<T>(len, crate::layout::reserved::<T>(len, own, hint), count)
    } else if count > 0 {
        crate::layout::pushed::<T>(
            len + 1,
            crate::vec::roomy_capacity::<T>(shared, len, capacity),
            (count - 1) as nat,
        )
    } else {
        capacity
    }
}

/// Whether room for the announced minimum `hint` can be reserved.
pub open spec fn can_announce<T>(shared: bool, len: nat, capacity: nat, hint: nat) -> bool {
    hint > 0 ==> crate::layout::can_reserve::<T>(
        len,
        crate::vec::detached_capacity::<T>(shared, len, capacity),
        hint,
    )
}

/// How many of the `count` elements of an iterator can be added whose announced
/// minimum was `hint`: none if room for the announced ones is beyond the limit on
/// allocations, otherwise all up to the first for which no room can be made.
pub open spec fn extendable<T>(
    shared: bool,
    len: nat,
    capacity: nat,
    hint: nat,
    count: nat,
) -> nat {
    if !can_announce::<T>(shared, len, capacity, hint) {
        0
    } else if hint > 0 {
        let own = crate::vec::detached_capacity::<T>(shared, len, capacity);
        crate::layout::pushable::<T>(len, crate::layout::reserved::<T>(len, own, hint), count)
    } else if count > 0 && crate::layout::can_reserve::<T>(len, capacity, 1) {
        1 + crate::layout::pushable::<T>(
            len + 1,
            crate::vec::roomy_capacity::<T>(shared, len, capacity),
            (count - 1) as nat,
        )
    } else {
        0
    }
}

/// What holds of a vector `before` and the vector `after` that it was extended to,
/// whatever came of the iterator whose announced minimum was `hint`: `own` are the
/// elements once the vector is detached, and those that were added stand behind
/// them. `done` is unset if room for the announced elements is beyond the limit on
/// allocations, and then nothing was added, or if there is no room for another.
pub open spec fn extends<T: Clone>(
    shared: bool,
    own: Seq<T>,
    before: EcoVec<T>,
    hint: nat,
    after: EcoVec<T>,
    done: bool,
) -> bool {
    let len = before@.len();
    let capacity = before.spec_capacity();
    if hint == 0 && after@.len() == len {
        &&& !shared
        &&& own == before@
        &&& after == before
        &&& !done ==> !crate::layout::can_reserve::<T>(len, capacity, 1)
    } else {
        &&& crate::vec::detaches(shared, before, own)
        &&& own.is_prefix_of(after@)
        &&& if can_announce::<T>(shared, len, capacity, hint) {
            &&& after.spec_capacity() == extended_capacity::<T>(
                shared,
                len,
                capacity,
                hint,
                (after@.len() - len) as nat,
            )
            &&& !done ==> !crate::layout::can_reserve::<T>(after@.len(), after.spec_capacity(), 1)
        } else {
            &&& !done
            &&& after@ == own
            &&& after.spec_capacity() == crate::vec::detached_capacity::<T>(shared, len, capacity)
        }
    }
}

/// How extending the vector `before` by `items`, of which `hint` were announced, makes
/// the vector `after`, where `own` are its elements once it is detached. `done` tells
/// whether there was room for what was announced and for all that came.
pub open spec fn extension<T: Clone>(
    shared: bool,
    own: Seq<T>,
    before: EcoVec<T>,
    hint: nat,
    items: Seq<T>,
    after: EcoVec<T>,
    done: bool,
) -> bool {
    let len = before@.len();
    let capacity = before.spec_capacity();
    let count = extendable::<T>(shared, len, capacity, hint, items.len());
    &&& extends(shared, own, before, hint, after, done)
    &&& done == (can_announce::<T>(shared, len, capacity, hint) && count == items.len())
    &&& after@ == own + items.take(count as int)
}

/// Whether `Iterator::size_hint`, called on `iter`, may give `hint` as the number of
/// elements that come at least.
pub closed spec fn announces<I: Iterator>(iter: I, hint: usize) -> bool {
    call_ensures(lower_size_hint::<I>, (&iter,), hint)
}

/// Extending asks `Iterator::size_hint` how many elements come at least.
pub(crate) proof fn law_extending_asks_for_the_number<I: Iterator>(iter: I, hint: usize)
    requires
        announces(iter, hint),
    ensures
        call_ensures(lower_size_hint::<I>, (&iter,), hint),
{
}

impl<T: Clone> EcoVec<T> {
    /// A vector with clones of the elements of a slice.
    pub fn from_slice(slice: &[T]) -> (r: Self)
        requires
            crate::layout::can_collect::<T>(slice@.len()),
        ensures
            r.wf(),
            crate::buffer::all_cloned(slice@, r@),
            r.spec_capacity() == crate::layout::collected::<T>(slice@.len()),
    {
        EcoVec::from_buffer(Buffer::from_slice(slice))
    }

    /// A vector with the elements of a standard vector.
    pub fn from_vec(vec: Vec<T>) -> (r: Self)
        requires
            crate::layout::can_collect::<T>(vec@.len()),
        ensures
            r.wf(),
            r@ == vec@,
            r.spec_capacity() == crate::layout::collected::<T>(vec@.len()),
    {
        EcoVec::from_buffer(Buffer::from_vec(vec))
    }

    /// Adds the elements of an iterator, after reserving room for the `hint` that
    /// it will yield at least.
    ///
    /// Adds nothing if room for the announced elements is beyond the limit on
    /// allocations, and otherwise stops at the first element for which no room can
    /// be made. Returns `false` in both cases. Clones the elements if the buffer is
    /// shared, unless nothing is announced and nothing is added.
    ///
    /// The contract names the elements that are added where the iterator keeps to
    /// the laws of iterators.
    pub fn extend_with_hint<I: Iterator<Item = T>>(&mut self, iter: I, hint: usize) -> (r: bool)
        requires
            old(self).wf(),
        ensures
            final(self).wf(),
            exists|shared: bool, own: Seq<T>|
                {
                    &&& #[trigger] extends(shared, own, *old(self), hint as nat, *final(self), r)
                    &&& iter.obeys_prophetic_iter_laws() ==> extension(
                        shared,
                        own,
                        *old(self),
                        hint as nat,
                        iter.remaining(),
                        *final(self),
                        r,
                    )
                },
    {
        let ghost len = self@.len();
        let ghost capacity = self.spec_capacity();
        let mut rest = iter;
        if hint > 0 {
            let buf = self.make_unique();
            let ghost own = buf@;
            let ghost shared = choose|shared: bool|
                {
                    &&& #[trigger] crate::vec::detaches(shared, *old(self), own)
                    &&& buf.spec_capacity() == crate::vec::detached_capacity::<T>(
                        shared,
                        len,
                        capacity,
                    )
                };
            let mut done: bool = false;
            if reserved_capacity::<T>(buf.len(), buf.capacity(), hint).is_some() {
                buf.reserve(hint);
                done = buf.extend(rest);
            }
            assert(extends(shared, own, *old(self), hint as nat, *self, done));
            assert(iter.obeys_prophetic_iter_laws() ==> extension(
                shared,
                own,
                *old(self),
                hint as nat,
                iter.remaining(),
                *self,
                done,
            ));
            return done;
        }
        if let Some(first) = rest.next() {
            if reserved_capacity::<T>(self.len(), self.capacity(), 1).is_some() {
                let buf = self.make_room();
                let ghost own = buf@;
                let ghost shared = choose|shared: bool|
                    {
                        &&& #[trigger] crate::vec::detaches(shared, *old(self), own)
                        &&& buf.spec_capacity() == crate::vec::roomy_capacity::<T>(
                            shared,
                            len,
                            capacity,
                        )
                    };
                buf.push(first);
                let done: bool = buf.extend(rest);
                assert(own == own.push(first).take(own.len() as int));
                assert(extends(shared, own, *old(self), hint as nat, *self, done));
                assert(iter.obeys_prophetic_iter_laws() ==> extension(
                    shared,
                    own,
                    *old(self),
                    hint as nat,
                    iter.remaining(),
                    *self,
                    done,
                )) by {
                    assert forall|items: Seq<T>|
                        items.len() > 0 && items[0] == first && #[trigger] crate::buffer::appended(
                            own.push(first),
                            crate::vec::roomy_capacity::<T>(shared, len, capacity),
                            items.drop_first(),
                            self@,
                            self.spec_capacity(),
                            done,
                        ) implies extension(
                        shared,
                        own,
                        *old(self),
                        hint as nat,
                        items,
                        *self,
                        done,
                    ) by {
                        lemma_extension(shared, own, *old(self), items, *self, done);
                    }
                }
                return done;
            }
            assert(extends(false, self@, *old(self), hint as nat, *self, false));
            assert(iter.obeys_prophetic_iter_laws() ==> extension(
                false,
                self@,
                *old(self),
                hint as nat,
                iter.remaining(),
                *self,
                false,
            ));
            return false;
        }
        assert(extends(false, self@, *old(self), hint as nat, *self, true));
        assert(iter.obeys_prophetic_iter_laws() ==> extension(
            false,
            self@,
            *old(self),
            hint as nat,
            iter.remaining(),
            *self,
            true,
        ));
        true
    }

    /// Adds the elements of an iterator, after reserving room for what it says it
    /// will yield at least.
    ///
    /// Returns `false` if room for that many, or for one of the elements, is beyond
    /// the limit on allocations, as [`EcoVec::extend_with_hint`] does. What an
    /// iterator says of its length is its own affair, so the contract speaks of the
    /// number that it gives.
    pub fn extend<I: Iterator<Item = T>>(&mut self, iter: I) -> (r: bool)
        requires
            old(self).wf(),
        ensures
            final(self).wf(),
            exists|hint: usize, shared: bool, own: Seq<T>|
                {
                    &&& announces(iter, hint)
                    &&& #[trigger] extends(shared, own, *old(self), hint as nat, *final(self), r)
                    &&& iter.obeys_prophetic_iter_laws() ==> extension(
                        shared,
                        own,
                        *old(self),
                        hint as nat,
                        iter.remaining(),
                        *final(self),
                        r,
                    )
                },
    {
        let hint: usize = lower_size_hint(&iter);
        self.extend_with_hint(iter, hint)
    }

    /// A vector with the elements of an iterator, or `None` if room for what the
    /// iterator says it will yield at least, or for one of the elements, is beyond
    /// the limit on allocations.
    pub fn from_iter<I: Iterator<Item = T>>(iter: I) -> (r: Option<Self>)
        ensures
            exists|hint: usize|
                {
                    &&& #[trigger] announces(iter, hint)
                    &&& r matches Some(vec) ==> {
                        &&& vec.wf()
                        &&& can_announce::<T>(false, 0, 0, hint as nat)
                        &&& vec.spec_capacity() == extended_capacity::<T>(
                            false,
                            0,
                            0,
                            hint as nat,
                            vec@.len(),
                        )
                    }
                    &&& iter.obeys_prophetic_iter_laws() ==> {
                        &&& r is Some == (can_announce::<T>(false, 0, 0, hint as nat)
                            && extendable::<T>(false, 0, 0, hint as nat, iter.remaining().len())
                            == iter.remaining().len())
                        &&& r matches Some(vec) ==> vec@ == iter.remaining()
                    }
                },
    {
        let mut vec = EcoVec::new();
        let done: bool = vec.extend(iter);
        assert(forall|shared: bool, hint: usize| #[trigger]
            can_announce::<T>(shared, 0, 0, hint as nat) == can_announce::<T>(
                false,
                0,
                0,
                hint as nat,
            ));
        assert(Seq::<T>::empty() + iter.remaining() == iter.remaining());
        if done {
            Some(vec)
        } else {
            None
        }
    }
}

/// Extending by items of which none was announced is adding the first of them to
/// the detached vector and then the others.
proof fn lemma_extension<T: Clone>(
    shared: bool,
    own: Seq<T>,
    before: EcoVec<T>,
    items: Seq<T>,
    after: EcoVec<T>,
    done: bool,
)
    requires
        items.len() > 0,
        crate::layout::can_reserve::<T>(before@.len(), before.spec_capacity(), 1),
        extends(shared, own, before, 0, after, done),
        crate::buffer::appended(
            own.push(items[0]),
            crate::vec::roomy_capacity::<T>(shared, before@.len(), before.spec_capacity()),
            items.drop_first(),
            after@,
            after.spec_capacity(),
            done,
        ),
    ensures
        extension(shared, own, before, 0, items, after, done),
{
    let roomy = crate::vec::roomy_capacity::<T>(shared, before@.len(), before.spec_capacity());
    let count = crate::layout::pushable::<T>(own.len() + 1, roomy, (items.len() - 1) as nat);
    crate::layout::lemma_pushable::<T>(own.len() + 1, roomy, (items.len() - 1) as nat);
    let all = (count + 1) as int;
    assert(own.push(items[0]) + items.drop_first().take(count as int) == own + items.take(all));
}

} // verus!
