//! The storage behind a vector, seen by the one vector that owns it.
use crate::layout::{grown_capacity, max, min_cap, reserved_capacity};
use crate::std_wrappers::vec_reserve_exact;
use crate::visit::{Visit, Visitor};
use vstd::prelude::*;
use vstd::std_specs::iter::IteratorSpec;

verus! {

/// Elements, and the number of them that there is room for.
///
/// The capacity is part of the value: it changes only where an operation says so,
/// and by the rules in [`crate::layout`].
pub struct Buffer<T> {
    data: Vec<T>,
    capacity: usize,
}

impl<T> View for Buffer<T> {
    type V = Seq<T>;

    closed spec fn view(&self) -> Seq<T> {
        self.data@
    }
}

/// Each element of `after` is what cloning the element of `before` at its place
/// returned.
pub open spec fn all_cloned<T: Clone>(before: Seq<T>, after: Seq<T>) -> bool {
    &&& after.len() == before.len()
    &&& forall|i: int|
        #![trigger after[i]]
        0 <= i < before.len() ==> vstd::pervasive::strictly_cloned::<T>(before[i], after[i])
}

/// Whether `Vec::reserve_exact`, called on `vec` for `additional` more elements, may
/// leave it as it is in the end.
pub closed spec fn requests<T>(vec: &mut Vec<T>, additional: usize) -> bool {
    call_ensures(vec_reserve_exact::<T>, (vec, additional), ())
}

/// The elements of `s` whose flag in `keep` is set, in their order.
pub open spec fn kept<T>(s: Seq<T>, keep: Seq<bool>) -> Seq<T>
    recommends
        keep.len() == s.len(),
    decreases s.len(),
{
    if s.len() == 0 {
        Seq::empty()
    } else {
        let rest = kept(s.drop_last(), keep.drop_last());
        if keep.last() {
            rest.push(s.last())
        } else {
            rest
        }
    }
}

/// What adding `items` one by one makes of the elements `before`, within the given
/// capacity: `after` has those of the items for which room can be made, and `done`
/// tells whether that is all of them.
pub open spec fn appended<T>(
    before: Seq<T>,
    capacity: nat,
    items: Seq<T>,
    after: Seq<T>,
    new_capacity: nat,
    done: bool,
) -> bool {
    let count = crate::layout::pushable::<T>(before.len(), capacity, items.len());
    &&& after == before + items.take(count as int)
    &&& new_capacity == crate::layout::pushed::<T>(before.len(), capacity, count)
    &&& done == (count == items.len())
}

/// Adding elements is adding the first of them and then the others.
proof fn lemma_grown_by<T>(
    before: Seq<T>,
    capacity: nat,
    first: T,
    after: Seq<T>,
    new_capacity: nat,
    done: bool,
)
    requires
        crate::layout::can_reserve::<T>(before.len(), capacity, 1),
        grown_by(
            before.push(first),
            crate::layout::reserved::<T>(before.len(), capacity, 1),
            after,
            new_capacity,
            done,
        ),
    ensures
        grown_by(before, capacity, after, new_capacity, done),
{
    assert(before == before.push(first).take(before.len() as int));
}

/// Adding items is adding the first of them and then the others.
proof fn lemma_appended<T>(
    before: Seq<T>,
    capacity: nat,
    items: Seq<T>,
    after: Seq<T>,
    new_capacity: nat,
    done: bool,
)
    requires
        items.len() > 0,
        crate::layout::can_reserve::<T>(before.len(), capacity, 1),
        appended(
            before.push(items[0]),
            crate::layout::reserved::<T>(before.len(), capacity, 1),
            items.drop_first(),
            after,
            new_capacity,
            done,
        ),
    ensures
        appended(before, capacity, items, after, new_capacity, done),
{
    let grown = crate::layout::reserved::<T>(before.len(), capacity, 1);
    let count = crate::layout::pushable::<T>(before.len() + 1, grown, (items.len() - 1) as nat);
    crate::layout::lemma_pushable::<T>(before.len() + 1, grown, (items.len() - 1) as nat);
    let all = (count + 1) as int;
    assert(before.push(items[0]) + items.drop_first().take(count as int) == before + items.take(
        all,
    ));
}

/// What holds of elements that were added one by one, whichever and however many
/// they were: they stand behind the elements `before`, the capacity has grown by the
/// rules, and `done` is unset only if there is no room for another.
pub open spec fn grown_by<T>(
    before: Seq<T>,
    capacity: nat,
    after: Seq<T>,
    new_capacity: nat,
    done: bool,
) -> bool {
    let count = (after.len() - before.len()) as nat;
    &&& before.is_prefix_of(after)
    &&& crate::layout::can_push::<T>(before.len(), capacity, count)
    &&& new_capacity == crate::layout::pushed::<T>(before.len(), capacity, count)
    &&& !done ==> !crate::layout::can_reserve::<T>(after.len(), new_capacity, 1)
}

/// Whether `i` is the position of an element of `s`.
pub open spec fn is_index<T>(s: Seq<T>, i: int) -> bool {
    0 <= i < s.len()
}

impl<T> Buffer<T> {
    /// How many elements there is room for.
    pub closed spec fn spec_capacity(&self) -> nat {
        self.capacity as nat
    }

    /// The vector that holds the elements.
    pub closed spec fn store(&self) -> Vec<T> {
        self.data
    }

    /// The elements fit into the capacity, and the capacity into an allocation.
    pub open spec fn wf(&self) -> bool {
        crate::layout::valid_capacity::<T>(self@.len(), self.spec_capacity())
    }

    /// A buffer without elements and without room for any.
    pub fn new() -> (r: Self)
        ensures
            r.wf(),
            r@ == Seq::<T>::empty(),
            r.spec_capacity() == 0,
    {
        Buffer { data: Vec::new(), capacity: 0 }
    }

    /// A buffer with the given elements. Its capacity does not depend on what `vec`
    /// had allocated.
    pub fn from_vec(vec: Vec<T>) -> (r: Self)
        requires
            crate::layout::can_collect::<T>(vec@.len()),
        ensures
            r.wf(),
            r@ == vec@,
            r.spec_capacity() == crate::layout::collected::<T>(vec@.len()),
            vec@.len() > 0 ==> exists|given: &mut Vec<T>, room: usize|
                {
                    &&& *given == vec
                    &&& *final(given) == r.store()
                    &&& room == r.spec_capacity() - vec@.len()
                    &&& #[trigger] requests(given, room)
                },
    {
        assert(forall|given: &mut Vec<T>, room: usize| #[trigger]
            call_ensures(vec_reserve_exact::<T>, (given, room), ()) ==> requests(given, room));
        let mut r = Buffer { data: vec, capacity: 0 };
        let len: usize = r.data.len();
        if len > 0 {
            let capacity: usize = grown_capacity::<T>(max(len, min_cap::<T>()));
            proof {
                let size = vstd::layout::size_of::<T>();
                assert(size * capacity == capacity * size) by (nonlinear_arith);
            }
            vec_reserve_exact(&mut r.data, capacity - len);
            r.capacity = capacity;
        }
        r
    }

    /// The number of elements.
    pub fn len(&self) -> (r: usize)
        ensures
            r == self@.len(),
    {
        self.data.len()
    }

    /// How many elements there is room for.
    pub fn capacity(&self) -> (r: usize)
        ensures
            r == self.spec_capacity(),
    {
        self.capacity
    }

    /// The elements.
    pub fn as_slice(&self) -> (r: &[T])
        ensures
            r@ == self@,
    {
        self.data.as_slice()
    }

    /// The elements, for modification in place.
    pub fn as_mut_slice(&mut self) -> (r: &mut [T])
        ensures
            r@ == old(self)@,
            final(self)@ == final(r)@,
            final(self).spec_capacity() == old(self).spec_capacity(),
    {
        self.data.as_mut_slice()
    }

    /// Makes room for `target` elements in all.
    pub fn grow(&mut self, target: usize)
        requires
            old(self).wf(),
            target > old(self).spec_capacity(),
            crate::layout::can_grow::<T>(target as nat),
        ensures
            final(self).wf(),
            final(self)@ == old(self)@,
            final(self).spec_capacity() == crate::layout::grown::<T>(target as nat),
            exists|vec: &mut Vec<T>, additional: usize|
                {
                    &&& *vec == old(self).store()
                    &&& *final(vec) == final(self).store()
                    &&& additional == final(self).spec_capacity() - old(self)@.len()
                    &&& #[trigger] requests(vec, additional)
                },
    {
        assert(forall|vec: &mut Vec<T>, additional: usize| #[trigger]
            call_ensures(vec_reserve_exact::<T>, (vec, additional), ()) ==> requests(
                vec,
                additional,
            ));
        let capacity: usize = grown_capacity::<T>(target);
        proof {
            let size = vstd::layout::size_of::<T>();
            assert(size * capacity == capacity * size) by (nonlinear_arith);
        }
        let additional: usize = capacity - self.data.len();
        vec_reserve_exact(&mut self.data, additional);
        self.capacity = capacity;
    }

    /// Reserves room for at least `additional` more elements.
    pub fn reserve(&mut self, additional: usize)
        requires
            old(self).wf(),
            crate::layout::can_reserve::<T>(
                old(self)@.len(),
                old(self).spec_capacity(),
                additional as nat,
            ),
        ensures
            final(self).wf(),
            final(self)@ == old(self)@,
            final(self).spec_capacity() == crate::layout::reserved::<T>(
                old(self)@.len(),
                old(self).spec_capacity(),
                additional as nat,
            ),
            final(self).spec_capacity() != old(self).spec_capacity() ==> exists|
                vec: &mut Vec<T>,
                room: usize,
            |
                {
                    &&& *vec == old(self).store()
                    &&& *final(vec) == final(self).store()
                    &&& room == final(self).spec_capacity() - old(self)@.len()
                    &&& #[trigger] requests(vec, room)
                },
    {
        let len: usize = self.len();
        let capacity: usize = self.capacity();
        if additional > capacity - len {
            // At least what is asked for, at least double the capacity so that
            // growth is exponential, and at least a minimum so that small vectors
            // do not reallocate often.
            let target: usize = max(max(len + additional, 2 * capacity), min_cap::<T>());
            self.grow(target);
        }
    }

    /// Makes room for one more element in a buffer that was detached from a vector.
    ///
    /// `full` tells whether that vector had no room left. If it had some, then only
    /// a copy that was cut to its elements is short of room, and it gets the
    /// capacity of a vector that was collected with the additional element.
    pub fn make_room(&mut self, full: bool)
        requires
            old(self).wf(),
            full ==> crate::layout::can_reserve::<T>(
                old(self)@.len(),
                old(self).spec_capacity(),
                1,
            ),
            !full ==> crate::layout::can_collect::<T>(old(self)@.len() + 1),
        ensures
            final(self).wf(),
            final(self)@ == old(self)@,
            final(self)@.len() < final(self).spec_capacity(),
            final(self).spec_capacity() == (if full {
                crate::layout::reserved::<T>(old(self)@.len(), old(self).spec_capacity(), 1)
            } else if old(self)@.len() == old(self).spec_capacity() {
                crate::layout::collected::<T>(old(self)@.len() + 1)
            } else {
                old(self).spec_capacity()
            }),
            final(self).spec_capacity() != old(self).spec_capacity() ==> exists|
                vec: &mut Vec<T>,
                room: usize,
            |
                {
                    &&& *vec == old(self).store()
                    &&& *final(vec) == final(self).store()
                    &&& room == final(self).spec_capacity() - old(self)@.len()
                    &&& #[trigger] requests(vec, room)
                },
    {
        if full {
            self.reserve(1);
        } else if self.len() == self.capacity() {
            let target: usize = max(self.len() + 1, min_cap::<T>());
            self.grow(target);
        }
    }

    /// Adds an element at the end, where there is room for it.
    pub fn push(&mut self, value: T)
        requires
            old(self).wf(),
            old(self)@.len() < old(self).spec_capacity(),
        ensures
            final(self).wf(),
            final(self)@ == old(self)@.push(value),
            final(self).spec_capacity() == old(self).spec_capacity(),
    {
        self.data.push(value);
    }

    /// Adds the elements that `iter` yields, one by one, up to the first `None`. Stops
    /// at the first element for which no room can be made, and returns whether there
    /// was none such.
    ///
    /// The contract names the elements where the iterator keeps to the laws of
    /// iterators.
    pub fn extend<I: Iterator<Item = T>>(&mut self, iter: I) -> (r: bool)
        requires
            old(self).wf(),
        ensures
            final(self).wf(),
            grown_by(
                old(self)@,
                old(self).spec_capacity(),
                final(self)@,
                final(self).spec_capacity(),
                r,
            ),
            iter.obeys_prophetic_iter_laws() ==> appended(
                old(self)@,
                old(self).spec_capacity(),
                iter.remaining(),
                final(self)@,
                final(self).spec_capacity(),
                r,
            ),
    {
        let mut rest = iter;
        loop
            invariant
                self.wf(),
                forall|after: Seq<T>, capacity: nat, done: bool| #[trigger]
                    grown_by(self@, self.spec_capacity(), after, capacity, done) ==> grown_by(
                        old(self)@,
                        old(self).spec_capacity(),
                        after,
                        capacity,
                        done,
                    ),
                iter.obeys_prophetic_iter_laws() ==> rest.obeys_prophetic_iter_laws(),
                iter.obeys_prophetic_iter_laws() ==> forall|
                    after: Seq<T>,
                    capacity: nat,
                    done: bool,
                | #[trigger]
                    appended(self@, self.spec_capacity(), rest.remaining(), after, capacity, done)
                        ==> appended(
                        old(self)@,
                        old(self).spec_capacity(),
                        iter.remaining(),
                        after,
                        capacity,
                        done,
                    ),
            decreases isize::MAX - self@.len(),
        {
            let ghost left = rest;
            let ghost before = *self;
            match rest.next() {
                Some(value) => {
                    if reserved_capacity::<T>(self.len(), self.capacity(), 1).is_none() {
                        assert(grown_by(
                            self@,
                            self.spec_capacity(),
                            self@,
                            self.spec_capacity(),
                            false,
                        ));
                        assert(iter.obeys_prophetic_iter_laws() ==> appended(
                            self@,
                            self.spec_capacity(),
                            left.remaining(),
                            self@,
                            self.spec_capacity(),
                            false,
                        ));
                        return false;
                    }
                    self.reserve(1);
                    self.push(value);
                    assert forall|after: Seq<T>, capacity: nat, done: bool| #[trigger]
                        grown_by(self@, self.spec_capacity(), after, capacity, done)
                        implies grown_by(
                        before@,
                        before.spec_capacity(),
                        after,
                        capacity,
                        done,
                    ) by {
                        lemma_grown_by(
                            before@,
                            before.spec_capacity(),
                            value,
                            after,
                            capacity,
                            done,
                        );
                    }
                    assert forall|after: Seq<T>, capacity: nat, done: bool|
                        iter.obeys_prophetic_iter_laws() && #[trigger] appended(
                            self@,
                            self.spec_capacity(),
                            rest.remaining(),
                            after,
                            capacity,
                            done,
                        ) implies appended(
                        before@,
                        before.spec_capacity(),
                        left.remaining(),
                        after,
                        capacity,
                        done,
                    ) by {
                        lemma_appended(
                            before@,
                            before.spec_capacity(),
                            left.remaining(),
                            after,
                            capacity,
                            done,
                        );
                    }
                },
                None => {
                    assert(grown_by(
                        self@,
                        self.spec_capacity(),
                        self@,
                        self.spec_capacity(),
                        true,
                    ));
                    assert(iter.obeys_prophetic_iter_laws() ==> appended(
                        self@,
                        self.spec_capacity(),
                        left.remaining(),
                        self@,
                        self.spec_capacity(),
                        true,
                    ));
                    return true;
                },
            }
        }
    }

    /// Removes the last element and returns it, or `None` if there is none.
    pub fn pop(&mut self) -> (r: Option<T>)
        requires
            old(self).wf(),
        ensures
            final(self).wf(),
            final(self).spec_capacity() == old(self).spec_capacity(),
            old(self)@.len() == 0 ==> r is None && final(self)@ == old(self)@,
            old(self)@.len() > 0 ==> r == Some(old(self)@.last()) && final(self)@ == old(
                self,
            )@.drop_last(),
    {
        self.data.pop()
    }

    /// Inserts an element, where there is room for it, and shifts those behind it.
    pub fn insert(&mut self, index: usize, value: T)
        requires
            old(self).wf(),
            old(self)@.len() < old(self).spec_capacity(),
            index <= old(self)@.len(),
        ensures
            final(self).wf(),
            final(self)@ == old(self)@.insert(index as int, value),
            final(self).spec_capacity() == old(self).spec_capacity(),
    {
        self.data.insert(index, value);
    }

    /// Removes an element, returns it, and shifts those behind it.
    pub fn remove(&mut self, index: usize) -> (r: T)
        requires
            old(self).wf(),
            index < old(self)@.len(),
        ensures
            final(self).wf(),
            r == old(self)@[index as int],
            final(self)@ == old(self)@.remove(index as int),
            final(self).spec_capacity() == old(self).spec_capacity(),
    {
        self.data.remove(index)
    }

    /// Keeps the first `target` elements and drops the rest.
    pub fn truncate(&mut self, target: usize)
        requires
            old(self).wf(),
            target <= old(self)@.len(),
        ensures
            final(self).wf(),
            final(self)@ == old(self)@.take(target as int),
            final(self).spec_capacity() == old(self).spec_capacity(),
    {
        self.data.truncate(target);
    }

    /// Drops all elements.
    pub fn clear(&mut self)
        requires
            old(self).wf(),
        ensures
            final(self).wf(),
            final(self)@ == Seq::<T>::empty(),
            final(self).spec_capacity() == old(self).spec_capacity(),
    {
        self.data.clear();
    }

    /// Passes each element to `f`, which may change it, and keeps those for which
    /// `f` returns `true`.
    ///
    /// The calls are those that [`Buffer::retain_by`] makes: one for each element, in
    /// the order of the elements.
    pub fn retain<F>(&mut self, f: F) where F: FnMut(&mut T) -> bool
        requires
            old(self).wf(),
            forall|x: &mut T|
                old(self)@.contains(*x) ==> #[trigger] call_requires(f, (x,)),
        ensures
            final(self).wf(),
            final(self).spec_capacity() == old(self).spec_capacity(),
            exists|changed: Seq<T>, keep: Seq<bool>|
                {
                    &&& changed.len() == old(self)@.len()
                    &&& keep.len() == old(self)@.len()
                    &&& forall|i: int| #[trigger]
                        is_index(changed, i) ==> exists|x: &mut T|
                            {
                                &&& *x == old(self)@[i]
                                &&& *final(x) == changed[i]
                                &&& #[trigger] call_ensures(f, (x,), keep[i])
                            }
                    &&& final(self)@ == #[trigger] kept(changed, keep)
                },
            exists|buf: &mut Buffer<T>, visitor: &mut Visitor<T, F>|
                {
                    &&& *buf == *old(self)
                    &&& *final(buf) == *final(self)
                    &&& visitor.closure() == f
                    &&& visitor.visits() == Seq::<Visit<T>>::empty()
                    &&& #[trigger] call_ensures(Buffer::<T>::retain_by::<F>, (buf, visitor), ())
                },
    {
        let mut visitor = Visitor::new(f);
        self.retain_by(&mut visitor);
        proof {
            let visits = visitor.visits();
            let changed = visits.map_values(|visit: Visit<T>| visit.left);
            let keep = visits.map_values(|visit: Visit<T>| visit.answer);
            assert forall|i: int| #[trigger] is_index(changed, i) implies exists|x: &mut T|
                {
                    &&& *x == old(self)@[i]
                    &&& *final(x) == changed[i]
                    &&& #[trigger] call_ensures(f, (x,), keep[i])
                } by {
                assert(is_index(visits, i));
                assert(keep[i] == visits[i].answer);
            }
        }
    }

    /// Passes each element to the closure of `visitor`, which may change it, and keeps
    /// those for which the closure returns `true`.
    ///
    /// The closure is called once for each element, in the order of the elements.
    pub fn retain_by<F>(&mut self, visitor: &mut Visitor<T, F>) where F: FnMut(&mut T) -> bool
        requires
            old(self).wf(),
            old(visitor).visits() == Seq::<Visit<T>>::empty(),
            forall|x: &mut T|
                old(self)@.contains(*x) ==> #[trigger] call_requires(old(visitor).closure(), (x,)),
        ensures
            final(self).wf(),
            final(self).spec_capacity() == old(self).spec_capacity(),
            final(visitor).closure() == old(visitor).closure(),
            final(visitor).visits().len() == old(self)@.len(),
            forall|i: int|
                0 <= i < old(self)@.len() ==> (#[trigger] final(visitor).visits()[i]).given == old(
                    self,
                )@[i],
            forall|i: int| #[trigger]
                is_index(final(visitor).visits(), i) ==> exists|x: &mut T|
                    {
                        &&& *x == old(self)@[i]
                        &&& *final(x) == final(visitor).visits()[i].left
                        &&& #[trigger] call_ensures(
                            old(visitor).closure(),
                            (x,),
                            final(visitor).visits()[i].answer,
                        )
                    },
            final(self)@ == kept(
                final(visitor).visits().map_values(|visit: Visit<T>| visit.left),
                final(visitor).visits().map_values(|visit: Visit<T>| visit.answer),
            ),
    {
        let len: usize = self.data.len();
        let mut i: usize = 0;
        let mut del: usize = 0;
        while i < len
            invariant
                del <= i <= len,
                self.data@.len() == len,
                len == old(self)@.len(),
                self.capacity == old(self).capacity,
                visitor.closure() == old(visitor).closure(),
                forall|x: &mut T|
                    old(self)@.contains(*x) ==> #[trigger] call_requires(
                        old(visitor).closure(),
                        (x,),
                    ),
                forall|j: int| i <= j < len ==> self.data@[j] == old(self)@[j],
                visitor.visits().len() == i,
                forall|j: int|
                    0 <= j < i ==> (#[trigger] visitor.visits()[j]).given == old(self)@[j],
                forall|j: int| #[trigger]
                    is_index(visitor.visits(), j) ==> exists|x: &mut T|
                        {
                            &&& *x == old(self)@[j]
                            &&& *final(x) == visitor.visits()[j].left
                            &&& #[trigger] call_ensures(
                                old(visitor).closure(),
                                (x,),
                                visitor.visits()[j].answer,
                            )
                        },
                self.data@.take(i - del) == kept(
                    visitor.visits().map_values(|visit: Visit<T>| visit.left),
                    visitor.visits().map_values(|visit: Visit<T>| visit.answer),
                ),
            decreases len - i,
        {
            assert(self.data@[i as int] == old(self)@[i as int]);
            let ghost before = visitor.visits();
            let stays: bool = visitor.visit(&mut self.data[i]);
            let ghost value = self.data@[i as int];
            proof {
                let visits = visitor.visits();
                let changed = visits.map_values(|visit: Visit<T>| visit.left);
                let keep = visits.map_values(|visit: Visit<T>| visit.answer);
                assert(changed.drop_last() == before.map_values(|visit: Visit<T>| visit.left));
                assert(keep.drop_last() == before.map_values(|visit: Visit<T>| visit.answer));
                assert forall|j: int| #[trigger] is_index(visits, j) implies exists|x: &mut T|
                    {
                        &&& *x == old(self)@[j]
                        &&& *final(x) == visits[j].left
                        &&& #[trigger] call_ensures(
                            old(visitor).closure(),
                            (x,),
                            visits[j].answer,
                        )
                    } by {
                    if j < i {
                        assert(is_index(before, j));
                        assert(visits[j] == before[j]);
                    } else {
                        assert(visits[j].answer == stays);
                    }
                }
            }
            if !stays {
                del += 1;
            } else if del > 0 {
                swap(self.data.as_mut_slice(), i - del, i);
            }
            i += 1;
            assert(stays ==> self.data@.take(i - del) == self.data@.take(i - del - 1).push(value));
        }
        self.data.truncate(len - del);
    }
}

impl<T: Clone> Buffer<T> {
    /// A buffer with clones of the given elements.
    pub fn from_slice(slice: &[T]) -> (r: Self)
        ensures
            all_cloned(slice@, r@),
            r.spec_capacity() == crate::layout::collected::<T>(slice@.len()),
            crate::layout::can_collect::<T>(slice@.len()) ==> r.wf(),
    {
        let len: usize = slice.len();
        if len == 0 {
            return Buffer::new();
        }
        let target: usize = max(len, min_cap::<T>());
        let mut data: Vec<T> = Vec::with_capacity(target);
        let mut i: usize = 0;
        while i < len
            invariant
                i <= len,
                len == slice@.len(),
                data@.len() == i,
                forall|j: int|
                    #![trigger data@[j]]
                    0 <= j < i ==> vstd::pervasive::strictly_cloned::<T>(slice@[j], data@[j]),
            decreases len - i,
        {
            data.push(slice[i].clone());
            i += 1;
        }
        Buffer { data, capacity: grown_capacity::<T>(target) }
    }
}

impl<T: Clone> Clone for Buffer<T> {
    /// A copy that is cut to its elements: it has the capacity of a buffer into
    /// which they were collected.
    fn clone(&self) -> (r: Self)
        ensures
            all_cloned(self@, r@),
            r.spec_capacity() == crate::layout::collected::<T>(self@.len()),
            self.wf() ==> r.wf(),
    {
        proof {
            if self.wf() {
                crate::layout::lemma_can_collect::<T>(self@.len(), self.spec_capacity());
            }
        }
        Buffer::from_slice(self.data.as_slice())
    }
}

/// Growing asks `Vec::reserve_exact` for the room.
pub(crate) proof fn law_growing_asks_for_room<T>(vec: &mut Vec<T>, additional: usize)
    requires
        requests(vec, additional),
    ensures
        call_ensures(vec_reserve_exact::<T>, (vec, additional), ()),
{
}

/// Exchanges two elements of a slice.
fn swap<T>(values: &mut [T], a: usize, b: usize)
    requires
        a < b < old(values)@.len(),
    ensures
        final(values)@ == old(values)@.update(a as int, old(values)@[b as int]).update(
            b as int,
            old(values)@[a as int],
        ),
{
    let (left, right) = values.split_at_mut(b);
    std::mem::swap(&mut left[a], &mut right[0]);
}

} // verus!
