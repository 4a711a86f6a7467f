//! What holds of vectors across several operations.
use crate::vec::EcoVec;
use vstd::prelude::*;

verus! {

/// Whether cloning an element always returns an equal one.
pub open spec fn faithful_clone<T: Clone>() -> bool {
    forall|a: T, b: T| #[trigger] vstd::pervasive::strictly_cloned::<T>(a, b) ==> a == b
}

/// The length of a vector never exceeds its capacity, its capacity never exceeds
/// `isize::MAX`, and neither does the room that its elements take in memory.
pub proof fn law_bounds<T>(vec: EcoVec<T>)
    requires
        vec.wf(),
    ensures
        vec@.len() <= vec.spec_capacity() <= isize::MAX,
        vstd::layout::size_of::<T>() * vec.spec_capacity() <= isize::MAX,
{
    if vec.spec_capacity() == 0 {
        assert(vstd::layout::size_of::<T>() * 0 == 0) by (nonlinear_arith);
    }
}

/// Each element of a block lies in it, behind the header, at a multiple of its
/// alignment.
pub proof fn law_elements_in_place<T>(capacity: nat, i: nat)
    requires
        i < capacity,
    ensures
        crate::layout::spec_header_size() <= crate::layout::spec_offset::<T>(),
        (crate::layout::spec_offset::<T>() + vstd::layout::size_of::<T>() * i)
            % vstd::layout::align_of::<T>() == 0,
        crate::layout::spec_offset::<T>() + vstd::layout::size_of::<T>() * i
            + vstd::layout::size_of::<T>() <= crate::layout::spec_size::<T>(capacity),
{
    broadcast use {vstd::layout::align_properties, vstd::layout::align_nonzero};

    let offset = crate::layout::spec_offset::<T>();
    let size = vstd::layout::size_of::<T>();
    let align = vstd::layout::align_of::<T>();
    crate::layout::lemma_offset_bounds::<T>();
    crate::layout::lemma_offset_aligned::<T>();
    assert((offset + size * i) % align == 0) by {
        vstd::arithmetic::div_mod::lemma_mul_mod_noop_left(size as int, i as int, align as int);
        assert((size % align) * i == 0);
        vstd::arithmetic::div_mod::lemma_small_mod(0, align);
        vstd::arithmetic::div_mod::lemma_add_mod_noop(
            offset as int,
            (size * i) as int,
            align as int,
        );
    }
    assert(size * i + size <= size * capacity) by (nonlinear_arith)
        requires
            i < capacity,
    ;
}

/// A vector without capacity has no elements. Any other has a capacity whose block
/// can be allocated, and if its elements have no size, then it is the largest
/// capacity that there is.
pub proof fn law_blocks<T>(vec: EcoVec<T>)
    requires
        vec.wf(),
    ensures
        vec.spec_capacity() == 0 ==> vec@ == Seq::<T>::empty(),
        vec.spec_capacity() > 0 ==> crate::layout::size_fits::<T>(vec.spec_capacity()),
        vec.spec_capacity() > 0 && vstd::layout::size_of::<T>() == 0 ==> vec.spec_capacity()
            == isize::MAX,
{
}

/// Detaching a vector from the others that share its buffer replaces each element
/// by itself or a clone, so it does not change what the vector holds if clones are
/// equal to what they are cloned from.
pub proof fn law_detaching_keeps_elements<T: Clone>(shared: bool, before: Seq<T>, after: Seq<T>)
    requires
        crate::vec::detached(shared, before, after),
    ensures
        after.len() == before.len(),
        !shared ==> after == before,
        forall|i: int|
            0 <= i < before.len() ==> cloned::<T>(#[trigger] before[i], after[i]),
        faithful_clone::<T>() ==> after == before,
{
    if shared {
        assert forall|i: int| 0 <= i < before.len() implies cloned::<T>(
            #[trigger] before[i],
            after[i],
        ) by {
            assert(vstd::pervasive::strictly_cloned::<T>(before[i], after[i]));
        }
        if faithful_clone::<T>() {
            assert forall|i: int| 0 <= i < before.len() implies after[i] == before[i] by {
                assert(vstd::pervasive::strictly_cloned::<T>(before[i], after[i]));
            }
            assert(after == before);
        }
    }
}

/// Detaching never fails: a vector that exists can always be copied into a buffer
/// of its own, and the copy again is a vector within bounds.
pub proof fn law_detaching_keeps_bounds<T>(shared: bool, vec: EcoVec<T>)
    requires
        vec.wf(),
    ensures
        crate::layout::valid_capacity::<T>(
            vec@.len(),
            crate::vec::detached_capacity::<T>(shared, vec@.len(), vec.spec_capacity()),
        ),
{
    crate::layout::lemma_can_collect::<T>(vec@.len(), vec.spec_capacity());
}

/// Changing a clone of a vector does not show in the vector: what was pushed comes
/// behind the elements that the vector still holds.
pub proof fn law_clone_on_write<T: Clone>(
    original: EcoVec<T>,
    copy: EcoVec<T>,
    value: T,
    changed: EcoVec<T>,
)
    requires
        copy == original,
        crate::vec::after_push(copy, value, changed),
    ensures
        changed@.len() == original@.len() + 1,
        changed@.last() == value,
        forall|i: int|
            0 <= i < original@.len() ==> cloned::<T>(#[trigger] original@[i], changed@[i]),
        faithful_clone::<T>() ==> changed@ == original@.push(value),
{
    let (shared, own) = choose|shared: bool, own: Seq<T>|
        {
            &&& #[trigger] crate::vec::detaches(shared, copy, own)
            &&& changed@ == own.push(value)
        };
    law_detaching_keeps_elements(shared, copy@, own);
}

/// Popping undoes pushing: it returns what was pushed, or a clone of it, and
/// leaves as many elements as there were.
pub proof fn law_pop_undoes_push<T: Clone>(
    before: EcoVec<T>,
    value: T,
    pushed: EcoVec<T>,
    popped: Option<T>,
    after: EcoVec<T>,
)
    requires
        crate::vec::after_push(before, value, pushed),
        crate::vec::after_pop(pushed, popped, after),
    ensures
        popped is Some,
        cloned::<T>(value, popped->0),
        after@.len() == before@.len(),
        faithful_clone::<T>() ==> popped == Some(value) && after@ == before@,
{
    let (shared1, own1) = choose|shared: bool, own: Seq<T>|
        {
            &&& #[trigger] crate::vec::detaches(shared, before, own)
            &&& pushed@ == own.push(value)
        };
    law_detaching_keeps_elements(shared1, before@, own1);
    let (shared2, own2) = choose|shared: bool, own: Seq<T>|
        {
            &&& #[trigger] crate::vec::detaches(shared, pushed, own)
            &&& popped == Some(own.last())
            &&& after@ == own.drop_last()
        };
    law_detaching_keeps_elements(shared2, pushed@, own2);
    assert(pushed@[before@.len() as int] == value);
    assert(own1.push(value).drop_last() == own1);
}

/// Removing undoes inserting at the same position.
pub proof fn law_remove_undoes_insert<T: Clone>(
    before: EcoVec<T>,
    index: int,
    value: T,
    inserted: EcoVec<T>,
    removed: T,
    after: EcoVec<T>,
)
    requires
        0 <= index <= before@.len(),
        crate::vec::after_insert(before, index, value, inserted),
        crate::vec::after_remove(inserted, index, removed, after),
    ensures
        cloned::<T>(value, removed),
        after@.len() == before@.len(),
        faithful_clone::<T>() ==> removed == value && after@ == before@,
{
    let (shared1, own1) = choose|shared: bool, own: Seq<T>|
        {
            &&& #[trigger] crate::vec::detaches(shared, before, own)
            &&& inserted@ == own.insert(index, value)
        };
    law_detaching_keeps_elements(shared1, before@, own1);
    let (shared2, own2) = choose|shared: bool, own: Seq<T>|
        {
            &&& #[trigger] crate::vec::detaches(shared, inserted, own)
            &&& removed == own[index]
            &&& after@ == own.remove(index)
        };
    law_detaching_keeps_elements(shared2, inserted@, own2);
    assert(inserted@[index] == value);
    assert(own1.insert(index, value).remove(index) == own1);
}

/// Pushing is inserting at the end, and popping is removing from the end.
pub proof fn law_ends<T: Clone>(before: EcoVec<T>, value: T, after: EcoVec<T>)
    ensures
        crate::vec::after_push(before, value, after) <==> crate::vec::after_insert(
            before,
            before@.len() as int,
            value,
            after,
        ),
        before@.len() > 0 ==> (crate::vec::after_pop(before, Some(value), after)
            <==> crate::vec::after_remove(before, before@.len() - 1, value, after)),
{
    assert forall|shared: bool, own: Seq<T>| #[trigger]
        crate::vec::detaches(shared, before, own) implies {
        &&& own.push(value) == own.insert(before@.len() as int, value)
        &&& before@.len() > 0 ==> own.drop_last() == own.remove(before@.len() - 1)
    } by {
        assert(own.push(value) =~= own.insert(before@.len() as int, value));
        if before@.len() > 0 {
            assert(own.drop_last() =~= own.remove(before@.len() - 1));
        }
    }
}

/// Truncating to no elements leaves what clearing leaves, apart from the capacity.
pub proof fn law_truncate_to_nothing<T: Clone>(
    before: EcoVec<T>,
    truncated: EcoVec<T>,
    cleared: EcoVec<T>,
)
    requires
        crate::vec::after_truncate(before, 0, truncated),
        crate::vec::after_clear(before, cleared),
    ensures
        truncated@ == cleared@,
        truncated@.len() == 0,
{
}

/// Where a vector grows, it at least doubles its capacity, reaches at least the
/// minimum, and has the room that was asked for.
pub proof fn law_growth<T>(len: nat, capacity: nat, additional: nat)
    requires
        crate::layout::valid_capacity::<T>(len, capacity),
        crate::layout::can_reserve::<T>(len, capacity, additional),
    ensures
        crate::layout::valid_capacity::<T>(
            len + additional,
            crate::layout::reserved::<T>(len, capacity, additional),
        ),
        crate::layout::reserved::<T>(len, capacity, additional) == capacity || {
            &&& crate::layout::reserved::<T>(len, capacity, additional) >= 2 * capacity
            &&& crate::layout::reserved::<T>(len, capacity, additional)
                >= crate::layout::spec_min_cap::<T>()
        },
{
}

/// Once room is reserved, as many elements can be added without the capacity
/// changing.
pub proof fn law_reserved_room_lasts<T>(len: nat, capacity: nat, additional: nat, count: nat)
    requires
        crate::layout::valid_capacity::<T>(len, capacity),
        crate::layout::can_reserve::<T>(len, capacity, additional),
        count <= additional,
    ensures
        crate::layout::can_push::<T>(
            len,
            crate::layout::reserved::<T>(len, capacity, additional),
            count,
        ),
        crate::layout::pushed::<T>(
            len,
            crate::layout::reserved::<T>(len, capacity, additional),
            count,
        ) == crate::layout::reserved::<T>(len, capacity, additional),
{
    lemma_room_lasts::<T>(len, crate::layout::reserved::<T>(len, capacity, additional), count);
}

proof fn lemma_room_lasts<T>(len: nat, capacity: nat, count: nat)
    requires
        len + count <= capacity,
    ensures
        crate::layout::can_push::<T>(len, capacity, count),
        crate::layout::pushed::<T>(len, capacity, count) == capacity,
    decreases count,
{
    if count > 0 {
        lemma_room_lasts::<T>(len + 1, capacity, (count - 1) as nat);
    }
}

/// A vector made from an iterator that announces exactly the elements it yields has
/// the capacity of one that was made from a slice or a standard vector.
pub proof fn law_collecting<T>(len: nat)
    requires
        crate::layout::can_collect::<T>(len),
    ensures
        crate::extend::extendable::<T>(false, 0, 0, len, len) == len,
        crate::extend::can_announce::<T>(false, 0, 0, len),
        crate::extend::extended_capacity::<T>(false, 0, 0, len, len)
            == crate::layout::collected::<T>(len),
{
    law_reserved_room_lasts::<T>(0, 0, len, len);
    crate::layout::lemma_pushable::<T>(0, crate::layout::collected::<T>(len), len);
}

/// Extending a vector that has its buffer to itself by an iterator that announces
/// nothing is the same as pushing the elements one by one.
pub proof fn law_extending_is_pushing<T>(len: nat, capacity: nat, count: nat)
    requires
        crate::layout::valid_capacity::<T>(len, capacity),
    ensures
        crate::extend::extended_capacity::<T>(false, len, capacity, 0, count)
            == crate::layout::pushed::<T>(len, capacity, count),
        crate::extend::extendable::<T>(false, len, capacity, 0, count)
            == crate::layout::pushable::<T>(len, capacity, count),
        count > 0 ==> crate::vec::roomy_capacity::<T>(false, len, capacity)
            == crate::layout::pushed::<T>(len, capacity, 1),
{
    reveal_with_fuel(crate::layout::pushed, 2);
}

/// Whatever an iterator announces, all its elements can be added if twice as many
/// as there are in the end could be held and there is room for what it announces.
pub proof fn law_extending_succeeds<T>(shared: bool, len: nat, capacity: nat, hint: nat, count: nat)
    requires
        crate::layout::valid_capacity::<T>(len, capacity),
        crate::layout::can_grow::<T>(
            crate::layout::spec_max(2 * (len + count), crate::layout::spec_min_cap::<T>()),
        ),
        crate::extend::can_announce::<T>(shared, len, capacity, hint),
    ensures
        crate::extend::extendable::<T>(shared, len, capacity, hint, count) == count,
{
    crate::layout::lemma_can_collect::<T>(len, capacity);
    let own = crate::vec::detached_capacity::<T>(shared, len, capacity);
    let roomy = crate::vec::roomy_capacity::<T>(shared, len, capacity);
    let reserved = crate::layout::reserved::<T>(len, own, hint);
    crate::layout::lemma_can_push::<T>(len, reserved, count);
    crate::layout::lemma_pushable::<T>(len, reserved, count);
    if count > 0 {
        crate::layout::lemma_can_push::<T>(len, capacity, count);
        crate::layout::lemma_can_push::<T>(len + 1, roomy, (count - 1) as nat);
        crate::layout::lemma_pushable::<T>(len + 1, roomy, (count - 1) as nat);
    }
}

/// Keeping the elements that satisfy a predicate is filtering: the kept elements
/// stay in their order, and none of them occurs more often than before.
pub proof fn law_keeping_is_filtering<T>(s: Seq<T>, keep: Seq<bool>, p: spec_fn(T) -> bool)
    requires
        keep.len() == s.len(),
        forall|i: int| 0 <= i < s.len() ==> #[trigger] keep[i] == p(s[i]),
    ensures
        crate::buffer::kept(s, keep) == s.filter(p),
    decreases s.len(),
{
    reveal(Seq::filter);
    if s.len() > 0 {
        law_keeping_is_filtering(s.drop_last(), keep.drop_last(), p);
        assert(keep[s.len() - 1] == p(s[s.len() - 1]));
    }
}

/// Retaining by a predicate that leaves the elements alone keeps exactly those
/// that satisfy it, in their order. The requirements are what `retain` promises of
/// `own`, the elements of the detached vector, and of `after`, those that it keeps.
pub proof fn law_retaining_is_filtering<T: Clone, F: FnMut(&mut T) -> bool>(
    f: F,
    p: spec_fn(T) -> bool,
    shared: bool,
    before: Seq<T>,
    own: Seq<T>,
    changed: Seq<T>,
    keep: Seq<bool>,
    after: Seq<T>,
)
    requires
        forall|x: &mut T, r: bool| #[trigger]
            call_ensures(f, (x,), r) ==> r == p(*x) && *final(x) == *x,
        crate::vec::detached(shared, before, own),
        changed.len() == own.len(),
        keep.len() == own.len(),
        forall|i: int| #[trigger]
            crate::buffer::is_index(changed, i) ==> exists|x: &mut T|
                {
                    &&& *x == own[i]
                    &&& *final(x) == changed[i]
                    &&& #[trigger] call_ensures(f, (x,), keep[i])
                },
        after == crate::buffer::kept(changed, keep),
    ensures
        after == own.filter(p),
        faithful_clone::<T>() ==> after == before.filter(p),
{
    assert forall|i: int| 0 <= i < own.len() implies #[trigger] changed[i] == own[i] by {
        assert(crate::buffer::is_index(changed, i));
    }
    assert forall|i: int| 0 <= i < own.len() implies #[trigger] keep[i] == p(own[i]) by {
        assert(crate::buffer::is_index(changed, i));
    }
    assert(changed == own);
    law_keeping_is_filtering(own, keep, p);
    law_detaching_keeps_elements(shared, before, own);
}

} // verus!
