//! How much a vector can hold, in bytes, and what can be had within that limit.
use crate::vec::EcoVec;
use vstd::prelude::*;
use vstd::std_specs::iter::IteratorSpec;

verus! {

/// The elements of a block start at the first multiple of the alignment behind a header
/// of three words, where the alignment is the larger of that of a word and that of the
/// elements.
pub proof fn law_elements_follow_the_header<T>(align: usize, offset: usize)
    requires
        call_ensures(crate::layout::align::<T>, (), align),
        call_ensures(crate::layout::offset::<T>, (), offset),
    ensures
        align >= vstd::layout::size_of::<usize>(),
        align >= vstd::layout::align_of::<T>(),
        align == vstd::layout::size_of::<usize>() || align == vstd::layout::align_of::<T>(),
        offset as nat % align as nat == 0,
        3 * vstd::layout::size_of::<usize>() <= offset < 3 * vstd::layout::size_of::<usize>()
            + align,
{
    crate::layout::lemma_offset_bounds::<T>();
    crate::layout::lemma_offset_on_alignment::<T>();
}

/// The size of a block is that of what precedes the elements and of the elements. It is
/// refused exactly if it is beyond `isize::MAX`, with the alignment and one byte to
/// spare.
pub proof fn law_block_size<T>(
    capacity: usize,
    align: usize,
    offset: usize,
    size: Option<usize>,
)
    requires
        call_ensures(crate::layout::align::<T>, (), align),
        call_ensures(crate::layout::offset::<T>, (), offset),
        call_ensures(crate::layout::size::<T>, (capacity,), size),
    ensures
        size is Some <==> offset + vstd::layout::size_of::<T>() * capacity + align + 1
            <= isize::MAX,
        size matches Some(bytes) ==> bytes == offset + vstd::layout::size_of::<T>() * capacity,
{
}

/// The smallest capacity that a growing vector takes: eight elements of one byte, four
/// of up to 32 bytes, or one.
pub proof fn law_smallest_capacity<T>(r: usize)
    requires
        call_ensures(crate::layout::min_cap::<T>, (), r),
    ensures
        vstd::layout::size_of::<T>() == 1 ==> r == 8,
        vstd::layout::size_of::<T>() != 1 && vstd::layout::size_of::<T>() <= 32 ==> r == 4,
        vstd::layout::size_of::<T>() > 32 ==> r == 1,
{
}

/// The limit on capacities in bytes: a block for `n` elements can be made exactly if
/// `n` is at most `isize::MAX` and the header, padded to the alignment, the elements,
/// the alignment and one byte are too.
pub proof fn law_limit<T>(n: nat)
    ensures
        crate::layout::can_grow::<T>(n) <==> {
            let word = vstd::layout::size_of::<usize>();
            let align = if word >= vstd::layout::align_of::<T>() {
                word
            } else {
                vstd::layout::align_of::<T>()
            };
            &&& n <= isize::MAX
            &&& (3 * word + align - 1) as nat / align * align + vstd::layout::size_of::<T>() * n
                + align + 1 <= isize::MAX
        },
{
}

/// Every capacity within the limit in bytes can be had, and no other. Elements with a
/// size get exactly that capacity, and those without one the largest.
pub proof fn law_every_capacity_within_the_limit<T>(n: usize, r: Option<usize>)
    requires
        call_ensures(crate::layout::checked_capacity::<T>, (n,), r),
    ensures
        r is Some <==> {
            let word = vstd::layout::size_of::<usize>();
            let align = if word >= vstd::layout::align_of::<T>() {
                word
            } else {
                vstd::layout::align_of::<T>()
            };
            &&& n <= isize::MAX
            &&& (3 * word + align - 1) as nat / align * align + vstd::layout::size_of::<T>() * n
                + align + 1 <= isize::MAX
        },
        r matches Some(capacity) ==> capacity == (if vstd::layout::size_of::<T>() > 0 {
            n
        } else {
            isize::MAX as usize
        }),
{
    law_limit::<T>(n as nat);
}

/// Reserving keeps a capacity that suffices. Otherwise it takes the least that is
/// enough for what is asked, at least twice what was there, and at least the smallest
/// capacity, and it is refused exactly if that is beyond the limit in bytes. Elements
/// without a size get the largest capacity.
pub proof fn law_reserved_capacity<T>(
    len: usize,
    capacity: usize,
    additional: usize,
    smallest: usize,
    target: nat,
    r: Option<usize>,
)
    requires
        crate::layout::valid_capacity::<T>(len as nat, capacity as nat),
        call_ensures(crate::layout::min_cap::<T>, (), smallest),
        call_ensures(crate::layout::reserved_capacity::<T>, (len, capacity, additional), r),
        target >= len + additional && target >= 2 * capacity && target >= smallest,
        target == len + additional || target == 2 * capacity || target == smallest,
    ensures
        len + additional <= capacity ==> r == Some(capacity),
        len + additional > capacity ==> (r is Some <==> {
            let word = vstd::layout::size_of::<usize>();
            let align = if word >= vstd::layout::align_of::<T>() {
                word
            } else {
                vstd::layout::align_of::<T>()
            };
            &&& target <= isize::MAX
            &&& (3 * word + align - 1) as nat / align * align + vstd::layout::size_of::<T>()
                * target + align + 1 <= isize::MAX
        }),
        len + additional > capacity ==> (r matches Some(new) ==> new == (
        if vstd::layout::size_of::<T>() > 0 {
            target
        } else {
            isize::MAX as nat
        })),
{
    law_limit::<T>(target);
}

/// An empty vector with any capacity within the limit in bytes can be made, and so can
/// one with that many copies of a value.
pub proof fn law_room_for_any_number<T: Clone>(n: usize, value: T)
    requires
        ({
            let word = vstd::layout::size_of::<usize>();
            let align = if word >= vstd::layout::align_of::<T>() {
                word
            } else {
                vstd::layout::align_of::<T>()
            };
            &&& n <= isize::MAX
            &&& (3 * word + align - 1) as nat / align * align + vstd::layout::size_of::<T>() * n
                + align + 1 <= isize::MAX
        }),
    ensures
        call_requires(EcoVec::<T>::with_capacity, (n,)),
        call_requires(EcoVec::<T>::from_elem, (value, n)),
{
    law_limit::<T>(n as nat);
}

/// A slice or a standard vector of any length within the limit in bytes can be made into
/// a vector, given that the smallest capacity is within it too.
pub proof fn law_room_for_any_elements<T: Clone>(
    slice: &[T],
    vec: Vec<T>,
    smallest: usize,
    target: nat,
)
    requires
        call_ensures(crate::layout::min_cap::<T>, (), smallest),
        target >= slice@.len() && target >= vec@.len() && target >= smallest,
        ({
            let word = vstd::layout::size_of::<usize>();
            let align = if word >= vstd::layout::align_of::<T>() {
                word
            } else {
                vstd::layout::align_of::<T>()
            };
            &&& target <= isize::MAX
            &&& (3 * word + align - 1) as nat / align * align + vstd::layout::size_of::<T>()
                * target + align + 1 <= isize::MAX
        }),
    ensures
        call_requires(EcoVec::<T>::from_slice, (slice,)),
        call_requires(EcoVec::<T>::from_vec, (vec,)),
{
    law_limit::<T>(target);
    crate::layout::lemma_can_grow_monotonic::<T>(
        crate::layout::reserve_target::<T>(0, 0, slice@.len()),
        target,
    );
    crate::layout::lemma_can_grow_monotonic::<T>(
        crate::layout::reserve_target::<T>(0, 0, vec@.len()),
        target,
    );
}

/// One more element can be added wherever there is room for it, or wherever twice the
/// capacity and the smallest capacity are within the limit in bytes.
pub proof fn law_room_for_one_more<T: Clone>(
    vec: &mut EcoVec<T>,
    index: usize,
    value: T,
    smallest: usize,
    target: nat,
)
    requires
        vec.wf(),
        index <= vec@.len(),
        call_ensures(crate::layout::min_cap::<T>, (), smallest),
        vec@.len() < vec.spec_capacity() || {
            &&& target >= vec@.len() + 1 && target >= 2 * vec.spec_capacity() && target >= smallest
            &&& ({
                let word = vstd::layout::size_of::<usize>();
                let align = if word >= vstd::layout::align_of::<T>() {
                    word
                } else {
                    vstd::layout::align_of::<T>()
                };
                &&& target <= isize::MAX
                &&& (3 * word + align - 1) as nat / align * align + vstd::layout::size_of::<T>()
                    * target + align + 1 <= isize::MAX
            })
        },
    ensures
        call_requires(EcoVec::<T>::push, (vec, value)),
        call_requires(EcoVec::<T>::insert, (vec, index, value)),
{
    law_limit::<T>(target);
    if vec@.len() == vec.spec_capacity() {
        crate::layout::lemma_can_grow_monotonic::<T>(
            crate::layout::reserve_target::<T>(vec@.len(), vec.spec_capacity(), 1),
            target,
        );
    }
}

/// Room for more elements can be reserved wherever as many as there are then, twice the
/// capacity, and twice the smallest capacity are within the limit in bytes.
pub proof fn law_room_for_more<T: Clone>(
    vec: &mut EcoVec<T>,
    additional: usize,
    smallest: usize,
    target: nat,
)
    requires
        vec.wf(),
        call_ensures(crate::layout::min_cap::<T>, (), smallest),
        target >= vec@.len() + additional,
        target >= 2 * vec.spec_capacity(),
        target >= 2 * smallest,
        ({
            let word = vstd::layout::size_of::<usize>();
            let align = if word >= vstd::layout::align_of::<T>() {
                word
            } else {
                vstd::layout::align_of::<T>()
            };
            &&& target <= isize::MAX
            &&& (3 * word + align - 1) as nat / align * align + vstd::layout::size_of::<T>()
                * target + align + 1 <= isize::MAX
        }),
    ensures
        call_requires(EcoVec::<T>::reserve, (vec, additional)),
{
    law_limit::<T>(target);
    let (len, capacity) = (vec@.len(), vec.spec_capacity());
    assert forall|shared: bool|
        crate::layout::can_reserve::<T>(
            len,
            #[trigger] crate::vec::detached_capacity::<T>(shared, len, capacity),
            additional as nat,
        ) by {
        let own = crate::vec::detached_capacity::<T>(shared, len, capacity);
        if additional > own - len && (vstd::layout::size_of::<T>() > 0 || own == 0) {
            crate::layout::lemma_can_grow_monotonic::<T>(
                crate::layout::reserve_target::<T>(len, own, additional as nat),
                target,
            );
        }
    }
}

/// What takes no more room can be done with every vector.
pub proof fn law_no_room_needed<T: Clone>(vec: &mut EcoVec<T>, index: usize, target: usize)
    requires
        vec.wf(),
    ensures
        call_requires(EcoVec::<T>::clear, (vec,)),
        call_requires(EcoVec::<T>::make_mut, (vec,)),
        call_requires(EcoVec::<T>::pop, (vec,)),
        call_requires(EcoVec::<T>::truncate, (vec, target)),
        index < old(vec)@.len() ==> call_requires(EcoVec::<T>::remove, (vec, index)),
{
}

/// Extending can be tried with every vector, iterator and announcement, and collecting with
/// every iterator.
pub proof fn law_extending_is_possible<T: Clone, I: Iterator<Item = T>>(
    vec: &mut EcoVec<T>,
    iter: I,
    hint: usize,
)
    requires
        vec.wf(),
    ensures
        call_requires(EcoVec::<T>::extend_with_hint::<I>, (vec, iter, hint)),
        call_requires(EcoVec::<T>::extend::<I>, (vec, iter)),
        call_requires(EcoVec::<T>::from_iter::<I>, (iter,)),
{
}

/// Extending adds all elements wherever memory allows it: if twice as many as there are
/// in the end or were announced, twice the capacity, and the smallest capacity are within
/// the limit in bytes, then it returns `true` and the vector has all elements behind its
/// own.
pub proof fn law_extending_within_the_limit<T: Clone, I: Iterator<Item = T>>(
    vec: &mut EcoVec<T>,
    iter: I,
    hint: usize,
    r: bool,
    smallest: usize,
    target: nat,
)
    requires
        vec.wf(),
        iter.obeys_prophetic_iter_laws(),
        call_ensures(EcoVec::<T>::extend_with_hint::<I>, (vec, iter, hint), r),
        call_ensures(crate::layout::min_cap::<T>, (), smallest),
        target >= 2 * (vec@.len() + hint),
        target >= 2 * (vec@.len() + iter.remaining().len()),
        target >= 2 * vec.spec_capacity(),
        target >= smallest,
        ({
            let word = vstd::layout::size_of::<usize>();
            let align = if word >= vstd::layout::align_of::<T>() {
                word
            } else {
                vstd::layout::align_of::<T>()
            };
            &&& target <= isize::MAX
            &&& (3 * word + align - 1) as nat / align * align + vstd::layout::size_of::<T>()
                * target + align + 1 <= isize::MAX
        }),
    ensures
        r,
        final(vec)@.len() == old(vec)@.len() + iter.remaining().len(),
        final(vec)@.skip(old(vec)@.len() as int) == iter.remaining(),
        forall|i: int|
            0 <= i < old(vec)@.len() ==> cloned::<T>(#[trigger] old(vec)@[i], final(vec)@[i]),
        crate::laws::faithful_clone::<T>() ==> final(vec)@ == old(vec)@ + iter.remaining(),
{
    law_limit::<T>(target);
    lemma_extended(*vec, hint as nat, iter.remaining(), *final(vec), r, target);
}

/// The same with what the iterator announces by itself.
pub proof fn law_extending_by_announcement<T: Clone, I: Iterator<Item = T>>(
    vec: &mut EcoVec<T>,
    iter: I,
    r: bool,
    smallest: usize,
    target: nat,
)
    requires
        vec.wf(),
        iter.obeys_prophetic_iter_laws(),
        call_ensures(EcoVec::<T>::extend::<I>, (vec, iter), r),
        call_ensures(crate::layout::min_cap::<T>, (), smallest),
        forall|hint: usize| #[trigger]
            crate::extend::announces(iter, hint) ==> target >= 2 * (vec@.len() + hint),
        target >= 2 * (vec@.len() + iter.remaining().len()),
        target >= 2 * vec.spec_capacity(),
        target >= smallest,
        ({
            let word = vstd::layout::size_of::<usize>();
            let align = if word >= vstd::layout::align_of::<T>() {
                word
            } else {
                vstd::layout::align_of::<T>()
            };
            &&& target <= isize::MAX
            &&& (3 * word + align - 1) as nat / align * align + vstd::layout::size_of::<T>()
                * target + align + 1 <= isize::MAX
        }),
    ensures
        r,
        final(vec)@.len() == old(vec)@.len() + iter.remaining().len(),
        final(vec)@.skip(old(vec)@.len() as int) == iter.remaining(),
        forall|i: int|
            0 <= i < old(vec)@.len() ==> cloned::<T>(#[trigger] old(vec)@[i], final(vec)@[i]),
        crate::laws::faithful_clone::<T>() ==> final(vec)@ == old(vec)@ + iter.remaining(),
{
    law_limit::<T>(target);
    let hint = choose|hint: usize|
        #![trigger crate::extend::announces(iter, hint)]
        {
            &&& crate::extend::announces(iter, hint)
            &&& exists|shared: bool, own: Seq<T>| #[trigger]
                crate::extend::extension(
                    shared,
                    own,
                    *vec,
                    hint as nat,
                    iter.remaining(),
                    *final(vec),
                    r,
                )
        };
    lemma_extended(*vec, hint as nat, iter.remaining(), *final(vec), r, target);
}

proof fn lemma_extended<T: Clone>(
    before: EcoVec<T>,
    hint: nat,
    items: Seq<T>,
    after: EcoVec<T>,
    r: bool,
    target: nat,
)
    requires
        before.wf(),
        target >= 2 * (before@.len() + hint),
        target >= 2 * (before@.len() + items.len()),
        target >= 2 * before.spec_capacity(),
        target >= crate::layout::spec_min_cap::<T>(),
        crate::layout::can_grow::<T>(target),
        exists|shared: bool, own: Seq<T>| #[trigger]
            crate::extend::extension(shared, own, before, hint, items, after, r),
    ensures
        r,
        after@.len() == before@.len() + items.len(),
        after@.skip(before@.len() as int) == items,
        forall|i: int|
            0 <= i < before@.len() ==> cloned::<T>(#[trigger] before@[i], after@[i]),
        crate::laws::faithful_clone::<T>() ==> after@ == before@ + items,
{
    let (len, capacity) = (before@.len(), before.spec_capacity());
    let (shared, own) = choose|shared: bool, own: Seq<T>| #[trigger]
        crate::extend::extension(shared, own, before, hint, items, after, r);
    lemma_announced::<T>(shared, len, capacity, hint, target);
    crate::layout::lemma_can_grow_monotonic::<T>(
        crate::layout::spec_max(2 * (len + items.len()), crate::layout::spec_min_cap::<T>()),
        target,
    );
    crate::laws::law_extending_succeeds::<T>(shared, len, capacity, hint, items.len());
    crate::change_laws::law_extending(shared, own, before, hint, items, after, r);
    assert(items.take(items.len() as int) == items);
}

proof fn lemma_announced<T>(shared: bool, len: nat, capacity: nat, hint: nat, target: nat)
    requires
        crate::layout::valid_capacity::<T>(len, capacity),
        target >= 2 * (len + hint),
        target >= 2 * capacity,
        target >= crate::layout::spec_min_cap::<T>(),
        crate::layout::can_grow::<T>(target),
    ensures
        crate::extend::can_announce::<T>(shared, len, capacity, hint),
{
    let own = crate::vec::detached_capacity::<T>(shared, len, capacity);
    if hint > own - len {
        crate::layout::lemma_can_grow_monotonic::<T>(
            crate::layout::reserve_target::<T>(len, own, hint),
            target,
        );
    }
}

/// Collecting gives all elements wherever memory allows it: if twice as many as come or
/// were announced, and the smallest capacity, are within the limit in bytes, then there
/// is a vector and it holds exactly what the iterator yields.
pub proof fn law_collecting_within_the_limit<T: Clone, I: Iterator<Item = T>>(
    iter: I,
    r: Option<EcoVec<T>>,
    smallest: usize,
    target: nat,
)
    requires
        iter.obeys_prophetic_iter_laws(),
        call_ensures(EcoVec::<T>::from_iter::<I>, (iter,), r),
        call_ensures(crate::layout::min_cap::<T>, (), smallest),
        forall|hint: usize| #[trigger]
            crate::extend::announces(iter, hint) ==> target >= 2 * hint,
        target >= 2 * iter.remaining().len(),
        target >= smallest,
        ({
            let word = vstd::layout::size_of::<usize>();
            let align = if word >= vstd::layout::align_of::<T>() {
                word
            } else {
                vstd::layout::align_of::<T>()
            };
            &&& target <= isize::MAX
            &&& (3 * word + align - 1) as nat / align * align + vstd::layout::size_of::<T>()
                * target + align + 1 <= isize::MAX
        }),
    ensures
        r is Some,
        r->0@ == iter.remaining(),
{
    law_limit::<T>(target);
    assert forall|hint: usize| #[trigger] crate::extend::announces(iter, hint) implies {
        &&& crate::extend::can_announce::<T>(false, 0, 0, hint as nat)
        &&& crate::extend::extendable::<T>(false, 0, 0, hint as nat, iter.remaining().len())
            == iter.remaining().len()
    } by {
        lemma_announced::<T>(false, 0, 0, hint as nat, target);
        crate::layout::lemma_can_grow_monotonic::<T>(
            crate::layout::spec_max(
                2 * iter.remaining().len(),
                crate::layout::spec_min_cap::<T>(),
            ),
            target,
        );
        crate::laws::law_extending_succeeds::<T>(
            false,
            0,
            0,
            hint as nat,
            iter.remaining().len(),
        );
    }
}

} // verus!
