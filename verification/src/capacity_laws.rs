//! What capacity each operation leaves, whether or not the buffer was shared.
use crate::vec::EcoVec;
use vstd::prelude::*;

verus! {

/// Detaching leaves the capacity of a vector whose buffer is not shared. A copy is cut to
/// its elements: it has room for them and for no others, but for at least the smallest
/// capacity, and none if there are no elements.
pub proof fn law_capacity_of_copies<T>(len: nat, capacity: nat, smallest: usize)
    requires
        call_ensures(crate::layout::min_cap::<T>, (), smallest),
    ensures
        crate::vec::detached_capacity::<T>(false, len, capacity) == capacity,
        crate::vec::detached_capacity::<T>(true, 0, capacity) == 0,
        len > 0 && vstd::layout::size_of::<T>() == 0 ==> crate::vec::detached_capacity::<T>(
            true,
            len,
            capacity,
        ) == isize::MAX,
        len > 0 && vstd::layout::size_of::<T>() > 0 ==> crate::vec::detached_capacity::<T>(
            true,
            len,
            capacity,
        ) == (if len >= smallest {
            len
        } else {
            smallest as nat
        }),
{
}

/// A new vector has the capacity that it is made with, or the largest if its elements have
/// no size.
pub proof fn law_capacity_of_new_vectors<T: Clone>(
    n: usize,
    value: T,
    empty: EcoVec<T>,
    filled: EcoVec<T>,
)
    requires
        call_ensures(EcoVec::<T>::with_capacity, (n,), empty),
        call_ensures(EcoVec::<T>::from_elem, (value, n), filled),
    ensures
        n == 0 || vstd::layout::size_of::<T>() > 0 ==> empty.spec_capacity() == n,
        n > 0 && vstd::layout::size_of::<T>() == 0 ==> empty.spec_capacity() == isize::MAX,
        filled.spec_capacity() == empty.spec_capacity(),
        empty@.len() == 0,
        filled@.len() == n,
{
}

/// A vector that is made from a slice or a standard vector has room for its elements and
/// no others, but for at least the smallest capacity, and none if there are no elements.
pub proof fn law_capacity_of_collected_vectors<T: Clone>(
    slice: &[T],
    from_slice: EcoVec<T>,
    vec: Vec<T>,
    from_vec: EcoVec<T>,
    smallest: usize,
)
    requires
        call_ensures(crate::layout::min_cap::<T>, (), smallest),
        call_ensures(EcoVec::<T>::from_slice, (slice,), from_slice),
        call_ensures(EcoVec::<T>::from_vec, (vec,), from_vec),
        vstd::layout::size_of::<T>() > 0,
    ensures
        from_slice.spec_capacity() == (if slice@.len() == 0 {
            0
        } else if slice@.len() >= smallest {
            slice@.len()
        } else {
            smallest as nat
        }),
        from_vec.spec_capacity() == (if vec@.len() == 0 {
            0
        } else if vec@.len() >= smallest {
            vec@.len()
        } else {
            smallest as nat
        }),
{
}

/// Detaching leaves either the very elements, or clones of all of them, and the capacity
/// either as it was or cut to the elements. Which of the two it is goes by what is handed
/// out for the buffer.
pub proof fn law_detaching<T: Clone>(
    shared: bool,
    vec: EcoVec<T>,
    own: Seq<T>,
    smallest: usize,
)
    requires
        vec.wf(),
        call_ensures(crate::layout::min_cap::<T>, (), smallest),
        crate::vec::detaches(shared, vec, own),
    ensures
        !shared ==> own == vec@ && crate::vec::hands_out(vec, own, vec.spec_capacity()),
        shared ==> own.len() == vec@.len() && forall|i: int|
            0 <= i < vec@.len() ==> vstd::pervasive::strictly_cloned::<T>(
                vec@[i],
                #[trigger] own[i],
            ),
        shared && vec@.len() == 0 ==> crate::vec::hands_out(vec, own, 0),
        shared && vec@.len() > 0 && vstd::layout::size_of::<T>() == 0 ==> crate::vec::hands_out(
            vec,
            own,
            isize::MAX as nat,
        ),
        shared && vec@.len() > 0 && vstd::layout::size_of::<T>() > 0 ==> crate::vec::hands_out(
            vec,
            own,
            if vec@.len() >= smallest {
                vec@.len()
            } else {
                smallest as nat
            },
        ),
{
}

/// Clearing a vector leaves its capacity if its buffer is not found to be shared, and none
/// at all if it is. A vector without elements stays as it is.
pub proof fn law_clearing<T: Clone>(vec: &mut EcoVec<T>)
    requires
        vec.wf(),
        call_ensures(EcoVec::<T>::clear, (vec,), ()),
    ensures
        final(vec)@.len() == 0,
        old(vec)@.len() == 0 ==> *final(vec) == *old(vec),
        old(vec)@.len() > 0 ==> exists|shared: bool|
            {
                &&& #[trigger] crate::vec::finds(*old(vec), shared)
                &&& final(vec).spec_capacity() == (if shared {
                    0
                } else {
                    old(vec).spec_capacity()
                })
            },
{
}

/// Pushing adds the value behind the elements of the detached vector. A vector with room
/// keeps its capacity, and one without doubles it, to at least the smallest capacity. A copy
/// of a vector with room has what its elements and the new one need, but at least the
/// smallest capacity.
pub proof fn law_pushing<T: Clone>(
    vec: &mut EcoVec<T>,
    value: T,
    smallest: usize,
)
    requires
        vec.wf(),
        vstd::layout::size_of::<T>() > 0,
        call_ensures(crate::layout::min_cap::<T>, (), smallest),
        call_ensures(EcoVec::<T>::push, (vec, value), ()),
    ensures
        exists|shared: bool, own: Seq<T>|
            {
                &&& #[trigger] crate::vec::detaches(shared, *old(vec), own)
                &&& final(vec)@ == own.push(value)
                &&& final(vec).spec_capacity() == (if old(vec)@.len() < old(vec).spec_capacity() {
                    if !shared {
                        old(vec).spec_capacity()
                    } else if old(vec)@.len() + 1 >= smallest {
                        old(vec)@.len() + 1
                    } else {
                        smallest as nat
                    }
                } else if shared && old(vec)@.len() < smallest {
                    smallest as nat
                } else if 2 * old(vec)@.len() >= smallest {
                    2 * old(vec)@.len()
                } else {
                    smallest as nat
                })
            },
{
}

/// Inserting adds the value among the elements of the detached vector, and takes the capacity
/// that pushing takes.
pub proof fn law_capacity_after_inserting<T: Clone>(
    vec: &mut EcoVec<T>,
    index: usize,
    value: T,
    smallest: usize,
)
    requires
        vec.wf(),
        vstd::layout::size_of::<T>() > 0,
        call_ensures(crate::layout::min_cap::<T>, (), smallest),
        index <= vec@.len(),
        call_ensures(EcoVec::<T>::insert, (vec, index, value), ()),
    ensures
        exists|shared: bool, own: Seq<T>|
            {
                &&& #[trigger] crate::vec::detaches(shared, *old(vec), own)
                &&& final(vec)@ == own.insert(index as int, value)
                &&& final(vec).spec_capacity() == (if old(vec)@.len() < old(vec).spec_capacity() {
                    if !shared {
                        old(vec).spec_capacity()
                    } else if old(vec)@.len() + 1 >= smallest {
                        old(vec)@.len() + 1
                    } else {
                        smallest as nat
                    }
                } else if shared && old(vec)@.len() < smallest {
                    smallest as nat
                } else if 2 * old(vec)@.len() >= smallest {
                    2 * old(vec)@.len()
                } else {
                    smallest as nat
                })
            },
{
}

/// Elements without a size take no room, so a vector that gets one has the largest capacity.
pub proof fn law_capacity_without_size<T: Clone>(vec: &mut EcoVec<T>, index: usize, value: T)
    requires
        vec.wf(),
        vstd::layout::size_of::<T>() == 0,
        index <= vec@.len() < isize::MAX,
        call_ensures(EcoVec::<T>::push, (vec, value), ()) || call_ensures(
            EcoVec::<T>::insert,
            (vec, index, value),
            (),
        ),
    ensures
        final(vec).spec_capacity() == isize::MAX,
{
}

/// Popping takes the last element of the detached vector and leaves its capacity.
pub proof fn law_capacity_after_popping<T: Clone>(
    vec: &mut EcoVec<T>,
    popped: Option<T>,
    smallest: usize,
)
    requires
        vec.wf(),
        vstd::layout::size_of::<T>() > 0,
        call_ensures(crate::layout::min_cap::<T>, (), smallest),
        vec@.len() > 0,
        call_ensures(EcoVec::<T>::pop, (vec,), popped),
    ensures
        exists|shared: bool, own: Seq<T>|
            {
                &&& #[trigger] crate::vec::detaches(shared, *old(vec), own)
                &&& popped == Some(own.last()) && final(vec)@ == own.drop_last()
                &&& final(vec).spec_capacity() == (if shared {
                    if old(vec)@.len() == 0 {
                        0
                    } else if old(vec)@.len() >= smallest {
                        old(vec)@.len()
                    } else {
                        smallest as nat
                    }
                } else {
                    old(vec).spec_capacity()
                })
            },
{
}

/// Removing takes an element of the detached vector and leaves its capacity.
pub proof fn law_capacity_after_removing<T: Clone>(
    vec: &mut EcoVec<T>,
    index: usize,
    removed: T,
    smallest: usize,
)
    requires
        vec.wf(),
        vstd::layout::size_of::<T>() > 0,
        call_ensures(crate::layout::min_cap::<T>, (), smallest),
        index < vec@.len(),
        call_ensures(EcoVec::<T>::remove, (vec, index), removed),
    ensures
        exists|shared: bool, own: Seq<T>|
            {
                &&& #[trigger] crate::vec::detaches(shared, *old(vec), own)
                &&& removed == own[index as int] && final(vec)@ == own.remove(index as int)
                &&& final(vec).spec_capacity() == (if shared {
                    if old(vec)@.len() == 0 {
                        0
                    } else if old(vec)@.len() >= smallest {
                        old(vec)@.len()
                    } else {
                        smallest as nat
                    }
                } else {
                    old(vec).spec_capacity()
                })
            },
{
}

/// Truncating leaves the first elements of the detached vector and its capacity.
pub proof fn law_capacity_after_truncating<T: Clone>(
    vec: &mut EcoVec<T>,
    target: usize,
    smallest: usize,
)
    requires
        vec.wf(),
        vstd::layout::size_of::<T>() > 0,
        call_ensures(crate::layout::min_cap::<T>, (), smallest),
        target < vec@.len(),
        call_ensures(EcoVec::<T>::truncate, (vec, target), ()),
    ensures
        exists|shared: bool, own: Seq<T>|
            {
                &&& #[trigger] crate::vec::detaches(shared, *old(vec), own)
                &&& final(vec)@ == own.take(target as int)
                &&& final(vec).spec_capacity() == (if shared {
                    if old(vec)@.len() == 0 {
                        0
                    } else if old(vec)@.len() >= smallest {
                        old(vec)@.len()
                    } else {
                        smallest as nat
                    }
                } else {
                    old(vec).spec_capacity()
                })
            },
{
}

/// Retaining leaves the capacity of the detached vector.
pub proof fn law_capacity_after_retaining<T: Clone, F: FnMut(&mut T) -> bool>(
    vec: &mut EcoVec<T>,
    f: F,
    smallest: usize,
)
    requires
        vec.wf(),
        vstd::layout::size_of::<T>() > 0,
        call_ensures(crate::layout::min_cap::<T>, (), smallest),
        call_ensures(EcoVec::<T>::retain::<F>, (vec, f), ()),
    ensures
        exists|shared: bool, own: Seq<T>|
            {
                &&& #[trigger] crate::vec::detaches(shared, *old(vec), own)
                &&& final(vec)@.len() <= own.len()
                &&& final(vec).spec_capacity() == (if shared {
                    if old(vec)@.len() == 0 {
                        0
                    } else if old(vec)@.len() >= smallest {
                        old(vec)@.len()
                    } else {
                        smallest as nat
                    }
                } else {
                    old(vec).spec_capacity()
                })
            },
{
    assert forall|changed: Seq<T>, keep: Seq<bool>|
        keep.len() == changed.len() implies (#[trigger] crate::buffer::kept(changed, keep)).len()
        <= changed.len() by {
        crate::retain_laws::law_keeping_adds_nothing(changed, keep);
    }
}

/// Changing in place starts with the elements of the detached vector, ends with what was
/// written, and leaves the capacity of the detached vector.
pub proof fn law_capacity_after_changing<T: Clone>(
    vec: &mut EcoVec<T>,
    slice: &mut [T],
    smallest: usize,
)
    requires
        vec.wf(),
        vstd::layout::size_of::<T>() > 0,
        call_ensures(crate::layout::min_cap::<T>, (), smallest),
        call_ensures(EcoVec::<T>::make_mut, (vec,), slice),
    ensures
        final(vec)@ == final(slice)@,
        exists|shared: bool|
            {
                &&& #[trigger] crate::vec::detaches(shared, *old(vec), old(slice)@)
                &&& final(vec).spec_capacity() == (if shared {
                    if old(vec)@.len() == 0 {
                        0
                    } else if old(vec)@.len() >= smallest {
                        old(vec)@.len()
                    } else {
                        smallest as nat
                    }
                } else {
                    old(vec).spec_capacity()
                })
            },
{
}

/// Reserving leaves the elements of the detached vector, and its capacity where that
/// suffices. Otherwise it takes the least that is enough for what is asked, at least twice
/// what was there, and at least the smallest capacity.
pub proof fn law_capacity_after_reserving<T: Clone>(
    vec: &mut EcoVec<T>,
    additional: usize,
    smallest: usize,
)
    requires
        vec.wf(),
        vstd::layout::size_of::<T>() > 0,
        call_ensures(crate::layout::min_cap::<T>, (), smallest),
        call_ensures(EcoVec::<T>::reserve, (vec, additional), ()),
    ensures
        exists|shared: bool|
            {
                let own = if shared {
                    if old(vec)@.len() == 0 {
                        0
                    } else if old(vec)@.len() >= smallest {
                        old(vec)@.len()
                    } else {
                        smallest as nat
                    }
                } else {
                    old(vec).spec_capacity()
                };
                let needed = old(vec)@.len() + additional;
                let after = final(vec).spec_capacity();
                &&& #[trigger] crate::vec::detaches(shared, *old(vec), final(vec)@)
                &&& own >= needed ==> after == own
                &&& own < needed ==> {
                    &&& after >= needed && after >= 2 * own && after >= smallest
                    &&& after == needed || after == 2 * own || after == smallest
                }
            },
{
}

/// Adding elements one by one takes the capacity from step to step: the next element
/// leaves it where there is room, and otherwise doubles it, to at least the smallest
/// capacity. Elements without a size get the largest capacity.
pub proof fn law_capacity_step_by_step<T>(len: nat, capacity: nat, count: nat, smallest: usize)
    requires
        call_ensures(crate::layout::min_cap::<T>, (), smallest),
        len <= capacity,
        vstd::layout::size_of::<T>() == 0 ==> capacity == 0 || capacity == isize::MAX,
        len + count < isize::MAX,
    ensures
        crate::layout::pushed::<T>(len, capacity, 0) == capacity,
        ({
            let before = crate::layout::pushed::<T>(len, capacity, count);
            let after = crate::layout::pushed::<T>(len, capacity, count + 1);
            &&& len + count <= before
            &&& len + count < before ==> after == before
            &&& len + count == before && vstd::layout::size_of::<T>() == 0 ==> after == isize::MAX
            &&& len + count == before && vstd::layout::size_of::<T>() > 0 ==> after == (
            if 2 * before >= smallest {
                2 * before
            } else {
                smallest as nat
            })
        }),
    decreases count,
{
    reveal_with_fuel(crate::layout::pushed, 2);
    if count > 0 {
        law_capacity_step_by_step::<T>(
            len + 1,
            crate::layout::reserved::<T>(len, capacity, 1),
            (count - 1) as nat,
            smallest,
        );
    }
}

/// Of elements that are added one by one, all are added up to the first for which the
/// vector has no room and the capacity that it would take is beyond the limit in bytes.
pub proof fn law_adding_up_to_the_limit<T>(
    len: nat,
    capacity: nat,
    count: nat,
    smallest: usize,
    target: nat,
)
    requires
        call_ensures(crate::layout::min_cap::<T>, (), smallest),
        crate::layout::valid_capacity::<T>(len, capacity),
        ({
            let n = crate::layout::pushable::<T>(len, capacity, count);
            let full = crate::layout::pushed::<T>(len, capacity, n);
            &&& target >= len + n + 1 && target >= 2 * full && target >= smallest
            &&& target == len + n + 1 || target == 2 * full || target == smallest
        }),
    ensures
        crate::layout::pushable::<T>(len, capacity, count) <= count,
        crate::layout::pushable::<T>(len, capacity, count) < count ==> {
            &&& len + crate::layout::pushable::<T>(len, capacity, count)
                == crate::layout::pushed::<T>(
                len,
                capacity,
                crate::layout::pushable::<T>(len, capacity, count),
            )
            &&& !({
                let word = vstd::layout::size_of::<usize>();
                let align = if word >= vstd::layout::align_of::<T>() {
                    word
                } else {
                    vstd::layout::align_of::<T>()
                };
                &&& target <= isize::MAX
                &&& (3 * word + align - 1) as nat / align * align + vstd::layout::size_of::<T>()
                    * target + align + 1 <= isize::MAX
            })
        },
    decreases count,
{
    reveal_with_fuel(crate::layout::pushed, 2);
    if count > 0 && crate::layout::can_reserve::<T>(len, capacity, 1) {
        law_adding_up_to_the_limit::<T>(
            len + 1,
            crate::layout::reserved::<T>(len, capacity, 1),
            (count - 1) as nat,
            smallest,
            target,
        );
    } else {
        crate::limit_laws::law_limit::<T>(target);
    }
}

/// Extending takes the capacity that reserving room for the announced elements takes, and
/// from there one element after the other. Where none is announced, the first is added as
/// by `push`; where none comes either, the capacity stays.
pub proof fn law_capacity_of_extensions<T: Clone>(
    shared: bool,
    vec: EcoVec<T>,
    hint: nat,
    count: nat,
)
    requires
        vec.wf(),
    ensures
        crate::extend::extended_capacity::<T>(shared, vec@.len(), vec.spec_capacity(), 0, 0)
            == vec.spec_capacity(),
        hint > 0 ==> crate::extend::extended_capacity::<T>(
            shared,
            vec@.len(),
            vec.spec_capacity(),
            hint,
            count,
        ) == crate::layout::pushed::<T>(
            vec@.len(),
            crate::layout::reserved::<T>(
                vec@.len(),
                crate::vec::detached_capacity::<T>(shared, vec@.len(), vec.spec_capacity()),
                hint,
            ),
            count,
        ),
        count > 0 ==> crate::extend::extended_capacity::<T>(
            shared,
            vec@.len(),
            vec.spec_capacity(),
            0,
            count,
        ) == crate::layout::pushed::<T>(
            vec@.len() + 1,
            crate::vec::roomy_capacity::<T>(shared, vec@.len(), vec.spec_capacity()),
            (count - 1) as nat,
        ),
{
}

/// Extending leaves a capacity that it reached by these steps, and adds nothing else: what
/// stands behind the elements that were there came of the iterator.
pub proof fn law_capacity_after_extending<T: Clone, I: Iterator<Item = T>>(
    vec: &mut EcoVec<T>,
    iter: I,
    hint: usize,
    r: bool,
)
    requires
        vec.wf(),
        call_ensures(EcoVec::<T>::extend_with_hint::<I>, (vec, iter, hint), r),
    ensures
        final(vec)@.len() >= old(vec)@.len(),
        forall|i: int|
            0 <= i < old(vec)@.len() ==> cloned::<T>(#[trigger] old(vec)@[i], final(vec)@[i]),
        hint == 0 && final(vec)@.len() == old(vec)@.len() ==> *final(vec) == *old(vec),
        r ==> exists|shared: bool|
            final(vec).spec_capacity() == #[trigger] crate::extend::extended_capacity::<T>(
                shared,
                old(vec)@.len(),
                old(vec).spec_capacity(),
                hint as nat,
                (final(vec)@.len() - old(vec)@.len()) as nat,
            ),
{
    assert forall|shared: bool, own: Seq<T>| #[trigger]
        crate::extend::extends(
            shared,
            own,
            *vec,
            hint as nat,
            *final(vec),
            r,
        ) implies own.is_prefix_of(final(vec)@) && own.len() == vec@.len() && (forall|i: int|
        0 <= i < vec@.len() ==> cloned::<T>(#[trigger] vec@[i], own[i])) by {
        crate::laws::law_detaching_keeps_elements(shared, vec@, own);
    }
    assert forall|own: Seq<T>, i: int|
        own.is_prefix_of(final(vec)@) && 0 <= i < own.len()
        implies #[trigger] own[i] == final(vec)@[i] by {}
}

/// Extending is refused only at the limit: either room for what was announced is beyond
/// it, for the vector or for a copy of it, and then nothing is added; or the vector is full
/// and the capacity that it would take for another element is beyond it.
pub proof fn law_refused_only_at_the_limit<T: Clone, I: Iterator<Item = T>>(
    vec: &mut EcoVec<T>,
    iter: I,
    hint: usize,
    smallest: usize,
)
    requires
        vec.wf(),
        call_ensures(crate::layout::min_cap::<T>, (), smallest),
        call_ensures(EcoVec::<T>::extend_with_hint::<I>, (vec, iter, hint), false),
    ensures
        ({
            ||| {
                let len = final(vec)@.len();
                let target = if 2 * len >= smallest && 2 * len >= len + 1 {
                    2 * len
                } else {
                    smallest as nat
                };
                &&& len == final(vec).spec_capacity()
                &&& !({
                    let word = vstd::layout::size_of::<usize>();
                    let align = if word >= vstd::layout::align_of::<T>() {
                        word
                    } else {
                        vstd::layout::align_of::<T>()
                    };
                    &&& target <= isize::MAX
                    &&& (3 * word + align - 1) as nat / align * align + vstd::layout::size_of::<T>()
                        * target + align + 1 <= isize::MAX
                })
            }
            ||| exists|shared: bool|
                {
                    let len = old(vec)@.len();
                    let own = #[trigger] crate::vec::detached_capacity::<T>(
                        shared,
                        old(vec)@.len(),
                        old(vec).spec_capacity(),
                    );
                    let target = if len + hint >= 2 * own && len + hint >= smallest {
                        len + hint as nat
                    } else if 2 * own >= smallest {
                        2 * own
                    } else {
                        smallest as nat
                    };
                    &&& hint > 0
                    &&& final(vec)@.len() == len
                    &&& len + hint > own
                    &&& !({
                        let word = vstd::layout::size_of::<usize>();
                        let align = if word >= vstd::layout::align_of::<T>() {
                            word
                        } else {
                            vstd::layout::align_of::<T>()
                        };
                        &&& target <= isize::MAX
                        &&& (3 * word + align - 1) as nat / align * align + vstd::layout::size_of::<T>()
                            * target + align + 1 <= isize::MAX
                    })
                }
        }),
{
    assert forall|n: nat| !#[trigger] crate::layout::can_grow::<T>(n) implies !({
            let word = vstd::layout::size_of::<usize>();
            let align = if word >= vstd::layout::align_of::<T>() {
                word
            } else {
                vstd::layout::align_of::<T>()
            };
            &&& n <= isize::MAX
            &&& (3 * word + align - 1) as nat / align * align + vstd::layout::size_of::<T>() * n
                + align + 1 <= isize::MAX
        }) by {
        crate::limit_laws::law_limit::<T>(n);
    }
}

} // verus!
