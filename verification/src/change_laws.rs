//! What each change makes of the elements of a vector, whether or not its buffer
//! was shared.
use crate::vec::EcoVec;
use vstd::prelude::*;

verus! {

/// Popping takes the last element and leaves the others. Only a vector without
/// elements has none to give, and it stays as it is.
pub proof fn law_popping<T: Clone>(before: EcoVec<T>, popped: Option<T>, after: EcoVec<T>)
    requires
        crate::vec::after_pop(before, popped, after),
    ensures
        popped is None <==> before@.len() == 0,
        popped is None ==> after == before,
        popped matches Some(last) ==> {
            &&& cloned::<T>(before@.last(), last)
            &&& after@.len() == before@.len() - 1
            &&& forall|i: int|
                0 <= i < after@.len() ==> cloned::<T>(before@[i], #[trigger] after@[i])
            &&& crate::laws::faithful_clone::<T>() ==> last == before@.last() && after@
                == before@.drop_last()
        },
{
    if before@.len() > 0 {
        let (shared, own) = choose|shared: bool, own: Seq<T>|
            {
                &&& #[trigger] crate::vec::detaches(shared, before, own)
                &&& popped == Some(own.last())
                &&& after@ == own.drop_last()
            };
        crate::laws::law_detaching_keeps_elements(shared, before@, own);
        assert(cloned::<T>(before@[before@.len() - 1], own[before@.len() - 1]));
        assert forall|i: int| 0 <= i < after@.len() implies cloned::<T>(
            before@[i],
            #[trigger] after@[i],
        ) by {
            assert(cloned::<T>(before@[i], own[i]));
        }
    }
}

/// Inserting puts the value at its position, between the elements that were before
/// that position and those that were not.
pub proof fn law_inserting<T: Clone>(
    before: EcoVec<T>,
    index: int,
    value: T,
    after: EcoVec<T>,
)
    requires
        0 <= index <= before@.len(),
        crate::vec::after_insert(before, index, value, after),
    ensures
        after@.len() == before@.len() + 1,
        after@[index] == value,
        forall|i: int|
            0 <= i < index ==> cloned::<T>(#[trigger] before@[i], after@[i]),
        forall|i: int|
            index <= i < before@.len() ==> cloned::<T>(#[trigger] before@[i], after@[i + 1]),
        crate::laws::faithful_clone::<T>() ==> after@ == before@.insert(index, value),
{
    let (shared, own) = choose|shared: bool, own: Seq<T>|
        {
            &&& #[trigger] crate::vec::detaches(shared, before, own)
            &&& after@ == own.insert(index, value)
        };
    crate::laws::law_detaching_keeps_elements(shared, before@, own);
}

/// Removing takes the element at a position and closes the gap.
pub proof fn law_removing<T: Clone>(before: EcoVec<T>, index: int, removed: T, after: EcoVec<T>)
    requires
        0 <= index < before@.len(),
        crate::vec::after_remove(before, index, removed, after),
    ensures
        cloned::<T>(before@[index], removed),
        after@.len() == before@.len() - 1,
        forall|i: int|
            0 <= i < index ==> cloned::<T>(#[trigger] before@[i], after@[i]),
        forall|i: int|
            index < i < before@.len() ==> cloned::<T>(#[trigger] before@[i], after@[i - 1]),
        crate::laws::faithful_clone::<T>() ==> removed == before@[index] && after@
            == before@.remove(index),
{
    let (shared, own) = choose|shared: bool, own: Seq<T>|
        {
            &&& #[trigger] crate::vec::detaches(shared, before, own)
            &&& removed == own[index]
            &&& after@ == own.remove(index)
        };
    crate::laws::law_detaching_keeps_elements(shared, before@, own);
}

/// Truncating keeps as many of the first elements as it is told, or all if there
/// are no more than that.
pub proof fn law_truncating<T: Clone>(before: EcoVec<T>, target: int, after: EcoVec<T>)
    requires
        target >= 0,
        crate::vec::after_truncate(before, target, after),
    ensures
        target >= before@.len() ==> after == before,
        target < before@.len() ==> {
            &&& after@.len() == target
            &&& forall|i: int|
                0 <= i < target ==> cloned::<T>(#[trigger] before@[i], after@[i])
            &&& crate::laws::faithful_clone::<T>() ==> after@ == before@.take(target)
        },
{
    if target < before@.len() {
        let (shared, own) = choose|shared: bool, own: Seq<T>|
            {
                &&& #[trigger] crate::vec::detaches(shared, before, own)
                &&& after@ == own.take(target)
            };
        crate::laws::law_detaching_keeps_elements(shared, before@, own);
    }
}

/// Reserving keeps the elements and leaves room for as many more as were asked for.
pub proof fn law_reserving<T: Clone>(before: EcoVec<T>, additional: nat, after: EcoVec<T>)
    requires
        before.wf(),
        forall|shared: bool|
            crate::layout::can_reserve::<T>(
                before@.len(),
                #[trigger] crate::vec::detached_capacity::<T>(
                    shared,
                    before@.len(),
                    before.spec_capacity(),
                ),
                additional,
            ),
        crate::vec::after_reserve(before, additional, after),
    ensures
        after@.len() == before@.len(),
        forall|i: int|
            0 <= i < before@.len() ==> cloned::<T>(#[trigger] before@[i], after@[i]),
        crate::laws::faithful_clone::<T>() ==> after@ == before@,
        after.spec_capacity() - after@.len() >= additional,
{
    let shared = choose|shared: bool|
        {
            &&& #[trigger] crate::vec::detaches(shared, before, after@)
            &&& after.spec_capacity() == crate::layout::reserved::<T>(
                before@.len(),
                crate::vec::detached_capacity::<T>(shared, before@.len(), before.spec_capacity()),
                additional,
            )
        };
    crate::laws::law_detaching_keeps_elements(shared, before@, after@);
    crate::laws::law_detaching_keeps_bounds(shared, before);
}

/// Reserving once more, for no more than before and while no other vector shares
/// the buffer, changes nothing. The requirements are what `reserve` promises, the
/// second time of a vector that is not shared.
pub proof fn law_reserving_again<T: Clone>(
    before: EcoVec<T>,
    additional: nat,
    reserved: EcoVec<T>,
    again: nat,
    after: EcoVec<T>,
)
    requires
        before.wf(),
        crate::vec::after_reserve(before, additional, reserved),
        reserved.spec_capacity() - reserved@.len() >= additional,
        again <= additional,
        crate::vec::detached(false, reserved@, after@),
        after.spec_capacity() == crate::layout::reserved::<T>(
            reserved@.len(),
            crate::vec::detached_capacity::<T>(false, reserved@.len(), reserved.spec_capacity()),
            again,
        ),
    ensures
        after@ == reserved@,
        after.spec_capacity() == reserved.spec_capacity(),
{
}

/// The slice for changing a vector in place starts out with its elements, and what
/// is written to it is what the vector holds in the end. The requirements are what
/// `make_mut` promises of the elements that it hands out and of the vector `after`,
/// once `written` stands in the slice.
pub proof fn law_changing_in_place<T: Clone>(
    shared: bool,
    before: EcoVec<T>,
    handed_out: Seq<T>,
    written: Seq<T>,
    after: EcoVec<T>,
)
    requires
        before.wf(),
        crate::vec::detached(shared, before@, handed_out),
        written.len() == handed_out.len(),
        after@ == written,
        after.spec_capacity() == crate::vec::detached_capacity::<T>(
            shared,
            before@.len(),
            before.spec_capacity(),
        ),
    ensures
        after.wf(),
        after@.len() == before@.len(),
        forall|i: int|
            0 <= i < before@.len() ==> cloned::<T>(#[trigger] before@[i], handed_out[i]),
        crate::laws::faithful_clone::<T>() ==> handed_out == before@,
        crate::laws::faithful_clone::<T>() ==> forall|i: int, value: T|
            0 <= i < before@.len() && written == #[trigger] handed_out.update(i, value) ==> after@
                == before@.update(i, value),
{
    crate::laws::law_detaching_keeps_elements(shared, before@, handed_out);
    crate::laws::law_detaching_keeps_bounds(shared, before);
}

/// Extending keeps the elements and puts behind them those that are added: all that
/// come, or only the first of them if there was not enough room. The requirement is
/// what `extend_with_hint` promises of an iterator that keeps to the laws.
pub proof fn law_extending<T: Clone>(
    shared: bool,
    own: Seq<T>,
    before: EcoVec<T>,
    hint: nat,
    items: Seq<T>,
    after: EcoVec<T>,
    done: bool,
)
    requires
        crate::extend::extension(shared, own, before, hint, items, after, done),
    ensures
        before@.len() <= after@.len() <= before@.len() + items.len(),
        done ==> after@.len() == before@.len() + items.len(),
        forall|i: int|
            0 <= i < before@.len() ==> cloned::<T>(#[trigger] before@[i], after@[i]),
        after@.skip(before@.len() as int) == items.take(after@.len() - before@.len()),
        crate::laws::faithful_clone::<T>() && done ==> after@ == before@ + items,
{
    let len = before@.len();
    let capacity = before.spec_capacity();
    let own_capacity = crate::vec::detached_capacity::<T>(shared, len, capacity);
    crate::layout::lemma_pushable::<T>(
        len,
        crate::layout::reserved::<T>(len, own_capacity, hint),
        items.len(),
    );
    if items.len() > 0 {
        crate::layout::lemma_pushable::<T>(
            len + 1,
            crate::vec::roomy_capacity::<T>(shared, len, capacity),
            (items.len() - 1) as nat,
        );
    }
    crate::laws::law_detaching_keeps_elements(shared, before@, own);
    assert(items.take(items.len() as int) == items);
}

/// Keeping every element changes nothing, and keeping none leaves nothing.
pub proof fn law_keeping_all_or_none<T>(s: Seq<T>, keep: Seq<bool>, all: bool)
    requires
        keep.len() == s.len(),
        forall|i: int| 0 <= i < s.len() ==> #[trigger] keep[i] == all,
    ensures
        crate::buffer::kept(s, keep) == (if all {
            s
        } else {
            Seq::empty()
        }),
    decreases s.len(),
{
    if s.len() > 0 {
        law_keeping_all_or_none(s.drop_last(), keep.drop_last(), all);
        assert(keep[s.len() - 1] == all);
        assert(s.drop_last().push(s.last()) == s);
    } else {
        assert(s == Seq::<T>::empty());
    }
}

/// Retaining by what is always true, and leaves the elements alone, keeps them all;
/// retaining by what is always false keeps none. The requirements are what `retain`
/// promises of `own`, the elements of the detached vector, and of `after`, those
/// that it keeps.
pub proof fn law_retaining_all_or_none<T: Clone, F: FnMut(&mut T) -> bool>(
    f: F,
    all: bool,
    shared: bool,
    before: Seq<T>,
    own: Seq<T>,
    changed: Seq<T>,
    keep: Seq<bool>,
    after: Seq<T>,
)
    requires
        forall|x: &mut T, r: bool| #[trigger]
            call_ensures(f, (x,), r) ==> r == all && (all ==> *final(x) == *x),
        crate::vec::detached(shared, before, own),
        changed.len() == own.len(),
        keep.len() == own.len(),
        forall|i: int| #[trigger]
            crate::buffer::is_index(changed, i) ==> exists|x: &mut T|
                {
                    &&& *x == own[i]
                    &&& *final(x) == changed[i]
                    &&& #[trigger] call_ensures(f, (x,), keep[i])
                },
        after == crate::buffer::kept(changed, keep),
    ensures
        all ==> after == own,
        all && crate::laws::faithful_clone::<T>() ==> after == before,
        !all ==> after.len() == 0,
{
    assert forall|i: int| 0 <= i < own.len() implies #[trigger] keep[i] == all by {
        assert(crate::buffer::is_index(changed, i));
    }
    if all {
        assert forall|i: int| 0 <= i < own.len() implies #[trigger] changed[i] == own[i] by {
            assert(crate::buffer::is_index(changed, i));
        }
        assert(changed == own);
    }
    law_keeping_all_or_none(changed, keep, all);
    crate::laws::law_detaching_keeps_elements(shared, before, own);
}

} // verus!
