//! What retaining does with closures that remember: the order of the calls, and what
//! is kept where the answers depend on it.
use crate::buffer::Buffer;
use crate::vec::EcoVec;
use crate::visit::{Visit, Visitor};
use vstd::prelude::*;

verus! {

/// Keeping elements goes place by place: nothing is kept of nothing, one element is
/// kept or not by its own flag, and what is kept of two parts is what is kept of the
/// first followed by what is kept of the second.
pub proof fn law_keeping_place_by_place<T>(
    element: T,
    flag: bool,
    first: Seq<T>,
    first_keep: Seq<bool>,
    second: Seq<T>,
    second_keep: Seq<bool>,
)
    requires
        first.len() == first_keep.len(),
        second.len() == second_keep.len(),
    ensures
        crate::buffer::kept(Seq::<T>::empty(), Seq::<bool>::empty()) == Seq::<T>::empty(),
        crate::buffer::kept(seq![element], seq![flag]) == (if flag {
            seq![element]
        } else {
            Seq::<T>::empty()
        }),
        crate::buffer::kept(first + second, first_keep + second_keep) == crate::buffer::kept(
            first,
            first_keep,
        ) + crate::buffer::kept(second, second_keep),
    decreases second.len(),
{
    assert(seq![element].drop_last() == Seq::<T>::empty());
    assert(Seq::<T>::empty().push(element) == seq![element]);
    assert(seq![flag].last() == flag);
    reveal_with_fuel(crate::buffer::kept, 2);
    if second.len() == 0 {
        assert(first + second == first);
        assert(first_keep + second_keep == first_keep);
    } else {
        law_keeping_place_by_place(
            element,
            flag,
            first,
            first_keep,
            second.drop_last(),
            second_keep.drop_last(),
        );
        assert((first + second).drop_last() == first + second.drop_last());
        assert((first_keep + second_keep).drop_last() == first_keep + second_keep.drop_last());
        assert((first + second).last() == second.last());
        assert((first_keep + second_keep).last() == second_keep.last());
    }
}

/// Every element that is kept was there, and each is kept at most as often as it was
/// there.
pub proof fn law_keeping_adds_nothing<T>(s: Seq<T>, keep: Seq<bool>)
    requires
        s.len() == keep.len(),
    ensures
        crate::buffer::kept(s, keep).len() <= s.len(),
        crate::buffer::kept(s, keep).to_multiset().subset_of(s.to_multiset()),
    decreases s.len(),
{
    broadcast use vstd::seq_lib::group_to_multiset_ensures;

    if s.len() > 0 {
        law_keeping_adds_nothing(s.drop_last(), keep.drop_last());
        assert(s == s.drop_last().push(s.last()));
    } else {
        assert(s == Seq::<T>::empty());
    }
}

/// Retaining is possible with every closure that can be called on the elements and their
/// clones.
pub proof fn law_retaining_is_possible<T: Clone, F: FnMut(&mut T) -> bool>(
    vec: &mut EcoVec<T>,
    f: F,
)
    requires
        vec.wf(),
        forall|x: &mut T, i: int|
            0 <= i < vec@.len() && cloned::<T>(#[trigger] vec@[i], *x) ==> #[trigger] call_requires(
                f,
                (x,),
            ),
    ensures
        call_requires(EcoVec::<T>::retain::<F>, (vec, f)),
{
}

/// Retaining calls the closure once for each element and in the order of the
/// elements: there is a record of its calls, made from none, whose call at each place
/// was given the element at that place, or its clone where the buffer was shared. What
/// the closure left of the elements for which it answered `true` is what the vector
/// holds in the end, in the same order.
pub proof fn law_retaining_in_order<T: Clone, F: FnMut(&mut T) -> bool>(
    vec: &mut EcoVec<T>,
    f: F,
)
    requires
        vec.wf(),
        call_ensures(EcoVec::<T>::retain::<F>, (vec, f), ()),
    ensures
        exists|buf: &mut Buffer<T>, visitor: &mut Visitor<T, F>|
            {
                &&& #[trigger] call_ensures(Buffer::<T>::retain_by::<F>, (buf, visitor), ())
                &&& visitor.closure() == f
                &&& visitor.visits().len() == 0
                &&& final(visitor).visits().len() == old(vec)@.len()
                &&& forall|i: int|
                    0 <= i < old(vec)@.len() ==> cloned::<T>(
                        old(vec)@[i],
                        (#[trigger] final(visitor).visits()[i]).given,
                    )
                &&& final(vec)@ == crate::buffer::kept(
                    final(visitor).visits().map_values(|visit: Visit<T>| visit.left),
                    final(visitor).visits().map_values(|visit: Visit<T>| visit.answer),
                )
            },
{
}

/// What is recorded of each call is what the closure did: given the element at that
/// place, it left and answered this.
pub proof fn law_records_are_calls<T, F: FnMut(&mut T) -> bool>(
    buf: &mut Buffer<T>,
    visitor: &mut Visitor<T, F>,
    i: int,
)
    requires
        buf.wf(),
        visitor.visits().len() == 0,
        call_ensures(Buffer::<T>::retain_by::<F>, (buf, visitor), ()),
        0 <= i < buf@.len(),
    ensures
        final(visitor).visits().len() == old(buf)@.len(),
        final(visitor).visits()[i].given == old(buf)@[i],
        exists|x: &mut T|
            {
                &&& *x == old(buf)@[i]
                &&& *final(x) == final(visitor).visits()[i].left
                &&& #[trigger] call_ensures(
                    old(visitor).closure(),
                    (x,),
                    final(visitor).visits()[i].answer,
                )
            },
{
    assert(crate::buffer::is_index(final(visitor).visits(), i));
}

/// A closure that counts: one that answers `true` for its first `n` calls and `false`
/// for the others, and leaves the elements alone, keeps the first `n` elements.
pub proof fn law_retaining_by_counting<T, F: FnMut(&mut T) -> bool>(
    buf: &mut Buffer<T>,
    visitor: &mut Visitor<T, F>,
    n: int,
)
    requires
        buf.wf(),
        visitor.visits().len() == 0,
        call_ensures(Buffer::<T>::retain_by::<F>, (buf, visitor), ()),
        0 <= n <= buf@.len(),
        forall|k: int|
            0 <= k < final(visitor).visits().len() ==> {
                let visit = #[trigger] final(visitor).visits()[k];
                visit.answer == (k < n) && visit.left == visit.given
            },
    ensures
        final(buf)@ == old(buf)@.take(n),
{
    lemma_counting(buf@, final(visitor).visits(), n);
}

proof fn lemma_counting<T>(elements: Seq<T>, visits: Seq<Visit<T>>, n: int)
    requires
        0 <= n <= elements.len(),
        visits.len() == elements.len(),
        forall|k: int| 0 <= k < visits.len() ==> (#[trigger] visits[k]).given == elements[k],
        forall|k: int|
            0 <= k < visits.len() ==> {
                let visit = #[trigger] visits[k];
                visit.answer == (k < n) && visit.left == visit.given
            },
    ensures
        crate::buffer::kept(
            visits.map_values(|visit: Visit<T>| visit.left),
            visits.map_values(|visit: Visit<T>| visit.answer),
        ) == elements.take(n),
{
    let left = visits.map_values(|visit: Visit<T>| visit.left);
    let answers = visits.map_values(|visit: Visit<T>| visit.answer);
    assert(left == elements);
    assert(left == left.take(n) + left.skip(n));
    assert(answers == answers.take(n) + answers.skip(n));
    if elements.len() > 0 {
        law_keeping_place_by_place(
            elements[0],
            true,
            left.take(n),
            answers.take(n),
            left.skip(n),
            answers.skip(n),
        );
        crate::change_laws::law_keeping_all_or_none(left.take(n), answers.take(n), true);
        crate::change_laws::law_keeping_all_or_none(left.skip(n), answers.skip(n), false);
    } else {
        assert(elements.take(n) == Seq::<T>::empty());
    }
}

/// The same of a vector, where clones are equal to what they are cloned from.
pub proof fn law_retaining_the_first<T: Clone, F: FnMut(&mut T) -> bool>(
    vec: &mut EcoVec<T>,
    f: F,
    n: int,
)
    requires
        vec.wf(),
        crate::laws::faithful_clone::<T>(),
        call_ensures(EcoVec::<T>::retain::<F>, (vec, f), ()),
        0 <= n <= vec@.len(),
        forall|buf: &mut Buffer<T>, visitor: &mut Visitor<T, F>, k: int|
            visitor.closure() == f && visitor.visits().len() == 0 && #[trigger] call_ensures(
                Buffer::<T>::retain_by::<F>,
                (buf, visitor),
                (),
            ) && 0 <= k < final(visitor).visits().len() ==> {
                let visit = #[trigger] final(visitor).visits()[k];
                visit.answer == (k < n) && visit.left == visit.given
            },
    ensures
        final(vec)@ == old(vec)@.take(n),
{
    assert forall|buf: &mut Buffer<T>, visitor: &mut Visitor<T, F>|
        visitor.closure() == f && visitor.visits().len() == 0 && #[trigger] call_ensures(
            Buffer::<T>::retain_by::<F>,
            (buf, visitor),
            (),
        ) implies final(buf)@ == buf@.take(n) || !(0 <= n <= buf@.len()) by {
        if 0 <= n <= buf@.len() {
            lemma_counting(buf@, final(visitor).visits(), n);
        }
    }
    assert forall|shared: bool, own: Seq<T>| #[trigger]
        crate::vec::detaches(shared, *vec, own) implies own == vec@ by {
        crate::laws::law_detaching_keeps_elements(shared, vec@, own);
    }
}

/// What a closure that remembers does is settled by the elements: two closures that
/// answer alike, given the calls that were made before, leave the same elements of
/// buffers that hold the same.
pub proof fn law_retaining_by_memory<T, F: FnMut(&mut T) -> bool, G: FnMut(&mut T) -> bool>(
    a: &mut Buffer<T>,
    f: &mut Visitor<T, F>,
    b: &mut Buffer<T>,
    g: &mut Visitor<T, G>,
    step: spec_fn(Seq<Visit<T>>, T) -> (T, bool),
)
    requires
        a.wf() && b.wf(),
        a@ == b@,
        f.visits().len() == 0 && g.visits().len() == 0,
        call_ensures(Buffer::<T>::retain_by::<F>, (a, f), ()),
        call_ensures(Buffer::<T>::retain_by::<G>, (b, g), ()),
        forall|k: int|
            0 <= k < final(f).visits().len() ==> {
                let visit = #[trigger] final(f).visits()[k];
                (visit.left, visit.answer) == step(final(f).visits().take(k), visit.given)
            },
        forall|k: int|
            0 <= k < final(g).visits().len() ==> {
                let visit = #[trigger] final(g).visits()[k];
                (visit.left, visit.answer) == step(final(g).visits().take(k), visit.given)
            },
    ensures
        final(a)@ == final(b)@,
        final(f).visits() == final(g).visits(),
{
    lemma_memory(a@, final(f).visits(), final(g).visits(), step, a@.len());
}

proof fn lemma_memory<T>(
    elements: Seq<T>,
    a: Seq<Visit<T>>,
    b: Seq<Visit<T>>,
    step: spec_fn(Seq<Visit<T>>, T) -> (T, bool),
    n: nat,
)
    requires
        n <= elements.len(),
        a.len() == elements.len() == b.len(),
        forall|k: int| 0 <= k < a.len() ==> (#[trigger] a[k]).given == elements[k],
        forall|k: int| 0 <= k < b.len() ==> (#[trigger] b[k]).given == elements[k],
        forall|k: int|
            0 <= k < a.len() ==> {
                let visit = #[trigger] a[k];
                (visit.left, visit.answer) == step(a.take(k), visit.given)
            },
        forall|k: int|
            0 <= k < b.len() ==> {
                let visit = #[trigger] b[k];
                (visit.left, visit.answer) == step(b.take(k), visit.given)
            },
    ensures
        a.take(n as int) == b.take(n as int),
        n == elements.len() ==> a == b,
    decreases n,
{
    if n > 0 {
        let last = n - 1;
        lemma_memory(elements, a, b, step, last as nat);
        assert(a[last] == b[last]);
        assert(a.take(n as int) == a.take(last).push(a[last]));
        assert(b.take(n as int) == b.take(last).push(b[last]));
    }
    if n == elements.len() {
        assert(a == a.take(n as int));
        assert(b == b.take(n as int));
    }
}

} // verus!
