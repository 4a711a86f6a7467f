//! What holds of comparing vectors, given that comparing their elements is sound.
use crate::vec::EcoVec;
use std::cmp::Ordering;
use vstd::prelude::*;
use vstd::std_specs::cmp::{OrdSpec, PartialEqSpec, PartialOrdSpec};

verus! {

/// Equality of vectors is symmetric and transitive if that of their elements is.
pub proof fn law_equality<T: PartialEq>()
    requires
        vstd::laws_eq::obeys_eq::<T>(),
    ensures
        vstd::laws_eq::obeys_eq::<EcoVec<T>>(),
{
    reveal(vstd::laws_eq::obeys_eq_spec_properties);
    assert forall|x: EcoVec<T>, y: EcoVec<T>| #[trigger] x.eq_spec(&y) implies y.eq_spec(&x) by {
        assert(forall|i: int| 0 <= i < x@.len() ==> (#[trigger] x@[i]).eq_spec(&y@[i]));
    }
}

/// A vector equals its clones if the elements equal themselves.
pub proof fn law_clone_is_equal<T: PartialEq + Clone>(vec: EcoVec<T>, copy: EcoVec<T>)
    requires
        copy == vec,
        forall|x: T| #[trigger] x.eq_spec(&x),
    ensures
        copy.eq_spec(&vec),
{
}

/// It makes no difference on which side of `==` a vector stands, nor whether it is
/// compared with another vector, a slice, an array or a standard vector of the same
/// elements.
pub proof fn law_mixed_equality<T: PartialEq, const N: usize>(
    a: EcoVec<T>,
    b: EcoVec<T>,
    slice: &[T],
    array: [T; N],
    vec: Vec<T>,
)
    requires
        vstd::laws_eq::obeys_eq::<T>(),
        slice@ == b@,
        array@ == b@,
        vec@ == b@,
    ensures
        a.eq_spec(&b) == b.eq_spec(&a),
        a.eq_spec(slice) == a.eq_spec(&b) && slice.eq_spec(&a) == a.eq_spec(&b),
        a.eq_spec(&array) == a.eq_spec(&b) && array.eq_spec(&a) == a.eq_spec(&b),
        a.eq_spec(&vec) == a.eq_spec(&b) && vec.eq_spec(&a) == a.eq_spec(&b),
{
    law_equality::<T>();
    reveal(vstd::laws_eq::obeys_eq_spec_properties);
    assert(a.eq_spec(&b) == b.eq_spec(&a));
}

/// The total and the partial comparison of sequences agree.
pub proof fn law_orders_agree<T: Ord>(a: Seq<T>, b: Seq<T>)
    requires
        vstd::laws_cmp::obeys_cmp_ord::<T>(),
    ensures
        crate::compare::lexicographic_partial(a, b) == Some(crate::compare::lexicographic(a, b)),
    decreases a.len(),
{
    reveal(vstd::laws_cmp::obeys_cmp_ord);
    if a.len() > 0 && b.len() > 0 {
        law_orders_agree(a.drop_first(), b.drop_first());
    }
}

/// Sequences compare as equal exactly if they are equal.
pub proof fn law_order_equal<T: PartialOrd>(a: Seq<T>, b: Seq<T>)
    requires
        vstd::laws_cmp::obeys_partial_cmp_spec_properties::<T>(),
    ensures
        crate::compare::lexicographic_partial(a, b) == Some(Ordering::Equal)
            <==> crate::compare::seqs_equal(a, b),
    decreases a.len(),
{
    reveal(vstd::laws_cmp::obeys_partial_cmp_spec_properties);
    if a.len() > 0 && b.len() > 0 {
        let (a_rest, b_rest) = (a.drop_first(), b.drop_first());
        law_order_equal(a_rest, b_rest);
        if crate::compare::seqs_equal(a, b) {
            assert forall|i: int| 0 <= i < a_rest.len() implies (#[trigger] a_rest[i]).eq_spec(
                &b_rest[i],
            ) by {
                assert(a[i + 1].eq_spec(&b[i + 1]));
            }
        }
        if a[0].eq_spec(&b[0]) && crate::compare::seqs_equal(a_rest, b_rest) {
            assert forall|i: int| 0 <= i < a.len() implies (#[trigger] a[i]).eq_spec(&b[i]) by {
                if i > 0 {
                    assert(a_rest[i - 1].eq_spec(&b_rest[i - 1]));
                }
            }
        }
    }
}

/// If a sequence comes before another, then the other comes after it.
pub proof fn law_order_reverses<T: PartialOrd>(a: Seq<T>, b: Seq<T>)
    requires
        vstd::laws_cmp::obeys_partial_cmp_spec_properties::<T>(),
    ensures
        crate::compare::lexicographic_partial(a, b) == Some(Ordering::Less)
            <==> crate::compare::lexicographic_partial(b, a) == Some(Ordering::Greater),
    decreases a.len(),
{
    reveal(vstd::laws_cmp::obeys_partial_cmp_spec_properties);
    reveal(vstd::laws_eq::obeys_eq_spec_properties);
    if a.len() > 0 && b.len() > 0 {
        law_order_reverses(a.drop_first(), b.drop_first());
        assert(a[0].partial_cmp_spec(&b[0]) == Some(Ordering::Equal)
            <==> b[0].partial_cmp_spec(&a[0]) == Some(Ordering::Equal)) by {
            assert(a[0].eq_spec(&b[0]) <==> b[0].eq_spec(&a[0]));
        }
    }
}

/// The order of sequences is transitive if their elements are totally ordered.
pub proof fn law_order_transitive<T: Ord>(a: Seq<T>, b: Seq<T>, c: Seq<T>)
    requires
        vstd::laws_cmp::obeys_cmp::<T>(),
        crate::compare::lexicographic(a, b) == Ordering::Less,
        crate::compare::lexicographic(b, c) == Ordering::Less,
    ensures
        crate::compare::lexicographic(a, c) == Ordering::Less,
    decreases a.len(),
{
    reveal(vstd::laws_cmp::obeys_cmp_ord);
    reveal(vstd::laws_cmp::obeys_partial_cmp_spec_properties);
    reveal(vstd::laws_eq::obeys_eq_spec_properties);
    if a.len() > 0 && b.len() > 0 && c.len() > 0 {
        let (x, y, z) = (a[0], b[0], c[0]);
        let xy = x.cmp_spec(&y);
        let yz = y.cmp_spec(&z);
        let xz = x.cmp_spec(&z);
        assert(x.partial_cmp_spec(&y) == Some(xy));
        assert(y.partial_cmp_spec(&z) == Some(yz));
        assert(x.partial_cmp_spec(&z) == Some(xz));
        assert(z.partial_cmp_spec(&y) == Some(z.cmp_spec(&y)));
        assert(y.partial_cmp_spec(&x) == Some(y.cmp_spec(&x)));
        assert(z.partial_cmp_spec(&x) == Some(z.cmp_spec(&x)));
        if xy == Ordering::Equal && yz == Ordering::Equal {
            assert(x.eq_spec(&y) && y.eq_spec(&z));
            assert(x.eq_spec(&z));
            law_order_transitive(a.drop_first(), b.drop_first(), c.drop_first());
        } else {
            assert(xz == Ordering::Less) by {
                if xz == Ordering::Equal {
                    assert(x.eq_spec(&z) && z.eq_spec(&x));
                    if xy == Ordering::Equal {
                        assert(y.eq_spec(&x));
                        assert(y.eq_spec(&z));
                    } else if yz == Ordering::Equal {
                        assert(z.eq_spec(&y));
                        assert(x.eq_spec(&y));
                    }
                }
            }
        }
    }
}

/// The first place where two vectors do not compare as equal decides, whatever comes
/// behind it and however long the vectors are.
pub proof fn law_first_difference_decides<T: Ord>(
    a: EcoVec<T>,
    b: EcoVec<T>,
    i: int,
    r: Ordering,
)
    requires
        T::obeys_cmp_spec(),
        call_ensures(EcoVec::<T>::cmp, (&a, &b), r),
        0 <= i < a@.len(),
        i < b@.len(),
        forall|j: int| 0 <= j < i ==> (#[trigger] a@[j]).cmp_spec(&b@[j]) == Ordering::Equal,
        a@[i].cmp_spec(&b@[i]) != Ordering::Equal,
    ensures
        r == a@[i].cmp_spec(&b@[i]),
{
    lemma_first_difference(a@, b@, i);
}

proof fn lemma_first_difference<T: Ord>(a: Seq<T>, b: Seq<T>, i: int)
    requires
        0 <= i < a.len(),
        i < b.len(),
        forall|j: int| 0 <= j < i ==> (#[trigger] a[j]).cmp_spec(&b[j]) == Ordering::Equal,
        a[i].cmp_spec(&b[i]) != Ordering::Equal,
    ensures
        crate::compare::lexicographic(a, b) == a[i].cmp_spec(&b[i]),
    decreases i,
{
    if i > 0 {
        assert(a[0].cmp_spec(&b[0]) == Ordering::Equal);
        lemma_first_difference(a.drop_first(), b.drop_first(), i - 1);
    }
}

/// Where two vectors compare as equal in all places that both have, the shorter one
/// comes first.
pub proof fn law_prefix_comes_first<T: Ord>(a: EcoVec<T>, b: EcoVec<T>, r: Ordering)
    requires
        T::obeys_cmp_spec(),
        call_ensures(EcoVec::<T>::cmp, (&a, &b), r),
        forall|j: int|
            0 <= j < a@.len() && j < b@.len() ==> (#[trigger] a@[j]).cmp_spec(&b@[j])
                == Ordering::Equal,
    ensures
        r == Ordering::Less <==> a@.len() < b@.len(),
        r == Ordering::Equal <==> a@.len() == b@.len(),
        r == Ordering::Greater <==> a@.len() > b@.len(),
{
    lemma_prefix(a@, b@);
}

proof fn lemma_prefix<T: Ord>(a: Seq<T>, b: Seq<T>)
    requires
        forall|j: int|
            0 <= j < a.len() && j < b.len() ==> (#[trigger] a[j]).cmp_spec(&b[j])
                == Ordering::Equal,
    ensures
        crate::compare::lexicographic(a, b) == Ordering::Less <==> a.len() < b.len(),
        crate::compare::lexicographic(a, b) == Ordering::Equal <==> a.len() == b.len(),
    decreases a.len(),
{
    if a.len() > 0 && b.len() > 0 {
        assert(a[0].cmp_spec(&b[0]) == Ordering::Equal);
        lemma_prefix(a.drop_first(), b.drop_first());
    }
}

/// The first place where the partial comparison does not find equal elements decides
/// it, also where it finds them incomparable.
pub proof fn law_first_difference_decides_partial<T: PartialOrd>(
    a: EcoVec<T>,
    b: EcoVec<T>,
    i: int,
    r: Option<Ordering>,
)
    requires
        T::obeys_partial_cmp_spec(),
        call_ensures(EcoVec::<T>::partial_cmp, (&a, &b), r),
        0 <= i < a@.len(),
        i < b@.len(),
        forall|j: int|
            0 <= j < i ==> (#[trigger] a@[j]).partial_cmp_spec(&b@[j]) == Some(Ordering::Equal),
        a@[i].partial_cmp_spec(&b@[i]) != Some(Ordering::Equal),
    ensures
        r == a@[i].partial_cmp_spec(&b@[i]),
        a.partial_cmp_spec(&b) == a@[i].partial_cmp_spec(&b@[i]),
{
    lemma_first_difference_partial(a@, b@, i);
}

proof fn lemma_first_difference_partial<T: PartialOrd>(a: Seq<T>, b: Seq<T>, i: int)
    requires
        0 <= i < a.len(),
        i < b.len(),
        forall|j: int|
            0 <= j < i ==> (#[trigger] a[j]).partial_cmp_spec(&b[j]) == Some(Ordering::Equal),
        a[i].partial_cmp_spec(&b[i]) != Some(Ordering::Equal),
    ensures
        crate::compare::lexicographic_partial(a, b) == a[i].partial_cmp_spec(&b[i]),
    decreases i,
{
    if i > 0 {
        assert(a[0].partial_cmp_spec(&b[0]) == Some(Ordering::Equal));
        lemma_first_difference_partial(a.drop_first(), b.drop_first(), i - 1);
    }
}

/// Where the partial comparison finds equal elements in all places that both vectors
/// have, the shorter one comes first.
pub proof fn law_prefix_comes_first_partial<T: PartialOrd>(
    a: EcoVec<T>,
    b: EcoVec<T>,
    r: Option<Ordering>,
)
    requires
        T::obeys_partial_cmp_spec(),
        call_ensures(EcoVec::<T>::partial_cmp, (&a, &b), r),
        forall|j: int|
            0 <= j < a@.len() && j < b@.len() ==> (#[trigger] a@[j]).partial_cmp_spec(&b@[j])
                == Some(Ordering::Equal),
    ensures
        r == a.partial_cmp_spec(&b),
        r is Some,
        r == Some(Ordering::Less) <==> a@.len() < b@.len(),
        r == Some(Ordering::Equal) <==> a@.len() == b@.len(),
        r == Some(Ordering::Greater) <==> a@.len() > b@.len(),
{
    lemma_prefix_partial(a@, b@);
}

proof fn lemma_prefix_partial<T: PartialOrd>(a: Seq<T>, b: Seq<T>)
    requires
        forall|j: int|
            0 <= j < a.len() && j < b.len() ==> (#[trigger] a[j]).partial_cmp_spec(&b[j])
                == Some(Ordering::Equal),
    ensures
        crate::compare::lexicographic_partial(a, b) is Some,
        crate::compare::lexicographic_partial(a, b) == Some(Ordering::Less) <==> a.len() < b.len(),
        crate::compare::lexicographic_partial(a, b) == Some(Ordering::Equal) <==> a.len()
            == b.len(),
    decreases a.len(),
{
    if a.len() > 0 && b.len() > 0 {
        assert(a[0].partial_cmp_spec(&b[0]) == Some(Ordering::Equal));
        lemma_prefix_partial(a.drop_first(), b.drop_first());
    }
}

/// Whatever comparing the elements does, comparing vectors returns its first answer
/// other than `Equal`, asked place by place from the start; if there is none in all
/// places that both have, the lengths decide.
pub proof fn law_comparing_place_by_place<T: Ord>(a: EcoVec<T>, b: EcoVec<T>, r: Ordering)
    requires
        call_ensures(EcoVec::<T>::cmp, (&a, &b), r),
    ensures
        exists|i: int|
            #![trigger a@[i]]
            {
                &&& 0 <= i <= a@.len() && i <= b@.len()
                &&& forall|j: int|
                    0 <= j < i ==> call_ensures(
                        T::cmp,
                        (&(#[trigger] a@[j]), &b@[j]),
                        Ordering::Equal,
                    )
                &&& i < a@.len() && i < b@.len() ==> r != Ordering::Equal && call_ensures(
                    T::cmp,
                    (&a@[i], &b@[i]),
                    r,
                )
                &&& i == a@.len() && i < b@.len() ==> r == Ordering::Less
                &&& i < a@.len() && i == b@.len() ==> r == Ordering::Greater
                &&& i == a@.len() && i == b@.len() ==> r == Ordering::Equal
            },
{
    let i = choose|i: int| #[trigger] crate::compare::total_outcome(a@, b@, i, r);
    let _ = a@[i];
}

/// The same of the partial comparison.
pub proof fn law_comparing_place_by_place_partial<T: PartialOrd>(
    a: EcoVec<T>,
    b: EcoVec<T>,
    r: Option<Ordering>,
)
    requires
        call_ensures(EcoVec::<T>::partial_cmp, (&a, &b), r),
    ensures
        exists|i: int|
            #![trigger a@[i]]
            {
                &&& 0 <= i <= a@.len() && i <= b@.len()
                &&& forall|j: int|
                    0 <= j < i ==> call_ensures(
                        T::partial_cmp,
                        (&(#[trigger] a@[j]), &b@[j]),
                        Some(Ordering::Equal),
                    )
                &&& i < a@.len() && i < b@.len() ==> r != Some(Ordering::Equal) && call_ensures(
                    T::partial_cmp,
                    (&a@[i], &b@[i]),
                    r,
                )
                &&& i == a@.len() && i < b@.len() ==> r == Some(Ordering::Less)
                &&& i < a@.len() && i == b@.len() ==> r == Some(Ordering::Greater)
                &&& i == a@.len() && i == b@.len() ==> r == Some(Ordering::Equal)
            },
{
    let i = choose|i: int| #[trigger] crate::compare::partial_outcome(a@, b@, i, r);
    let _ = a@[i];
}

/// Two vectors are equal exactly if they have the same length and equal elements in
/// all places, and so are a vector and a slice, an array or a standard vector, on
/// either side.
pub proof fn law_equality_place_by_place<T: PartialEq, const N: usize>(
    a: EcoVec<T>,
    b: EcoVec<T>,
    slice: &[T],
    array: [T; N],
    vec: Vec<T>,
)
    ensures
        a.eq_spec(&b) <==> a@.len() == b@.len() && forall|i: int|
            0 <= i < a@.len() ==> (#[trigger] a@[i]).eq_spec(&b@[i]),
        a.eq_spec(slice) <==> a@.len() == slice@.len() && forall|i: int|
            0 <= i < a@.len() ==> (#[trigger] a@[i]).eq_spec(&slice@[i]),
        a.eq_spec(&array) <==> a@.len() == array@.len() && forall|i: int|
            0 <= i < a@.len() ==> (#[trigger] a@[i]).eq_spec(&array@[i]),
        a.eq_spec(&vec) <==> a@.len() == vec@.len() && forall|i: int|
            0 <= i < a@.len() ==> (#[trigger] a@[i]).eq_spec(&vec@[i]),
        slice.eq_spec(&a) <==> slice@.len() == a@.len() && forall|i: int|
            0 <= i < a@.len() ==> (#[trigger] slice@[i]).eq_spec(&a@[i]),
        array.eq_spec(&a) <==> array@.len() == a@.len() && forall|i: int|
            0 <= i < a@.len() ==> (#[trigger] array@[i]).eq_spec(&a@[i]),
        vec.eq_spec(&a) <==> vec@.len() == a@.len() && forall|i: int|
            0 <= i < a@.len() ==> (#[trigger] vec@[i]).eq_spec(&a@[i]),
{
}

/// What `==` returns of two vectors is whether they have the same length and equal
/// elements in all places, wherever the elements have a meaning for `==`.
pub proof fn law_equal_vectors<T: PartialEq>(a: EcoVec<T>, b: EcoVec<T>, r: bool)
    requires
        T::obeys_eq_spec(),
        call_ensures(<EcoVec<T> as PartialEq>::eq, (&a, &b), r),
    ensures
        r <==> a@.len() == b@.len() && forall|i: int|
            0 <= i < a@.len() ==> (#[trigger] a@[i]).eq_spec(&b@[i]),
{
}

/// What `==` returns of a vector and a slice, an array or a standard vector is whether
/// they have the same length and equal elements in all places.
pub proof fn law_equal_on_the_left<T: PartialEq, const N: usize>(
    a: EcoVec<T>,
    slice: &[T],
    array: [T; N],
    vec: Vec<T>,
    with_slice: bool,
    with_array: bool,
    with_vec: bool,
)
    requires
        T::obeys_eq_spec(),
        call_ensures(<EcoVec<T> as PartialEq<[T]>>::eq, (&a, slice), with_slice),
        call_ensures(<EcoVec<T> as PartialEq<[T; N]>>::eq, (&a, &array), with_array),
        call_ensures(<EcoVec<T> as PartialEq<Vec<T>>>::eq, (&a, &vec), with_vec),
    ensures
        with_slice <==> a@.len() == slice@.len() && forall|i: int|
            0 <= i < a@.len() ==> (#[trigger] a@[i]).eq_spec(&slice@[i]),
        with_array <==> a@.len() == array@.len() && forall|i: int|
            0 <= i < a@.len() ==> (#[trigger] a@[i]).eq_spec(&array@[i]),
        with_vec <==> a@.len() == vec@.len() && forall|i: int|
            0 <= i < a@.len() ==> (#[trigger] a@[i]).eq_spec(&vec@[i]),
{
}

/// The same with the vector on the right.
pub proof fn law_equal_on_the_right<T: PartialEq, const N: usize>(
    a: EcoVec<T>,
    slice: &[T],
    array: [T; N],
    vec: Vec<T>,
    with_slice: bool,
    with_array: bool,
    with_vec: bool,
)
    requires
        T::obeys_eq_spec(),
        call_ensures(<[T] as PartialEq<EcoVec<T>>>::eq, (slice, &a), with_slice),
        call_ensures(<[T; N] as PartialEq<EcoVec<T>>>::eq, (&array, &a), with_array),
        call_ensures(<Vec<T> as PartialEq<EcoVec<T>>>::eq, (&vec, &a), with_vec),
    ensures
        with_slice <==> slice@.len() == a@.len() && forall|i: int|
            0 <= i < a@.len() ==> (#[trigger] slice@[i]).eq_spec(&a@[i]),
        with_array <==> array@.len() == a@.len() && forall|i: int|
            0 <= i < a@.len() ==> (#[trigger] array@[i]).eq_spec(&a@[i]),
        with_vec <==> vec@.len() == a@.len() && forall|i: int|
            0 <= i < a@.len() ==> (#[trigger] vec@[i]).eq_spec(&a@[i]),
{
}

/// Whatever comparing the elements does, vectors are found equal exactly if they have
/// the same length and asking place by place, from the start, whether the elements
/// differ is answered `false` everywhere.
pub proof fn law_equality_by_answers<T: PartialEq>(a: Seq<T>, b: Seq<T>, r: bool)
    requires
        crate::compare::equality_outcome(a, b, r),
    ensures
        r ==> a.len() == b.len() && forall|i: int|
            0 <= i < a.len() ==> call_ensures(T::ne, (&(#[trigger] a[i]), &b[i]), false),
        !r && a.len() == b.len() ==> exists|i: int|
            #![trigger a[i]]
            {
                &&& 0 <= i < a.len()
                &&& call_ensures(T::ne, (&a[i], &b[i]), true)
                &&& forall|j: int|
                    0 <= j < i ==> call_ensures(T::ne, (&(#[trigger] a[j]), &b[j]), false)
            },
{
    if !r && a.len() == b.len() {
        let i = choose|i: int| #[trigger]
            crate::compare::differ_at(a, b, i) && crate::compare::agree_up_to(a, b, i);
        let _ = a[i];
    }
}

} // verus!
