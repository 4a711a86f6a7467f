//! Comparison of vectors with vectors, slices, arrays and standard vectors.
use crate::vec::EcoVec;
use std::cmp::Ordering;
use vstd::prelude::*;
use vstd::std_specs::cmp::{
    OrdSpec, PartialEqSpec, PartialEqSpecImpl, PartialOrdSpec, PartialOrdSpecImpl,
};

verus! {

/// Two sequences are equal if they have the same length and their elements are
/// equal place by place.
pub open spec fn seqs_equal<T: PartialEq>(a: Seq<T>, b: Seq<T>) -> bool {
    &&& a.len() == b.len()
    &&& forall|i: int| 0 <= i < a.len() ==> (#[trigger] a[i]).eq_spec(&b[i])
}

/// Whether `r` can come out of comparing two sequences for equality, in terms of
/// what comparing the elements returns: `false` at the first place where `!=` says
/// that they differ, `true` if it says so nowhere.
pub open spec fn equality_outcome<T: PartialEq>(a: Seq<T>, b: Seq<T>, r: bool) -> bool {
    if a.len() != b.len() {
        !r
    } else if r {
        agree_up_to(a, b, a.len() as int)
    } else {
        exists|i: int| #[trigger] differ_at(a, b, i) && agree_up_to(a, b, i)
    }
}

/// The elements at place `i` were found to differ.
pub open spec fn differ_at<T: PartialEq>(a: Seq<T>, b: Seq<T>, i: int) -> bool {
    0 <= i < a.len() && call_ensures(T::ne, (&a[i], &b[i]), true)
}

/// The first `n` elements were not found to differ.
pub open spec fn agree_up_to<T: PartialEq>(a: Seq<T>, b: Seq<T>, n: int) -> bool {
    forall|i: int| 0 <= i < n ==> call_ensures(T::ne, (&(#[trigger] a[i]), &b[i]), false)
}

fn slices_equal<T: PartialEq>(a: &[T], b: &[T]) -> (r: bool)
    ensures
        T::obeys_eq_spec() ==> r == seqs_equal(a@, b@),
        equality_outcome(a@, b@, r),
{
    let len: usize = a.len();
    if len != b.len() {
        return false;
    }
    let mut i: usize = 0;
    while i < len
        invariant
            i <= len,
            len == a@.len() == b@.len(),
            T::obeys_eq_spec() ==> forall|j: int|
                0 <= j < i ==> (#[trigger] a@[j]).eq_spec(&b@[j]),
            agree_up_to(a@, b@, i as int),
        decreases len - i,
    {
        if a[i] != b[i] {
            assert(differ_at(a@, b@, i as int));
            return false;
        }
        i += 1;
    }
    true
}

impl<T: PartialEq> PartialEq for EcoVec<T> {
    fn eq(&self, other: &Self) -> (r: bool)
        ensures
            equality_outcome(self@, other@, r),
    {
        slices_equal(self.as_slice(), other.as_slice())
    }
}

impl<T: PartialEq> PartialEqSpecImpl for EcoVec<T> {
    open spec fn obeys_eq_spec() -> bool {
        T::obeys_eq_spec()
    }

    open spec fn eq_spec(&self, other: &Self) -> bool {
        seqs_equal(self@, other@)
    }
}

impl<T: PartialEq> PartialEq<[T]> for EcoVec<T> {
    fn eq(&self, other: &[T]) -> (r: bool)
        ensures
            equality_outcome(self@, other@, r),
    {
        slices_equal(self.as_slice(), other)
    }
}

impl<T: PartialEq> PartialEqSpecImpl<[T]> for EcoVec<T> {
    open spec fn obeys_eq_spec() -> bool {
        T::obeys_eq_spec()
    }

    open spec fn eq_spec(&self, other: &[T]) -> bool {
        seqs_equal(self@, other@)
    }
}

impl<T: PartialEq, const N: usize> PartialEq<[T; N]> for EcoVec<T> {
    fn eq(&self, other: &[T; N]) -> (r: bool)
        ensures
            equality_outcome(self@, other@, r),
    {
        slices_equal(self.as_slice(), other.as_slice())
    }
}

impl<T: PartialEq, const N: usize> PartialEqSpecImpl<[T; N]> for EcoVec<T> {
    open spec fn obeys_eq_spec() -> bool {
        T::obeys_eq_spec()
    }

    open spec fn eq_spec(&self, other: &[T; N]) -> bool {
        seqs_equal(self@, other@)
    }
}

impl<T: PartialEq> PartialEq<Vec<T>> for EcoVec<T> {
    fn eq(&self, other: &Vec<T>) -> (r: bool)
        ensures
            equality_outcome(self@, other@, r),
    {
        slices_equal(self.as_slice(), other.as_slice())
    }
}

impl<T: PartialEq> PartialEqSpecImpl<Vec<T>> for EcoVec<T> {
    open spec fn obeys_eq_spec() -> bool {
        T::obeys_eq_spec()
    }

    open spec fn eq_spec(&self, other: &Vec<T>) -> bool {
        seqs_equal(self@, other@)
    }
}

impl<T: PartialEq> PartialEq<EcoVec<T>> for [T] {
    fn eq(&self, other: &EcoVec<T>) -> (r: bool)
        ensures
            equality_outcome(self@, other@, r),
    {
        slices_equal(self, other.as_slice())
    }
}

impl<T: PartialEq> PartialEqSpecImpl<EcoVec<T>> for [T] {
    open spec fn obeys_eq_spec() -> bool {
        T::obeys_eq_spec()
    }

    open spec fn eq_spec(&self, other: &EcoVec<T>) -> bool {
        seqs_equal(self@, other@)
    }
}

impl<T: PartialEq, const N: usize> PartialEq<EcoVec<T>> for [T; N] {
    fn eq(&self, other: &EcoVec<T>) -> (r: bool)
        ensures
            equality_outcome(self@, other@, r),
    {
        slices_equal(self.as_slice(), other.as_slice())
    }
}

impl<T: PartialEq, const N: usize> PartialEqSpecImpl<EcoVec<T>> for [T; N] {
    open spec fn obeys_eq_spec() -> bool {
        T::obeys_eq_spec()
    }

    open spec fn eq_spec(&self, other: &EcoVec<T>) -> bool {
        seqs_equal(self@, other@)
    }
}

impl<T: PartialEq> PartialEq<EcoVec<T>> for Vec<T> {
    fn eq(&self, other: &EcoVec<T>) -> (r: bool)
        ensures
            equality_outcome(self@, other@, r),
    {
        slices_equal(self.as_slice(), other.as_slice())
    }
}

impl<T: PartialEq> PartialEqSpecImpl<EcoVec<T>> for Vec<T> {
    open spec fn obeys_eq_spec() -> bool {
        T::obeys_eq_spec()
    }

    open spec fn eq_spec(&self, other: &EcoVec<T>) -> bool {
        seqs_equal(self@, other@)
    }
}

impl<T: Eq> Eq for EcoVec<T> {

}

/// The elements of `s` from place `i` on.
pub open spec fn rest<T>(s: Seq<T>, i: usize) -> Seq<T> {
    s.skip(i as int)
}

/// How two sequences compare of which one is a prefix of the other: the shorter
/// one comes first.
pub open spec fn length_order<T>(a: Seq<T>, b: Seq<T>) -> Ordering {
    if a.len() < b.len() {
        Ordering::Less
    } else if a.len() == b.len() {
        Ordering::Equal
    } else {
        Ordering::Greater
    }
}

/// Lexicographic comparison: the first elements that are not equal decide, and if
/// there are none, the lengths.
pub open spec fn lexicographic_partial<T: PartialOrd>(a: Seq<T>, b: Seq<T>) -> Option<Ordering>
    decreases a.len(),
{
    if a.len() == 0 || b.len() == 0 {
        Some(length_order(a, b))
    } else {
        match a[0].partial_cmp_spec(&b[0]) {
            Some(Ordering::Equal) => lexicographic_partial(a.drop_first(), b.drop_first()),
            other => other,
        }
    }
}

/// Lexicographic comparison by a total order.
pub open spec fn lexicographic<T: Ord>(a: Seq<T>, b: Seq<T>) -> Ordering
    decreases a.len(),
{
    if a.len() == 0 || b.len() == 0 {
        length_order(a, b)
    } else {
        match a[0].cmp_spec(&b[0]) {
            Ordering::Equal => lexicographic(a.drop_first(), b.drop_first()),
            other => other,
        }
    }
}

/// Whether `r` can come out of comparing two sequences, in terms of what comparing
/// the elements returns: the first result other than `Equal`, or else the order of
/// the lengths. `i` is the number of elements that compared as equal.
pub open spec fn partial_outcome<T: PartialOrd>(
    a: Seq<T>,
    b: Seq<T>,
    i: int,
    r: Option<Ordering>,
) -> bool {
    &&& 0 <= i <= a.len()
    &&& i <= b.len()
    &&& forall|j: int|
        0 <= j < i ==> call_ensures(
            T::partial_cmp,
            (&(#[trigger] a[j]), &b[j]),
            Some(Ordering::Equal),
        )
    &&& if i < a.len() && i < b.len() {
        r != Some(Ordering::Equal) && call_ensures(T::partial_cmp, (&a[i], &b[i]), r)
    } else {
        r == Some(length_order(a, b))
    }
}

/// Whether `r` can come out of comparing two sequences by a total order, in the
/// same terms.
pub open spec fn total_outcome<T: Ord>(a: Seq<T>, b: Seq<T>, i: int, r: Ordering) -> bool {
    &&& 0 <= i <= a.len()
    &&& i <= b.len()
    &&& forall|j: int|
        0 <= j < i ==> call_ensures(T::cmp, (&(#[trigger] a[j]), &b[j]), Ordering::Equal)
    &&& if i < a.len() && i < b.len() {
        r != Ordering::Equal && call_ensures(T::cmp, (&a[i], &b[i]), r)
    } else {
        r == length_order(a, b)
    }
}

fn slices_partial_cmp<T: PartialOrd>(a: &[T], b: &[T]) -> (r: Option<Ordering>)
    ensures
        T::obeys_partial_cmp_spec() ==> r == lexicographic_partial(a@, b@),
        exists|i: int| #[trigger] partial_outcome(a@, b@, i, r),
{
    let mut i: usize = 0;
    let ghost mut equal: int = 0;
    assert(rest(a@, i) == a@ && rest(b@, i) == b@);
    while i < a.len() && i < b.len()
        invariant
            i == equal,
            i <= a@.len(),
            i <= b@.len(),
            T::obeys_partial_cmp_spec() ==> lexicographic_partial(a@, b@) == lexicographic_partial(
                rest(a@, i),
                rest(b@, i),
            ),
            forall|j: int|
                0 <= j < equal ==> call_ensures(
                    T::partial_cmp,
                    (&(#[trigger] a@[j]), &b@[j]),
                    Some(Ordering::Equal),
                ),
        decreases a@.len() - i,
    {
        let order = a[i].partial_cmp(&b[i]);
        match order {
            Some(Ordering::Equal) => {},
            _ => {
                assert(partial_outcome(a@, b@, equal, order));
                return order;
            },
        }
        let ghost (a_rest, b_rest) = (rest(a@, i), rest(b@, i));
        i += 1;
        proof {
            equal = equal + 1;
        }
        assert(rest(a@, i) == a_rest.drop_first() && rest(b@, i) == b_rest.drop_first());
    }
    let order = compare_lengths(a, b);
    assert(partial_outcome(a@, b@, equal, Some(order)));
    Some(order)
}

fn slices_cmp<T: Ord>(a: &[T], b: &[T]) -> (r: Ordering)
    ensures
        T::obeys_cmp_spec() ==> r == lexicographic(a@, b@),
        exists|i: int| #[trigger] total_outcome(a@, b@, i, r),
{
    let mut i: usize = 0;
    let ghost mut equal: int = 0;
    assert(rest(a@, i) == a@ && rest(b@, i) == b@);
    while i < a.len() && i < b.len()
        invariant
            i == equal,
            i <= a@.len(),
            i <= b@.len(),
            T::obeys_cmp_spec() ==> lexicographic(a@, b@) == lexicographic(
                rest(a@, i),
                rest(b@, i),
            ),
            forall|j: int|
                0 <= j < equal ==> call_ensures(
                    T::cmp,
                    (&(#[trigger] a@[j]), &b@[j]),
                    Ordering::Equal,
                ),
        decreases a@.len() - i,
    {
        let order = a[i].cmp(&b[i]);
        match order {
            Ordering::Equal => {},
            _ => {
                assert(total_outcome(a@, b@, equal, order));
                return order;
            },
        }
        let ghost (a_rest, b_rest) = (rest(a@, i), rest(b@, i));
        i += 1;
        proof {
            equal = equal + 1;
        }
        assert(rest(a@, i) == a_rest.drop_first() && rest(b@, i) == b_rest.drop_first());
    }
    let order = compare_lengths(a, b);
    assert(total_outcome(a@, b@, equal, order));
    order
}

fn compare_lengths<T>(a: &[T], b: &[T]) -> (r: Ordering)
    ensures
        r == length_order(a@, b@),
{
    if a.len() < b.len() {
        Ordering::Less
    } else if a.len() == b.len() {
        Ordering::Equal
    } else {
        Ordering::Greater
    }
}

impl<T: PartialOrd> PartialOrd for EcoVec<T> {
    fn partial_cmp(&self, other: &Self) -> (r: Option<Ordering>)
        ensures
            exists|i: int| #[trigger] partial_outcome(self@, other@, i, r),
    {
        slices_partial_cmp(self.as_slice(), other.as_slice())
    }
}

impl<T: PartialOrd> PartialOrdSpecImpl for EcoVec<T> {
    open spec fn obeys_partial_cmp_spec() -> bool {
        T::obeys_partial_cmp_spec()
    }

    open spec fn partial_cmp_spec(&self, other: &Self) -> Option<Ordering> {
        lexicographic_partial(self@, other@)
    }
}

impl<T: Ord> EcoVec<T> {
    /// Compares two vectors lexicographically by the total order of their elements.
    pub fn cmp(&self, other: &Self) -> (r: Ordering)
        ensures
            T::obeys_cmp_spec() ==> r == lexicographic(self@, other@),
            exists|i: int| #[trigger] total_outcome(self@, other@, i, r),
    {
        slices_cmp(self.as_slice(), other.as_slice())
    }
}

} // verus!
