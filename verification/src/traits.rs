//! The traits of the standard library that vectors have, apart from comparison.
use crate::std_wrappers::{slice_fmt, slice_hash};
use crate::vec::EcoVec;
use std::borrow::Borrow;
use std::fmt::{Debug, Formatter};
use std::hash::{Hash, Hasher};
use std::ops::Deref;
use vstd::prelude::*;

verus! {

impl<T> Deref for EcoVec<T> {
    type Target = [T];

    fn deref(&self) -> (r: &[T])
        ensures
            r@ == self@,
    {
        self.as_slice()
    }
}

impl<T> Borrow<[T]> for EcoVec<T> {
    fn borrow(&self) -> (r: &[T])
        ensures
            <[T] as View>::view(r) == self@,
    {
        self.as_slice()
    }
}

impl<T> AsRef<[T]> for EcoVec<T> {
    fn as_ref(&self) -> (r: &[T])
        ensures
            r@ == self@,
    {
        self.as_slice()
    }
}

impl<T> Default for EcoVec<T> {
    fn default() -> (r: Self)
        ensures
            r.wf(),
            r@ == Seq::<T>::empty(),
            r.spec_capacity() == 0,
    {
        EcoVec::new()
    }
}

/// Whether `Debug::fmt`, called on `slice` with the formatter `f`, may return `r` and
/// leave the formatter as it is in the end.
pub closed spec fn writes<T: Debug>(
    slice: &[T],
    f: &mut Formatter<'_>,
    r: std::fmt::Result,
) -> bool {
    call_ensures(slice_fmt::<T>, (slice, f), r)
}

/// Whether `Hash::hash`, called on `slice` with the hasher `state`, may leave the hasher
/// as it is in the end.
pub closed spec fn feeds<T: Hash, H: Hasher>(slice: &[T], state: &mut H) -> bool {
    call_ensures(slice_hash::<T, H>, (slice, state), ())
}

/// A vector is written and hashed as the slice of its elements is.
pub(crate) proof fn law_written_and_hashed_as_slices<T: Debug + Hash, H: Hasher>(
    slice: &[T],
    f: &mut Formatter<'_>,
    r: std::fmt::Result,
    state: &mut H,
)
    ensures
        writes(slice, f, r) ==> call_ensures(slice_fmt::<T>, (slice, f), r),
        feeds(slice, state) ==> call_ensures(slice_hash::<T, H>, (slice, state), ()),
{
}

impl<T: Debug> Debug for EcoVec<T> {
    /// Writes the vector as the slice of its elements.
    fn fmt(&self, f: &mut Formatter<'_>) -> (r: std::fmt::Result)
        ensures
            exists|slice: &[T], g: &mut Formatter<'_>|
                {
                    &&& <[T] as View>::view(slice) == self@
                    &&& *g == *old(f)
                    &&& *final(g) == *final(f)
                    &&& #[trigger] writes(slice, g, r)
                },
    {
        assert(forall|slice: &[T], g: &mut Formatter<'_>, r: std::fmt::Result| #[trigger]
            call_ensures(slice_fmt::<T>, (slice, g), r) ==> writes(slice, g, r));
        slice_fmt(self.as_slice(), f)
    }
}

impl<T: Hash> Hash for EcoVec<T> {
    /// Hashes the vector as the slice of its elements.
    fn hash<H: Hasher>(&self, state: &mut H)
        ensures
            exists|slice: &[T], g: &mut H|
                {
                    &&& <[T] as View>::view(slice) == self@
                    &&& *g == *old(state)
                    &&& *final(g) == *final(state)
                    &&& #[trigger] feeds(slice, g)
                },
    {
        assert(forall|slice: &[T], g: &mut H| #[trigger]
            call_ensures(slice_hash::<T, H>, (slice, g), ()) ==> feeds(slice, g));
        slice_hash(self.as_slice(), state)
    }
}

} // verus!
