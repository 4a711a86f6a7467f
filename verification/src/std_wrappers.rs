//! The operations of the standard library that the crate relies on without proof.
use std::fmt::{Debug, Formatter};
use std::hash::{Hash, Hasher};
use std::sync::Arc;
use vstd::prelude::*;

verus! {

/// The error type `std::fmt::Error`, of which nothing is said.
#[verifier::external_type_specification]
#[verifier::external_body]
pub struct ExFmtError(std::fmt::Error);

/// The type `std::fmt::Formatter`, of which nothing is said.
#[verifier::external_type_specification]
#[verifier::external_body]
pub struct ExFormatter<'a>(Formatter<'a>);

/// Calls `Arc::make_mut`: mutable access to what `this` points to, after giving
/// `this` a value of its own if others point to the same one.
///
/// The contract says that the value handed out is the one that was there, or a
/// clone of it, and that what is written through the reference is what `this`
/// holds afterwards. Which of the two it is depends on how many pointers to the
/// value are alive, of which nothing is said.
#[verifier::external_body]
pub(crate) fn arc_make_mut<B: Clone>(this: &mut Arc<B>) -> (value: &mut B)
    ensures
        cloned::<B>(**old(this), *value),
        **final(this) == *final(value),
{
    Arc::make_mut(this)
}

/// Calls `Arc::get_mut`: mutable access to what `this` points to, unless others
/// point to the same value.
///
/// The contract says that the value handed out is the one that was there, that
/// what is written through the reference is what `this` holds afterwards, and that
/// `this` is left as it was if no reference is handed out. When that happens
/// depends on how many pointers to the value are alive, of which nothing is said.
#[verifier::external_body]
pub(crate) fn arc_get_mut<B>(this: &mut Arc<B>) -> (value: Option<&mut B>)
    ensures
        match value {
            Some(value) => *value == **old(this) && **final(this) == *final(value),
            None => **final(this) == **old(this),
        },
{
    Arc::get_mut(this)
}

/// Calls `Vec::reserve_exact`, which allocates room for `additional` more elements
/// and panics if their number overflows or if the vector would exceed `isize::MAX`
/// bytes.
///
/// The contract says that the elements stay as they are. What is allocated does not
/// show in them.
#[verifier::external_body]
pub(crate) fn vec_reserve_exact<T>(vec: &mut Vec<T>, additional: usize)
    requires
        old(vec)@.len() + additional <= usize::MAX,
        (old(vec)@.len() + additional) * vstd::layout::size_of::<T>() <= isize::MAX,
    ensures
        final(vec)@ == old(vec)@,
{
    vec.reserve_exact(additional)
}

/// Calls `Iterator::size_hint` and returns the lower bound. Nothing is said of it:
/// iterators are asked to keep it at or below the number of elements to come, but
/// need not.
#[verifier::external_body]
pub(crate) fn lower_size_hint<I: Iterator>(iter: &I) -> (hint: usize) {
    iter.size_hint().0
}

/// Calls `fmt` of `Debug` on a slice. Nothing is said of what it writes, which is
/// up to the elements and the formatter.
#[verifier::external_body]
pub(crate) fn slice_fmt<T: Debug>(slice: &[T], f: &mut Formatter<'_>) -> (r: std::fmt::Result) {
    slice.fmt(f)
}

/// Calls `hash` of `Hash` on a slice. Nothing is said of what it feeds to the
/// hasher, which is up to the elements.
#[verifier::external_body]
pub(crate) fn slice_hash<T: Hash, H: Hasher>(slice: &[T], state: &mut H) {
    slice.hash(state)
}

} // verus!
