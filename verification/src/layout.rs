//! How much room a vector takes and how its capacity grows.
//!
//! The storage of a vector is accounted as one block: a header of three words
//! (reference count, length, capacity), padding up to the alignment of the
//! elements, and then the elements. A capacity is admissible when that block is
//! small enough to be allocated.
use vstd::prelude::*;

verus! {

/// The number of words in the header of a block.
pub const HEADER_WORDS: usize = 3;

/// The alignment of a block: that of the header, which is one word, or that of
/// the elements, whichever is larger.
pub open spec fn spec_align<T>() -> nat {
    spec_max(vstd::layout::size_of::<usize>(), vstd::layout::align_of::<T>())
}

/// The size in bytes of the header of a block.
pub open spec fn spec_header_size() -> nat {
    HEADER_WORDS as nat * vstd::layout::size_of::<usize>()
}

/// Where the elements start within a block: behind the header and the padding that
/// aligns them.
pub open spec fn spec_offset<T>() -> nat {
    round_up(spec_header_size(), spec_align::<T>())
}

/// The size in bytes of a block that holds `capacity` elements.
pub open spec fn spec_size<T>(capacity: nat) -> nat {
    spec_offset::<T>() + vstd::layout::size_of::<T>() * capacity
}

/// Whether a block for `capacity` elements stays below the limit on allocations,
/// with its alignment and one byte to spare.
pub open spec fn size_fits<T>(capacity: nat) -> bool {
    spec_size::<T>(capacity) + spec_align::<T>() + 1 <= isize::MAX
}

/// `size` rounded up to the next multiple of `align`.
pub open spec fn round_up(size: nat, align: nat) -> nat
    recommends
        align > 0,
{
    (size + align - 1) as nat / align * align
}

/// The capacity of a block that is made for `target` elements. Elements without a
/// size take no room, so one block holds as many of them as there can be.
pub open spec fn grown<T>(target: nat) -> nat {
    if vstd::layout::size_of::<T>() == 0 {
        isize::MAX as nat
    } else {
        target
    }
}

/// Whether a block for `target` elements can be made.
pub open spec fn can_grow<T>(target: nat) -> bool {
    target <= isize::MAX && size_fits::<T>(grown::<T>(target))
}

/// The smallest capacity that a growing vector takes.
pub open spec fn spec_min_cap<T>() -> nat {
    if vstd::layout::size_of::<T>() == 1 {
        8
    } else if vstd::layout::size_of::<T>() <= 32 {
        4
    } else {
        1
    }
}

/// What a vector of `len` elements and the given capacity grows to when it has no
/// room for `additional` more: at least what is asked for, at least twice the
/// capacity, and at least the minimum.
pub open spec fn reserve_target<T>(len: nat, capacity: nat, additional: nat) -> nat {
    spec_max(spec_max(len + additional, 2 * capacity), spec_min_cap::<T>())
}

/// Whether room for `additional` more elements is there or can be made.
pub open spec fn can_reserve<T>(len: nat, capacity: nat, additional: nat) -> bool {
    additional > capacity - len ==> can_grow::<T>(reserve_target::<T>(len, capacity, additional))
}

/// The capacity after room for `additional` more elements was reserved.
pub open spec fn reserved<T>(len: nat, capacity: nat, additional: nat) -> nat {
    if additional > capacity - len {
        grown::<T>(reserve_target::<T>(len, capacity, additional))
    } else {
        capacity
    }
}

/// The capacity of a vector that was made by reserving room for `len` elements
/// and adding as many.
pub open spec fn collected<T>(len: nat) -> nat {
    reserved::<T>(0, 0, len)
}

/// Whether a vector of `len` elements can be collected.
pub open spec fn can_collect<T>(len: nat) -> bool {
    can_reserve::<T>(0, 0, len)
}

/// The capacity after `count` elements were added one by one.
pub open spec fn pushed<T>(len: nat, capacity: nat, count: nat) -> nat
    decreases count,
{
    if count == 0 {
        capacity
    } else {
        pushed::<T>(len + 1, reserved::<T>(len, capacity, 1), (count - 1) as nat)
    }
}

/// Whether `count` elements can be added one by one.
pub open spec fn can_push<T>(len: nat, capacity: nat, count: nat) -> bool
    decreases count,
{
    count == 0 || {
        &&& can_reserve::<T>(len, capacity, 1)
        &&& can_push::<T>(len + 1, reserved::<T>(len, capacity, 1), (count - 1) as nat)
    }
}

/// How many of `count` elements can be added one by one, until room for another is
/// beyond the limit on allocations.
pub open spec fn pushable<T>(len: nat, capacity: nat, count: nat) -> nat
    decreases count,
{
    if count == 0 || !can_reserve::<T>(len, capacity, 1) {
        0
    } else {
        1 + pushable::<T>(len + 1, reserved::<T>(len, capacity, 1), (count - 1) as nat)
    }
}

/// What holds of the length and the capacity of every vector.
pub open spec fn valid_capacity<T>(len: nat, capacity: nat) -> bool {
    &&& len <= capacity
    &&& capacity == 0 || (can_grow::<T>(capacity) && capacity == grown::<T>(capacity))
}

/// The larger of two numbers.
pub open spec fn spec_max(a: nat, b: nat) -> nat {
    if a >= b {
        a
    } else {
        b
    }
}

/// The larger of two numbers.
pub(crate) fn max(a: usize, b: usize) -> (r: usize)
    ensures
        r == spec_max(a as nat, b as nat),
{
    if a >= b {
        a
    } else {
        b
    }
}

/// The alignment of a block.
pub fn align<T>() -> (r: usize)
    ensures
        r == spec_align::<T>(),
{
    max(core::mem::size_of::<usize>(), core::mem::align_of::<T>())
}

/// Where the elements start within a block: behind the header and the padding that
/// aligns them.
pub fn offset<T>() -> (r: usize)
    ensures
        r == spec_offset::<T>(),
        r >= spec_header_size(),
        r as nat % vstd::layout::align_of::<T>() == 0,
{
    broadcast use vstd::layout::layout_of_primitives;

    let header: usize = HEADER_WORDS * core::mem::size_of::<usize>();
    let align: usize = align::<T>();
    proof {
        lemma_offset_bounds::<T>();
        lemma_offset_aligned::<T>();
        if align > header {
            lemma_round_up_once(header as nat, align as nat);
        } else {
            lemma_round_up_bounds(header as nat, align as nat);
        }
    }
    if align <= header {
        (header + align - 1) / align * align
    } else {
        align
    }
}

/// The size of a block for `capacity` elements, or `None` if it is beyond the
/// limit on allocations.
///
/// A size that is returned is not zero, and it can be rounded up to a multiple of
/// the alignment without exceeding `isize::MAX`.
pub fn size<T>(capacity: usize) -> (r: Option<usize>)
    ensures
        r is Some <==> size_fits::<T>(capacity as nat),
        r matches Some(bytes) ==> {
            &&& bytes == spec_size::<T>(capacity as nat)
            &&& bytes > 0
            &&& round_up(bytes as nat, spec_align::<T>()) <= isize::MAX
        },
{
    let elements: usize = match core::mem::size_of::<T>().checked_mul(capacity) {
        Some(elements) => elements,
        None => {
            return None;
        },
    };
    let bytes: usize = match offset::<T>().checked_add(elements) {
        Some(bytes) => bytes,
        None => {
            return None;
        },
    };
    let limit: usize = isize::MAX as usize;
    let align: usize = align::<T>();
    if align < limit && bytes <= limit - align - 1 {
        proof {
            broadcast use vstd::layout::layout_of_primitives;

            lemma_round_up_bounds(bytes as nat, align as nat);
            lemma_offset_bounds::<T>();
        }
        Some(bytes)
    } else {
        None
    }
}

/// The smallest capacity that a growing vector takes.
pub fn min_cap<T>() -> (r: usize)
    ensures
        r == spec_min_cap::<T>(),
{
    if core::mem::size_of::<T>() == 1 {
        8
    } else if core::mem::size_of::<T>() <= 32 {
        4
    } else {
        1
    }
}

/// The capacity of a block that is made for `target` elements.
pub(crate) fn grown_capacity<T>(target: usize) -> (r: usize)
    ensures
        r == grown::<T>(target as nat),
{
    if core::mem::size_of::<T>() == 0 {
        isize::MAX as usize
    } else {
        target
    }
}

/// The capacity of a block that is made for `target` elements, or `None` if it is
/// beyond the limit on allocations.
pub fn checked_capacity<T>(target: usize) -> (r: Option<usize>)
    ensures
        r is Some <==> can_grow::<T>(target as nat),
        r matches Some(capacity) ==> capacity == grown::<T>(target as nat),
{
    if target > isize::MAX as usize {
        return None;
    }
    let capacity: usize = grown_capacity::<T>(target);
    match size::<T>(capacity) {
        Some(_) => Some(capacity),
        None => None,
    }
}

/// The capacity that a vector has once room for `additional` more elements is
/// reserved, or `None` if that is beyond the limit on allocations.
pub fn reserved_capacity<T>(len: usize, capacity: usize, additional: usize) -> (r: Option<usize>)
    requires
        valid_capacity::<T>(len as nat, capacity as nat),
    ensures
        r is Some <==> can_reserve::<T>(len as nat, capacity as nat, additional as nat),
        r matches Some(new) ==> new == reserved::<T>(
            len as nat,
            capacity as nat,
            additional as nat,
        ),
{
    if additional <= capacity - len {
        return Some(capacity);
    }
    let needed: usize = match len.checked_add(additional) {
        Some(needed) => needed,
        None => {
            return None;
        },
    };
    checked_capacity::<T>(max(max(needed, 2 * capacity), min_cap::<T>()))
}

/// Rounding up adds less than one alignment.
proof fn lemma_round_up_bounds(size: nat, align: nat)
    requires
        align > 0,
    ensures
        size <= round_up(size, align) < size + align,
        round_up(size, align) % align == 0,
{
    let n: nat = (size + align - 1) as nat;
    vstd::arithmetic::div_mod::lemma_fundamental_div_mod(n as int, align as int);
    vstd::arithmetic::mul::lemma_mul_is_commutative(n as int / align as int, align as int);
    vstd::arithmetic::div_mod::lemma_mod_multiples_basic(n as int / align as int, align as int);
}

/// What is smaller than the alignment is rounded up to the alignment itself.
proof fn lemma_round_up_once(size: nat, align: nat)
    requires
        0 < size <= align,
    ensures
        round_up(size, align) == align,
{
    let n: nat = (size + align - 1) as nat;
    assert(n / align == 1) by (nonlinear_arith)
        requires
            align <= n < 2 * align,
            align > 0,
    ;
}

/// The padding between the header and the elements is less than one alignment.
pub proof fn lemma_offset_bounds<T>()
    ensures
        spec_header_size() <= spec_offset::<T>() < spec_header_size() + spec_align::<T>(),
{
    broadcast use vstd::layout::layout_of_primitives;

    lemma_round_up_bounds(spec_header_size(), spec_align::<T>());
}

/// The elements start at a multiple of the alignment of the block.
pub proof fn lemma_offset_on_alignment<T>()
    ensures
        spec_offset::<T>() % spec_align::<T>() == 0,
{
    broadcast use vstd::layout::layout_of_primitives;

    lemma_round_up_bounds(spec_header_size(), spec_align::<T>());
}

/// The elements start at a multiple of their alignment.
pub proof fn lemma_offset_aligned<T>()
    ensures
        spec_offset::<T>() % vstd::layout::align_of::<T>() == 0,
{
    broadcast use {vstd::layout::layout_of_primitives, vstd::layout::align_properties};
    broadcast use vstd::layout::align_nonzero;

    let word = vstd::layout::size_of::<usize>();
    let align = vstd::layout::align_of::<T>();
    lemma_round_up_bounds(spec_header_size(), spec_align::<T>());
    if align < word {
        assert(align == 1 || align == 2 || align == 4) by {
            reveal_with_fuel(vstd::arithmetic::power2::is_pow2, 4);
        }
        let offset = spec_offset::<T>();
        assert(offset % word == 0);
        if word == 8 {
            assert(offset % 8 == 0);
        } else {
            assert(offset % 4 == 0);
        }
        assert(offset % 1 == 0 && offset % 2 == 0 && offset % 4 == 0);
    }
}

/// A block for fewer elements can be made wherever one for more can.
pub proof fn lemma_can_grow_monotonic<T>(smaller: nat, larger: nat)
    requires
        smaller <= larger,
        can_grow::<T>(larger),
    ensures
        can_grow::<T>(smaller),
{
    let size = vstd::layout::size_of::<T>();
    assert(size * smaller <= size * larger) by (nonlinear_arith)
        requires
            smaller <= larger,
    ;
}

/// Wherever a vector with room for `len` elements exists, one that was collected
/// from `len` elements can be made too: the minimum capacity never exceeds the
/// limit on allocations by itself.
pub proof fn lemma_can_collect<T>(len: nat, capacity: nat)
    requires
        valid_capacity::<T>(len, capacity),
    ensures
        can_collect::<T>(len),
        valid_capacity::<T>(len, collected::<T>(len)),
{
    broadcast use {vstd::layout::layout_of_primitives, vstd::layout::align_properties};
    broadcast use vstd::layout::align_nonzero;

    lemma_offset_bounds::<T>();
    let size = vstd::layout::size_of::<T>();
    let align = vstd::layout::align_of::<T>();
    let min = spec_min_cap::<T>();
    if len > 0 {
        if len >= min {
            lemma_can_grow_monotonic::<T>(len, capacity);
        } else if size == 0 {
            assert(size * grown::<T>(min) == size * grown::<T>(capacity));
        } else {
            assert(align <= size) by {
                if size < align {
                    vstd::arithmetic::div_mod::lemma_small_mod(size, align);
                }
            }
            assert(size * min <= 128) by (nonlinear_arith)
                requires
                    size <= 32,
                    min <= 4 || (size == 1 && min == 8),
            ;
        }
    }
}

/// All of the elements can be added one by one, or only the first of them.
pub proof fn lemma_pushable<T>(len: nat, capacity: nat, count: nat)
    ensures
        pushable::<T>(len, capacity, count) <= count,
        pushable::<T>(len, capacity, count) == count <==> can_push::<T>(len, capacity, count),
    decreases count,
{
    if count > 0 && can_reserve::<T>(len, capacity, 1) {
        lemma_pushable::<T>(len + 1, reserved::<T>(len, capacity, 1), (count - 1) as nat);
    }
}

/// Elements can be added one by one if twice as many as there are in the end
/// could be held.
pub proof fn lemma_can_push<T>(len: nat, capacity: nat, count: nat)
    requires
        len <= capacity,
        can_grow::<T>(spec_max(2 * (len + count), spec_min_cap::<T>())),
    ensures
        can_push::<T>(len, capacity, count),
    decreases count,
{
    if count > 0 {
        if len == capacity {
            lemma_can_grow_monotonic::<T>(
                reserve_target::<T>(len, capacity, 1),
                spec_max(2 * (len + count), spec_min_cap::<T>()),
            );
        }
        lemma_can_push::<T>(len + 1, reserved::<T>(len, capacity, 1), (count - 1) as nat);
    }
}

} // verus!
