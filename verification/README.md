# ecow

An economical vector with clone-on-write semantics, verified with Verus.

`EcoVec<T>` is a growable vector that is cheap to clone: clones share one
reference-counted buffer, and a vector gets a buffer of its own only when it is
changed while others share it.

- `src/layout.rs`: the size of the storage, the limit on it, and how capacity grows
- `src/buffer.rs`: the storage of a vector, seen by its one owner
- `src/vec.rs`: the vector and its operations
- `src/extend.rs`: building and extending vectors from slices, vectors and iterators
- `src/compare.rs`, `src/traits.rs`: the traits of the standard library
- `src/laws.rs`, `src/change_laws.rs`, `src/order_laws.rs`: what holds across
  several operations, of each change, and of comparison
- `src/std_wrappers.rs`: the operations of the standard library that are trusted
- `app/`: a wrapper for programs that are not verified, which checks what the
  verified vector asks of its callers and panics where it does not hold
