//! An economical vector with clone-on-write semantics.
//!
//! [`EcoVec`] is a growable vector that is cheap to clone: clones share one buffer,
//! and a vector gets a buffer of its own only when it is changed while others share
//! it.
pub mod buffer;
pub mod capacity_laws;
pub mod change_laws;
pub mod compare;
pub mod extend;
pub mod laws;
pub mod layout;
pub mod limit_laws;
pub mod order_laws;
pub mod retain_laws;
mod std_wrappers;
mod traits;
pub mod vec;
pub mod visit;

pub use vec::EcoVec;
