//! Two unordered, growable sequences kept in one backing vector and split by
//! a movable boundary, with an unordered filter shared by both halves and by
//! plain vectors.

mod backing;
pub mod laws;
mod retain;
mod slices;
mod two_vecs;

pub use backing::VecTrait;
pub use retain::{filtered, inputs, retain_in, survivors, RetainMutUnordered};
pub use two_vecs::{clamped, second_after_cut, second_after_first_push, FirstVec, SecondVec, TwoUnorderedVecs};
