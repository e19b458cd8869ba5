use vstd::prelude::*;

pub mod backend;
pub mod domain;

pub use backend::Backend;

verus! {

/// An inference job as listed to clients.
#[derive(Debug, Clone, Copy, PartialEq, Eq, Structural)]
pub struct InferenceJob {}

} // verus!
