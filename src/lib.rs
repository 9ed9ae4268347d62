//! Batch media conversion engine: ordered progress and result events for a
//! list of files, synthetic per-item progress, output naming with collision
//! renaming, and a sandbox for paths inside the managed vault directory.
use vstd::prelude::*;

pub mod batch;
pub mod convert;
pub mod error;
pub mod gif;
pub mod naming;
pub mod progress;
pub mod text;
pub mod vault;

verus! {

} // verus!
