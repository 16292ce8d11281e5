//! Library side of `cargo ship`: the error type and its exit codes, the
//! crates.io index cache, and the decisions of the `changes` command.

pub mod error;
pub mod ops;
pub mod utils;

use vstd::prelude::*;

verus! {

/// Marker type kept in the public interface for the README's examples; it
/// holds nothing and does nothing.
pub struct ReadmeDoctests;

} // verus!
