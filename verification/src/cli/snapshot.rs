//! Command line values for actions on snapshots.

pub mod corks;

use vstd::prelude::*;

verus! {

/// Where the current snapshot stands in the range of snapshots to work
/// on, counted from the first one.
#[derive(Debug, Copy, Clone, PartialEq, Eq, Structural)]
pub struct SnapNumInRange {
    /// Offset of the current snapshot.
    pub current_offset: u32,
    /// Offset of the last snapshot.
    pub final_offset: u32,
}

} // verus!
