//! The bridge's run-state.

use vstd::prelude::*;

verus! {

/// `Standby` (Console 1 connected, no Mixing Station connection) or `Running` (full
/// bridging active).
#[derive(Debug, Clone, Copy, PartialEq, Eq, Structural)]
pub enum Lifecycle {
    Standby,
    Running,
}

} // verus!
