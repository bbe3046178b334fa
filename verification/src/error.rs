//! The ways the filter itself can refuse an operation.

use vstd::prelude::*;

verus! {

/// Why the filter refused an operation.
#[derive(Clone, Copy, Debug, PartialEq, Eq, Structural)]
pub enum FilterError {
    /// The filter already holds data, so it cannot be reconfigured or loaded
    /// into.
    Config,
    /// A persisted image is too short to hold the trailer, or its trailer names
    /// a probe count that this machine cannot represent.
    Format,
}

} // verus!
