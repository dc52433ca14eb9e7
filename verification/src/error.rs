//! The ways in which the construction of a symbol can fail.

use vstd::prelude::*;

verus! {

/// Why a symbol could not be built.
#[derive(Debug, Clone, Copy, PartialEq, Eq, Structural)]
pub enum QrError {
    /// the text does not fit the largest version at the level asked for
    TextTooLong,
    /// the parameters handed over describe nothing that can be built
    UnsupportedConfiguration,
    /// a write would go beyond the end of a bit buffer
    CapacityExceeded,
    /// a stage met a module whose role it must not overwrite
    InvalidPlacementTarget,
    /// the blocks do not come in one or two groups
    MalformedBlockLayout,
    /// the value is no element of the field that has an exponent
    NotInField,
}

} // verus!
