use vstd::prelude::*;

verus! {

/// The ways the core rejects its input.
///
/// Argument parsing and stream framing live with the hosting program;
/// the verified core itself can fail only on an unrecognized field
/// name in the header or on a row whose width disagrees with the
/// header's.
#[derive(Clone, Copy, Debug, PartialEq, Eq, Structural)]
pub enum KspaceError {
    /// A header name is not one of the recognized encoding-field shapes.
    UnknownField,
    /// A data row's column count differs from the number of resolved
    /// derivative vectors.
    DimensionMismatch,
}

} // verus!
