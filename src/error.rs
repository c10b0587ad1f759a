use vstd::prelude::*;

verus! {

/// Why an encoder refused its input.
#[derive(Clone, Copy, PartialEq, Eq, Structural, Debug)]
pub enum EncodeError {
    /// A count or an index does not fit the width of its field in the
    /// container (more than 65535 vertices, a sector index or a cell index
    /// beyond 255, a table too large for a 32-bit offset).
    QuantizationOverflow,
}

/// Why a container failed validation.
#[derive(Clone, Copy, PartialEq, Eq, Structural, Debug)]
pub enum ContainerError {
    /// Shorter than the fixed header.
    Truncated,
    /// The magic number does not match.
    BadMagic,
    /// An offset, descriptor or payload range lies outside the file.
    OutOfBounds,
}

} // verus!
