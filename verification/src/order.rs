//! Byte orders and the errors of the codec.

use vstd::prelude::*;

verus! {

/// The sequence in which the bytes of a multi-byte number are laid out.
#[derive(Clone, Copy, Debug, PartialEq, Eq, Hash, Structural)]
pub enum ByteOrder {
    /// Least significant byte first.
    Little,
    /// Most significant byte first.
    Big,
    /// Every field of a record chooses its own order.
    Mixed,
}

/// Why a schema was refused or a buffer was not touched.
#[derive(Clone, Copy, Debug, PartialEq, Eq, Hash, Structural)]
pub enum CodecError {
    /// The buffer is not exactly as long as the record's packed size.
    SizeMismatch,
    /// The declaration is an enum or a union, which have no packed layout.
    UnsupportedKind,
    /// A field names `Mixed` as its own byte order.
    InvalidOrderOverride,
    /// A number wider than one byte has no byte order in mixed mode.
    MissingOrderAnnotation,
}

} // verus!
