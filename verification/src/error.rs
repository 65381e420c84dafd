//! Error categories reported by the encoder.

use vstd::prelude::*;

verus! {

/// Why an encode call failed. Every failure is fatal to the whole call;
/// bytes appended before the failing node are not rolled back.
#[derive(Clone, Copy, Debug, PartialEq, Eq, Structural)]
pub enum EncodeError {
    /// A referenced type id is not present in the registry.
    UnknownType,
    /// The schema uses a type definition variant (or primitive kind) that
    /// this encoder does not implement.
    UnsupportedType,
    /// The value's runtime shape does not match the type definition.
    TypeMismatch,
    /// A numeric value has the right shape but is out of range for the
    /// target width.
    NumericConversion,
    /// A string-form integer failed to parse as a decimal literal after
    /// separator stripping.
    NumericParse,
    /// A byte-array string value contains invalid hexadecimal content.
    HexDecodeError,
}

} // verus!
