//! The dynamic value tree: the runtime representation of a human-authored
//! input value, encoded against a schema by the encoder.

use vstd::prelude::*;

verus! {

/// A dynamically typed value node. The encoder reconciles a tree of these
/// against a tree of type definitions.
pub enum Value {
    /// A boolean.
    Bool(bool),
    /// A text value. Besides `Str` fields, strings are accepted for
    /// `U64`/`U128` fields (decimal digits with optional `_`/`,` separators)
    /// and for byte arrays (hexadecimal digits, optional leading `0x`).
    Str(String),
    /// An integer.
    Int(i128),
    /// An ordered sequence of values.
    Sequence(Vec<Value>),
    /// An ordered list of key/value entries. Composite encoding consumes
    /// the values positionally, in entry order; keys are never matched
    /// against field names.
    Mapping(Vec<(String, Value)>),
}

} // verus!
