//! Errors of converting a field's value.

use vstd::prelude::*;

verus! {

/// Why a field value could not be converted.
#[derive(Debug, Clone, Copy, PartialEq, Eq, Structural)]
pub enum FieldValueConversionError {
    /// The value has another type, or does not fit the integer type asked for.
    IncompatibleTypeOrOutOfRangeInteger,
    /// The bytes of a string value are not UTF-8.
    FromUtf8Error,
}

} // verus!
