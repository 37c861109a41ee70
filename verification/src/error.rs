//! Error types raised by the library's own logic.

use vstd::prelude::*;

verus! {

/// Errors that the encoding, decoding and validation logic can produce.
#[derive(Debug)]
pub enum InfluxDBError {
    /// A tag name was rejected by the name validator; carries the offending name.
    InvalidTagName(String),
    /// A timestamp precision token was not recognised; carries the token.
    InvalidTimestampPrecision(String),
    /// A stored value did not match the requested target type, or a narrowing
    /// conversion was out of range; carries a description.
    InvalidPointValueConversion(String),
    /// A column's physical type is not supported by the decoder; carries the
    /// column name and a rendering of the physical type.
    InvalidPointValue(String, String),
    /// Any other error; carries a description.
    Other(String),
}

/// Errors raised while validating a record schema description.  In the
/// annotation-driven flow these are fatal at generation time, never at
/// runtime.
#[derive(Debug)]
pub enum SchemaError {
    /// More than one field is designated as the time field.
    MultipleTimeFields,
    /// No field is designated as the time field, but the point-to-record
    /// conversion requires one.
    MissingTimeField,
    /// An ignored field is not also marked use-default; carries the field name.
    IgnoredFieldNotDefault(String),
    /// An ignored field is also marked tag or time; carries the field name.
    IgnoredFieldTagOrTime(String),
}

} // verus!
