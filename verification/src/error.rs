//! The error type of manifest and metadata reading.
//!
//! Errors that come from I/O, Avro decoding or JSON parsing are held by their
//! messages.
use vstd::prelude::*;
use crate::text::{owned, copy_string, push_str};

verus! {

/// What went wrong.
#[derive(Debug)]
pub enum Error {
    /// I/O error
    Io(String),
    /// Avro decoding error
    Avro(String),
    /// JSON parsing error
    Json(String),
    /// Invalid data format
    InvalidData { message: String },
    /// Schema mismatch
    SchemaMismatch { expected: String, actual: String },
    /// Missing required field
    MissingField { field: String },
    /// Unsupported format version
    UnsupportedVersion { version: i32 },
    /// Invalid file path
    InvalidPath { path: String },
    /// Invalid partition data
    InvalidPartition { message: String },
    /// An error with what was being done when it happened
    WithContext { context: String, source: Box<Error> },
    /// Other error
    Other { message: String },
}

/// The text of an error.
pub open spec fn error_text(e: Error) -> Seq<char>
    decreases e,
{
    match e {
        Error::Io(m) => "I/O error: "@ + m@,
        Error::Avro(m) => "Avro error: "@ + m@,
        Error::Json(m) => "JSON error: "@ + m@,
        Error::InvalidData { message } => "Invalid data: "@ + message@,
        Error::SchemaMismatch { expected, actual } => "Schema mismatch: expected "@ + expected@ + ", got "@
            + actual@,
        Error::MissingField { field } => "Missing required field: "@ + field@,
        Error::UnsupportedVersion { version } => "Unsupported format version: "@ + crate::text::int_decimal(
            version as int,
        ),
        Error::InvalidPath { path } => "Invalid file path: "@ + path@,
        Error::InvalidPartition { message } => "Invalid partition: "@ + message@,
        Error::WithContext { context, source } => context@ + ": "@ + error_text(*source),
        Error::Other { message } => message@,
    }
}

impl Error {
    /// An error with just a message.
    pub fn other(message: &str) -> (r: Error)
        ensures
            r matches Error::Other { message: m } && m@ == message@,
    {
        Error::Other { message: owned(message) }
    }

    /// An invalid-data error.
    pub fn invalid_data(message: &str) -> (r: Error)
        ensures
            r matches Error::InvalidData { message: m } && m@ == message@,
    {
        Error::InvalidData { message: owned(message) }
    }

    /// A missing-field error.
    pub fn missing_field(field: &str) -> (r: Error)
        ensures
            r matches Error::MissingField { field: f } && f@ == field@,
    {
        Error::MissingField { field: owned(field) }
    }

    /// The error with what was being done when it happened.
    pub fn with_context(self, context: &str) -> (r: Error)
        ensures
            r matches Error::WithContext { context: c, source } && c@ == context@ && *source == self,
    {
        Error::WithContext { context: owned(context), source: Box::new(self) }
    }

    /// The text of the error.
    pub fn to_display_string(&self) -> (r: String)
        ensures
            r@ == error_text(*self),
        decreases self,
    {
        let mut s = String::new();
        match self {
            Error::Io(m) => {
                push_str(&mut s, "I/O error: ");
                push_str(&mut s, m.as_str());
            },
            Error::Avro(m) => {
                push_str(&mut s, "Avro error: ");
                push_str(&mut s, m.as_str());
            },
            Error::Json(m) => {
                push_str(&mut s, "JSON error: ");
                push_str(&mut s, m.as_str());
            },
            Error::InvalidData { message } => {
                push_str(&mut s, "Invalid data: ");
                push_str(&mut s, message.as_str());
            },
            Error::SchemaMismatch { expected, actual } => {
                push_str(&mut s, "Schema mismatch: expected ");
                push_str(&mut s, expected.as_str());
                push_str(&mut s, ", got ");
                push_str(&mut s, actual.as_str());
            },
            Error::MissingField { field } => {
                push_str(&mut s, "Missing required field: ");
                push_str(&mut s, field.as_str());
            },
            Error::UnsupportedVersion { version } => {
                push_str(&mut s, "Unsupported format version: ");
                crate::text::push_decimal(&mut s, *version as i64);
            },
            Error::InvalidPath { path } => {
                push_str(&mut s, "Invalid file path: ");
                push_str(&mut s, path.as_str());
            },
            Error::InvalidPartition { message } => {
                push_str(&mut s, "Invalid partition: ");
                push_str(&mut s, message.as_str());
            },
            Error::WithContext { context, source } => {
                push_str(&mut s, context.as_str());
                push_str(&mut s, ": ");
                let inner = source.to_display_string();
                push_str(&mut s, inner.as_str());
            },
            Error::Other { message } => {
                push_str(&mut s, message.as_str());
            },
        }
        s
    }
}

/// Adds what was being done to the error of a result.
pub trait ResultExt<T>: Sized {
    /// The result, its error wrapped with `context`.
    fn context(self, context: &str) -> (r: Result<T, Error>);
}

impl<T> ResultExt<T> for Result<T, Error> {
    fn context(self, context: &str) -> (r: Result<T, Error>)
        ensures
            match self {
                Ok(v) => r == Ok::<T, Error>(v),
                Err(e) => r matches Err(Error::WithContext { context: c, source }) && c@ == context@ && *source == e,
            },
    {
        match self {
            Ok(v) => Ok(v),
            Err(e) => Err(e.with_context(context)),
        }
    }
}

} // verus!
