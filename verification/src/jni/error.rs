//! Errors of the Java bindings.
use vstd::prelude::*;
use crate::text::push_str;
use crate::error::{Error, error_text};

verus! {

/// What went wrong in a call from Java.
#[derive(Debug)]
pub enum JniError {
    /// Null pointer passed from Java
    NullPointer(String),
    /// Invalid handle
    InvalidHandle,
    /// String conversion error
    StringConversion(String),
    /// Serialization error
    Serialization(String),
    /// Internal Rust error
    Internal(String),
    /// Java exception occurred
    JavaException,
}

/// The text of an error.
pub open spec fn jni_error_text(e: JniError) -> Seq<char> {
    match e {
        JniError::NullPointer(m) => "Null pointer: "@ + m@,
        JniError::InvalidHandle => "Invalid native handle"@,
        JniError::StringConversion(m) => "String conversion error: "@ + m@,
        JniError::Serialization(m) => "Serialization error: "@ + m@,
        JniError::Internal(m) => "Internal error: "@ + m@,
        JniError::JavaException => "Java exception occurred"@,
    }
}

impl JniError {
    /// The text of the error.
    pub fn to_display_string(&self) -> (r: String)
        ensures
            r@ == jni_error_text(*self),
    {
        let mut s = String::new();
        match self {
            JniError::NullPointer(m) => {
                push_str(&mut s, "Null pointer: ");
                push_str(&mut s, m.as_str());
            },
            JniError::InvalidHandle => {
                push_str(&mut s, "Invalid native handle");
            },
            JniError::StringConversion(m) => {
                push_str(&mut s, "String conversion error: ");
                push_str(&mut s, m.as_str());
            },
            JniError::Serialization(m) => {
                push_str(&mut s, "Serialization error: ");
                push_str(&mut s, m.as_str());
            },
            JniError::Internal(m) => {
                push_str(&mut s, "Internal error: ");
                push_str(&mut s, m.as_str());
            },
            JniError::JavaException => {
                push_str(&mut s, "Java exception occurred");
            },
        }
        s
    }

    /// The internal error a library error becomes, with the library error's text.
    pub fn from_error(e: &Error) -> (r: JniError)
        ensures
            r matches JniError::Internal(m) && m@ == error_text(*e),
    {
        JniError::Internal(e.to_display_string())
    }
}

} // verus!
