//! Client-facing failures of the canonicalization and import paths.

use vstd::prelude::*;

verus! {

/// A malformed client payload. Decoding is local to one request: the first
/// offending field, in decoding order, names the failure.
#[derive(Debug, Clone, Copy, PartialEq, Eq, Structural)]
pub enum DecodeError {
    /// The envelope, or the nested record, is not a JSON object.
    NotAnObject,
    /// The record kind is missing, not an integer, or outside the enum's
    /// domain of 1 to 4.
    BadKind,
    /// The record name is missing or not a string.
    BadName,
    /// An optional string field held a value that is neither a string nor null.
    BadString,
    /// A boolean-like field held neither a boolean nor the integer 0 or 1.
    BadBool,
    /// An integer field held a non-integer or an out-of-range value.
    BadInt,
    /// A field that must hold an array of strings held something else.
    BadStringArray,
    /// A field that must hold an array held something else.
    BadArray,
}

/// A bulk import that must not be applied.
#[derive(Debug, Clone, Copy, PartialEq, Eq, Structural)]
pub enum ImportError {
    /// An imported record was encrypted for a different principal than the
    /// one making the request; the whole batch is rejected.
    Unauthorized,
}

/// A persistence-layer failure. Its detail is kept out of client responses.
#[derive(Debug, Clone, Copy, PartialEq, Eq, Structural)]
pub enum StorageError {
    /// A batch chunk failed; earlier chunks stay applied, later ones never
    /// ran.
    ChunkFailed,
}

impl StorageError {
    /// A short description, for the server log; clients see a generic
    /// internal failure.
    pub fn message(&self) -> (m: String)
        ensures
            m@ == "storage batch failed"@,
    {
        String::from_str("storage batch failed")
    }
}

impl DecodeError {
    /// A short description, for the client-facing failure body.
    pub fn message(&self) -> (m: String)
        ensures
            m@ == match *self {
                DecodeError::NotAnObject => "expected a JSON object"@,
                DecodeError::BadKind => "type must be an integer between 1 and 4"@,
                DecodeError::BadName => "name must be a string"@,
                DecodeError::BadString => "expected a string"@,
                DecodeError::BadBool => "expected a boolean or an integer 0 or 1"@,
                DecodeError::BadInt => "expected an integer"@,
                DecodeError::BadStringArray => "expected an array of strings"@,
                DecodeError::BadArray => "expected an array"@,
            },
    {
        proof {
            reveal_strlit("expected a JSON object");
            reveal_strlit("type must be an integer between 1 and 4");
            reveal_strlit("name must be a string");
            reveal_strlit("expected a string");
            reveal_strlit("expected a boolean or an integer 0 or 1");
            reveal_strlit("expected an integer");
            reveal_strlit("expected an array of strings");
            reveal_strlit("expected an array");
        }
        match self {
            DecodeError::NotAnObject => String::from_str("expected a JSON object"),
            DecodeError::BadKind => String::from_str("type must be an integer between 1 and 4"),
            DecodeError::BadName => String::from_str("name must be a string"),
            DecodeError::BadString => String::from_str("expected a string"),
            DecodeError::BadBool => String::from_str("expected a boolean or an integer 0 or 1"),
            DecodeError::BadInt => String::from_str("expected an integer"),
            DecodeError::BadStringArray => String::from_str("expected an array of strings"),
            DecodeError::BadArray => String::from_str("expected an array"),
        }
    }
}

impl ImportError {
    /// A short description, for the client-facing failure body.
    pub fn message(&self) -> (m: String)
        ensures
            m@ == "Cipher encrypted for wrong user"@,
    {
        String::from_str("Cipher encrypted for wrong user")
    }
}

} // verus!
