//! Error kinds reported by the processor.
use vstd::prelude::*;
use crate::text::{decimal, push_decimal, push_text};

verus! {

/// What went wrong in an encode or decode operation.
#[derive(Debug, Clone, PartialEq, Eq)]
pub enum ProcessError {
    /// Underlying storage failed.
    IOError(String),
    /// A path does not exist or cannot be opened.
    FileNotFound(String),
    /// A directory that must exist is missing.
    InvalidPath(String),
    /// Empty input, serialization error or codec failure while encoding.
    EncodingFailed(String),
    /// Bad manifest, missing symbols, hash mismatch or incomplete decode.
    DecodingFailed(String),
    /// The projected peak memory exceeds the ceiling (both in MiB).
    MemoryLimitExceeded { required: usize, available: usize },
    /// Admission was refused: the processor is at capacity.
    ConcurrencyLimitReached,
}

impl ProcessError {
    /// Human-readable description, e.g. `File is not found: <detail>`.
    pub fn to_string(&self) -> (r: String)
        ensures
            self matches ProcessError::IOError(d) ==> r@ == "IO error: "@ + d@,
            self matches ProcessError::FileNotFound(d) ==> r@ == "File is not found: "@ + d@,
            self matches ProcessError::InvalidPath(d) ==> r@ == "Invalid path: "@ + d@,
            self matches ProcessError::EncodingFailed(d) ==> r@ == "Encoding failed: "@ + d@,
            self matches ProcessError::DecodingFailed(d) ==> r@ == "Decoding failed: "@ + d@,
            self matches ProcessError::MemoryLimitExceeded { required, available } ==> r@ == "Memory limit exceeded. Required: "@
                + decimal(*required as nat) + "MB, Available: "@ + decimal(*available as nat) + "MB"@,
            self matches ProcessError::ConcurrencyLimitReached ==> r@ == "Concurrency limit reached"@,
    {
        let mut s = String::new();
        match self {
            ProcessError::IOError(d) => {
                push_text(&mut s, "IO error: ");
                push_text(&mut s, d.as_str());
            },
            ProcessError::FileNotFound(d) => {
                push_text(&mut s, "File is not found: ");
                push_text(&mut s, d.as_str());
            },
            ProcessError::InvalidPath(d) => {
                push_text(&mut s, "Invalid path: ");
                push_text(&mut s, d.as_str());
            },
            ProcessError::EncodingFailed(d) => {
                push_text(&mut s, "Encoding failed: ");
                push_text(&mut s, d.as_str());
            },
            ProcessError::DecodingFailed(d) => {
                push_text(&mut s, "Decoding failed: ");
                push_text(&mut s, d.as_str());
            },
            ProcessError::MemoryLimitExceeded { required, available } => {
                push_text(&mut s, "Memory limit exceeded. Required: ");
                push_decimal(&mut s, *required as u64);
                push_text(&mut s, "MB, Available: ");
                push_decimal(&mut s, *available as u64);
                push_text(&mut s, "MB");
            },
            ProcessError::ConcurrencyLimitReached => {
                push_text(&mut s, "Concurrency limit reached");
            },
        }
        s
    }
}

} // verus!
