//! The failures this library and its callers report.

use vstd::prelude::*;

verus! {

/// Why an operation on the clipboard or its history failed.
#[derive(Debug, Clone, Copy, PartialEq, Eq, Structural)]
pub enum ClipboardError {
    /// The system clipboard could not be reached.
    ClipboardUnavailable,
    /// A stored snapshot or settings record could not be parsed.
    CorruptState,
    /// A chunk sequence does not describe one whole payload.
    MalformedChunkSequence,
    /// The content kind cannot be written back to the system clipboard.
    UnsupportedFormat,
    /// Text that should be base64 is not.
    InvalidEncoding,
    /// The file system refused an operation.
    Io,
}

impl ClipboardError {
    /// A short description for display.
    pub fn message(&self) -> (text: String)
        ensures
            text@ == self.spec_message()@,
    {
        match self {
            ClipboardError::ClipboardUnavailable => "Clipboard unavailable".to_owned(),
            ClipboardError::CorruptState => "Stored state is corrupt".to_owned(),
            ClipboardError::MalformedChunkSequence => "Malformed chunk sequence".to_owned(),
            ClipboardError::UnsupportedFormat => "Unsupported clipboard format".to_owned(),
            ClipboardError::InvalidEncoding => "Invalid base64 content".to_owned(),
            ClipboardError::Io => "I/O failure".to_owned(),
        }
    }

    /// The description of each failure.
    pub open spec fn spec_message(&self) -> &'static str {
        match self {
            ClipboardError::ClipboardUnavailable => "Clipboard unavailable",
            ClipboardError::CorruptState => "Stored state is corrupt",
            ClipboardError::MalformedChunkSequence => "Malformed chunk sequence",
            ClipboardError::UnsupportedFormat => "Unsupported clipboard format",
            ClipboardError::InvalidEncoding => "Invalid base64 content",
            ClipboardError::Io => "I/O failure",
        }
    }
}

} // verus!
