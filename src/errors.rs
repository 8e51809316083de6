use vstd::prelude::*;
use vstd::string::*;

verus! {

/// Why a directory could not be listed. Each path-carrying variant holds the path
/// that was asked for.
#[derive(Debug, PartialEq, Eq)]
pub enum FSError {
    PathNotFound(String),
    PathIsNotADirectory(String),
    PermissionError(String),
    PathEncodingError(String),
    UnknownError(String),
}

/// The human-readable text of an error: a fixed heading followed by its payload.
pub open spec fn error_text(e: FSError) -> Seq<char> {
    match e {
        FSError::PathNotFound(p) => "Path not found: "@ + p@,
        FSError::PathIsNotADirectory(p) => "Path is not a directory: "@ + p@,
        FSError::PermissionError(p) => "Permission denied: "@ + p@,
        FSError::PathEncodingError(p) => "Path encoding error: Path contains invalid UTF-8: "@
            + p@,
        FSError::UnknownError(m) => "Unknown error: "@ + m@,
    }
}

impl FSError {
    /// The message shown to a user for this error.
    pub fn to_string(&self) -> (r: String)
        ensures
            r@ == error_text(*self),
    {
        let (heading, payload) = match self {
            FSError::PathNotFound(p) => ("Path not found: ", p),
            FSError::PathIsNotADirectory(p) => ("Path is not a directory: ", p),
            FSError::PermissionError(p) => ("Permission denied: ", p),
            FSError::PathEncodingError(p) => (
                "Path encoding error: Path contains invalid UTF-8: ",
                p,
            ),
            FSError::UnknownError(m) => ("Unknown error: ", m),
        };
        let mut r = String::from_str(heading);
        r.append(payload.as_str());
        r
    }
}

} // verus!
