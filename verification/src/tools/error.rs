//! Failures of the read-only filesystem tools.
use vstd::prelude::*;

verus! {

/// Why a filesystem tool call failed.
#[derive(Debug, Clone, PartialEq, Eq)]
pub enum ToolError {
    /// The requested path resolves outside the target directory.
    PathEscape,
    /// The requested path does not exist (holds the path as given).
    NotFound(String),
    /// The file is not UTF-8 text.
    NotUtf8,
    /// The search pattern is not a valid regular expression (holds the
    /// regex engine's message).
    InvalidPattern(String),
    /// The operating system reported an error (holds its message).
    Io(String),
}

pub open spec fn tool_error_message_spec(e: ToolError) -> Seq<char> {
    match e {
        ToolError::PathEscape => "path escapes the target directory"@,
        ToolError::NotFound(p) => "path not found: "@ + p@,
        ToolError::NotUtf8 => "not a valid UTF-8 text file"@,
        ToolError::InvalidPattern(m) => "invalid search pattern: "@ + m@,
        ToolError::Io(m) => "io error: "@ + m@,
    }
}

impl ToolError {
    /// The human-readable text of the error.
    pub fn message(&self) -> (m: String)
        ensures
            m@ == tool_error_message_spec(*self),
    {
        match self {
            ToolError::PathEscape => String::from_str("path escapes the target directory"),
            ToolError::NotFound(p) => {
                let mut m = String::from_str("path not found: ");
                m.append(p.as_str());
                m
            },
            ToolError::NotUtf8 => String::from_str("not a valid UTF-8 text file"),
            ToolError::InvalidPattern(e) => {
                let mut m = String::from_str("invalid search pattern: ");
                m.append(e.as_str());
                m
            },
            ToolError::Io(e) => {
                let mut m = String::from_str("io error: ");
                m.append(e.as_str());
                m
            },
        }
    }
}

} // verus!
