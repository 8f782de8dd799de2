//! Errors reported by the capture, filtering and session operations.

use vstd::prelude::*;

verus! {

#[verifier::external_type_specification]
#[verifier::external_body]
pub struct ExIoError(std::io::Error);

#[verifier::external_type_specification]
#[verifier::external_body]
pub struct ExRegexError(regex::Error);

/// Errors that can occur during debug capture operations.
#[derive(Debug)]
pub enum DbgViewError {
    /// A named kernel object could not be created.
    KernelObjectCreation { name: String, source: std::io::Error },
    /// Another debugger already owns the debug output channel.
    DebuggerAlreadyAttached,
    /// The shared memory buffer could not be mapped.
    MemoryMapping(std::io::Error),
    /// No session has the given identifier.
    SessionNotFound(String),
    /// A filter pattern is not a valid regular expression.
    InvalidRegex(regex::Error),
    /// The capture is not running.
    CaptureNotRunning,
    /// The capture is already running.
    CaptureAlreadyRunning,
    /// An internal failure, with its description.
    Internal(String),
    /// Capturing debug output is only possible on Windows.
    PlatformNotSupported,
}

/// The text of an error whose message is a fixed sentence, if it is one.
pub open spec fn fixed_message(e: DbgViewError) -> Option<Seq<char>> {
    match e {
        DbgViewError::DebuggerAlreadyAttached => Some("Another debugger is already attached"@),
        DbgViewError::CaptureNotRunning => Some("Capture not running"@),
        DbgViewError::CaptureAlreadyRunning => Some("Capture already running"@),
        DbgViewError::PlatformNotSupported => Some("Platform not supported - Windows only"@),
        _ => None,
    }
}

/// Renders a source error through its `Display` implementation.
fn display_text<T: core::fmt::Display>(t: &T) -> (s: String)
    ensures
        vstd::string::to_string_from_display_ensures::<T>(t, s),
{
    t.to_string()
}

impl DbgViewError {
    /// The human-readable description of the error.
    pub fn message(&self) -> (s: String)
        ensures
            fixed_message(*self) matches Some(m) ==> s@ == m,
            self matches DbgViewError::SessionNotFound(id) ==> s@ == "Session not found: "@ + id@,
            self matches DbgViewError::Internal(d) ==> s@ == "Internal error: "@ + d@,
            self matches DbgViewError::InvalidRegex(e) ==> exists|t: String|
                vstd::string::to_string_from_display_ensures::<regex::Error>(&e, t)
                    && s@ == "Invalid regex pattern: "@ + t@,
            self matches DbgViewError::MemoryMapping(e) ==> exists|t: String|
                vstd::string::to_string_from_display_ensures::<std::io::Error>(&e, t)
                    && s@ == "Failed to map shared memory: "@ + t@,
            self matches DbgViewError::KernelObjectCreation { name, source } ==> exists|t: String|
                vstd::string::to_string_from_display_ensures::<std::io::Error>(&source, t)
                    && s@ == "Failed to create kernel object '"@ + name@ + "': "@ + t@,
    {
        match self {
            DbgViewError::KernelObjectCreation { name, source } => {
                let t = display_text(source);
                let mut s = String::from_str("Failed to create kernel object '");
                s.append(name.as_str());
                s.append("': ");
                s.append(t.as_str());
                s
            },
            DbgViewError::DebuggerAlreadyAttached => String::from_str(
                "Another debugger is already attached",
            ),
            DbgViewError::MemoryMapping(e) => {
                let t = display_text(e);
                let mut s = String::from_str("Failed to map shared memory: ");
                s.append(t.as_str());
                s
            },
            DbgViewError::SessionNotFound(id) => {
                let mut s = String::from_str("Session not found: ");
                s.append(id.as_str());
                s
            },
            DbgViewError::InvalidRegex(e) => {
                let t = display_text(e);
                let mut s = String::from_str("Invalid regex pattern: ");
                s.append(t.as_str());
                s
            },
            DbgViewError::CaptureNotRunning => String::from_str("Capture not running"),
            DbgViewError::CaptureAlreadyRunning => String::from_str("Capture already running"),
            DbgViewError::Internal(d) => {
                let mut s = String::from_str("Internal error: ");
                s.append(d.as_str());
                s
            },
            DbgViewError::PlatformNotSupported => String::from_str(
                "Platform not supported - Windows only",
            ),
        }
    }
}

} // verus!
