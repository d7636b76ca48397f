//! The error value that dispatch, fallbacks and runners hand back.

use vstd::prelude::*;
use vstd::string::*;

verus! {

/// Classifies an [`Error`]: the two parser-side outcomes that are passed
/// through untouched, the synthesized "help displayed" outcome, runner-side
/// failures, and an internal-consistency fault.
#[derive(Clone, Copy, PartialEq, Eq, Structural, Debug)]
pub enum ErrorKind {
    /// The user explicitly asked for help, or dispatch decided that the
    /// best answer to the given arguments is a help text; the message holds
    /// the full text to print verbatim.
    HelpDisplayed,
    /// The user explicitly asked for the version.
    VersionDisplayed,
    /// An input/output failure reported by a runner.
    Io,
    /// Any other failure reported by a runner or fallback.
    Other,
    /// The parser's error text broke the format this layer relies on; this
    /// must never be mistaken for a user-facing condition.
    Fault,
}

/// An error with a kind and a fully formatted message.
#[derive(Clone, PartialEq, Eq, Debug)]
pub struct Error {
    pub kind: ErrorKind,
    pub message: String,
}

impl Error {
    /// Formats a description the way error messages are shown: prefixed
    /// with `error: `.
    pub fn with_description(description: &str, kind: ErrorKind) -> (r: Error)
        ensures
            r.kind == kind,
            r.message@ == "error: "@ + description@,
    {
        let mut message = String::from_str("error: ");
        message.append(description);
        Error { kind, message }
    }

    /// An error carrying a message exactly as given, with no prefix.
    pub fn raw(message: String, kind: ErrorKind) -> (r: Error)
        ensures
            r.kind == kind,
            r.message == message,
    {
        Error { kind, message }
    }

    /// Whether the message belongs on the error stream: help and version
    /// texts go to standard output, everything else to standard error.
    pub fn use_stderr(&self) -> (r: bool)
        ensures
            r == (self.kind != ErrorKind::HelpDisplayed && self.kind
                != ErrorKind::VersionDisplayed),
    {
        match self.kind {
            ErrorKind::HelpDisplayed | ErrorKind::VersionDisplayed => false,
            _ => true,
        }
    }

    /// The formatted message.
    pub fn message(&self) -> (r: &String)
        ensures
            r == &self.message,
    {
        &self.message
    }
}

} // verus!
