//! The error type shared by every fallible operation of the library.

use vstd::prelude::*;

verus! {

/// A set of errors that can occur during the runtime.
#[derive(Clone, Copy, Debug, PartialEq, Eq, Structural)]
pub enum ErrorKind {
    /// A file or directory read or write failed, including the privileged
    /// brightness-set channel.
    Io,
    /// A calibration range with `low > high` was supplied.
    InvalidRange,
    /// Every device in a fan-out operation failed.
    NoDevices,
    /// The device pattern matched no directory entries.
    NotFound,
    /// The configuration could not be read or was rejected.
    Config,
    /// Any other failure.
    Other,
}

/// Error type.
#[derive(Clone, Debug)]
pub struct Error {
    pub kind: ErrorKind,
    pub message: Option<String>,
}

impl Error {
    /// An error of kind `Other` with the given message.
    pub fn new(message: &str) -> (e: Error)
        ensures
            e.kind == ErrorKind::Other,
            e.message matches Some(m) && m@ == message@,
    {
        Error { kind: ErrorKind::Other, message: Some(message.to_owned()) }
    }

    /// An error of the given kind, without a message.
    pub fn of_kind(kind: ErrorKind) -> (e: Error)
        ensures
            e.kind == kind,
            e.message is None,
    {
        Error { kind, message: None }
    }

    /// The message carried by this error, or a fixed fallback.
    pub fn message_text(&self) -> (m: String)
        ensures
            self.message matches Some(s) ==> m@ == s@,
            self.message is None ==> m@ == "Error"@,
    {
        match &self.message {
            Some(s) => s.clone(),
            None => "Error".to_owned(),
        }
    }
}

} // verus!
