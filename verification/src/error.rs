//! The error type of the library.

use vstd::prelude::*;

verus! {

/// The category of an error. The variants are those of `std::io::ErrorKind` that network code can
/// meet; whatever else the operating system reports is `Other`.
#[derive(Clone, Copy, Debug, PartialEq, Eq, Structural)]
pub enum ErrorKind {
    NotFound,
    PermissionDenied,
    ConnectionRefused,
    ConnectionReset,
    HostUnreachable,
    NetworkUnreachable,
    ConnectionAborted,
    NotConnected,
    AddrInUse,
    AddrNotAvailable,
    NetworkDown,
    BrokenPipe,
    AlreadyExists,
    WouldBlock,
    InvalidInput,
    InvalidData,
    TimedOut,
    WriteZero,
    Interrupted,
    Unsupported,
    UnexpectedEof,
    OutOfMemory,
    Other,
}

/// An error as a mathematical value: its category and the text shown to the user.
pub struct ErrorView {
    pub kind: ErrorKind,
    pub message: Seq<char>,
}

/// A failure: its category and the text shown to the user.
#[derive(Debug, PartialEq, Eq)]
pub struct Error {
    pub kind: ErrorKind,
    pub message: String,
}

impl View for Error {
    type V = ErrorView;

    open spec fn view(&self) -> ErrorView {
        ErrorView { kind: self.kind, message: self.message@ }
    }
}

impl Clone for Error {
    fn clone(&self) -> (copy: Self)
        ensures
            copy@ == self@,
    {
        Error { kind: self.kind, message: self.message.clone() }
    }
}

impl Error {
    /// An error of category `kind` with the text `message`.
    pub fn new(kind: ErrorKind, message: &str) -> (error: Error)
        ensures
            error@ == (ErrorView { kind, message: message@ }),
    {
        Error { kind, message: message.to_owned() }
    }

    /// The category of the error.
    pub fn kind(&self) -> (kind: ErrorKind)
        ensures
            kind == self@.kind,
    {
        self.kind
    }
}

} // verus!
