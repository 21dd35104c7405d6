//! The error type shared by every component of the shell.

use vstd::prelude::*;

verus! {

/// What went wrong, by category.
#[derive(Debug, Clone, Copy, PartialEq, Eq, Structural)]
pub enum ErrorKind {
    Dummy,
    Internal,
    Other,
    NotFound,
    PermissionDenied,
    Interrupted,
    Failure,
    LexerError,
    SyntaxError,
    EngineError,
    BrokenPipe,
    InvalidInput,
}

impl ErrorKind {
    /// The name of the kind, as written in the source.
    pub open spec fn name(self) -> Seq<char> {
        match self {
            ErrorKind::Dummy => "Dummy"@,
            ErrorKind::Internal => "Internal"@,
            ErrorKind::Other => "Other"@,
            ErrorKind::NotFound => "NotFound"@,
            ErrorKind::PermissionDenied => "PermissionDenied"@,
            ErrorKind::Interrupted => "Interrupted"@,
            ErrorKind::Failure => "Failure"@,
            ErrorKind::LexerError => "LexerError"@,
            ErrorKind::SyntaxError => "SyntaxError"@,
            ErrorKind::EngineError => "EngineError"@,
            ErrorKind::BrokenPipe => "BrokenPipe"@,
            ErrorKind::InvalidInput => "InvalidInput"@,
        }
    }

    /// The kind in lower-case words, for messages shown to a user.
    pub open spec fn description(self) -> Seq<char> {
        match self {
            ErrorKind::Dummy => "dummy"@,
            ErrorKind::Internal => "internal"@,
            ErrorKind::Other => "other"@,
            ErrorKind::NotFound => "not found"@,
            ErrorKind::PermissionDenied => "permission denied"@,
            ErrorKind::Interrupted => "interrupted"@,
            ErrorKind::Failure => "failure"@,
            ErrorKind::LexerError => "lexer error"@,
            ErrorKind::SyntaxError => "syntax error"@,
            ErrorKind::EngineError => "engine error"@,
            ErrorKind::BrokenPipe => "broken pipe"@,
            ErrorKind::InvalidInput => "invalid input"@,
        }
    }

    pub fn as_str(&self) -> (r: &'static str)
        ensures
            r@ == self.name(),
    {
        match self {
            ErrorKind::Dummy => "Dummy",
            ErrorKind::Internal => "Internal",
            ErrorKind::Other => "Other",
            ErrorKind::NotFound => "NotFound",
            ErrorKind::PermissionDenied => "PermissionDenied",
            ErrorKind::Interrupted => "Interrupted",
            ErrorKind::Failure => "Failure",
            ErrorKind::LexerError => "LexerError",
            ErrorKind::SyntaxError => "SyntaxError",
            ErrorKind::EngineError => "EngineError",
            ErrorKind::BrokenPipe => "BrokenPipe",
            ErrorKind::InvalidInput => "InvalidInput",
        }
    }

    pub fn as_str2(&self) -> (r: &'static str)
        ensures
            r@ == self.description(),
    {
        match self {
            ErrorKind::Dummy => "dummy",
            ErrorKind::Internal => "internal",
            ErrorKind::Other => "other",
            ErrorKind::NotFound => "not found",
            ErrorKind::PermissionDenied => "permission denied",
            ErrorKind::Interrupted => "interrupted",
            ErrorKind::Failure => "failure",
            ErrorKind::LexerError => "lexer error",
            ErrorKind::SyntaxError => "syntax error",
            ErrorKind::EngineError => "engine error",
            ErrorKind::BrokenPipe => "broken pipe",
            ErrorKind::InvalidInput => "invalid input",
        }
    }

    /// The name of the kind as an owned string.
    pub fn to_string(&self) -> (r: String)
        ensures
            r@ == self.name(),
    {
        String::from_str(self.as_str())
    }
}

/// An error: its kind and a message for the user.
#[derive(Debug, PartialEq)]
pub struct Error {
    kind: ErrorKind,
    message: String,
}

/// What an `Error` stands for in contracts.
pub struct ErrorView {
    pub kind: ErrorKind,
    pub message: Seq<char>,
}

impl View for Error {
    type V = ErrorView;

    closed spec fn view(&self) -> ErrorView {
        ErrorView { kind: self.kind, message: self.message@ }
    }
}

impl Clone for Error {
    fn clone(&self) -> (r: Error)
        ensures
            r@ == self@,
    {
        Error { kind: self.kind, message: self.message.clone() }
    }
}

/// The view of an error of the given kind and message.
pub open spec fn error_of(kind: ErrorKind, message: Seq<char>) -> ErrorView {
    ErrorView { kind, message }
}

impl Error {
    pub fn new(kind: ErrorKind, message: &str) -> (r: Error)
        ensures
            r@ == error_of(kind, message@),
    {
        Error { kind, message: String::from_str(message) }
    }

    /// The placeholder error: kind `Dummy`, no message.
    pub fn dummy() -> (r: Error)
        ensures
            r@ == error_of(ErrorKind::Dummy, Seq::empty()),
    {
        Error { kind: ErrorKind::Dummy, message: String::new() }
    }

    /// The error of kind `Internal` with no message.
    pub fn internal() -> (r: Error)
        ensures
            r@ == error_of(ErrorKind::Internal, Seq::empty()),
    {
        Error { kind: ErrorKind::Internal, message: String::new() }
    }

    pub fn kind(&self) -> (r: &ErrorKind)
        ensures
            *r == self@.kind,
    {
        &self.kind
    }

    pub fn message(&self) -> (r: &str)
        ensures
            r@ == self@.message,
    {
        self.message.as_str()
    }
}

} // verus!
