//! The library's error values: a kind, an optional message, an optional
//! chained cause and an optional source location.

use vstd::prelude::*;

use crate::location::Location;

verus! {

/// The kinds of failure the library reports.
#[derive(Clone, Copy, Debug, PartialEq, Eq, Structural, Hash)]
pub enum ErrorKind {
    /// Something could not be read or written.
    IO,
    /// A lock was poisoned.
    LockPoisoned,
    /// A timeout was reached while acquiring a lock.
    LockTimeout,
    /// Parsing failed.
    Parsing,
    /// The active rule does not declare the marker kind requested.
    Rule,
    /// No configuration file was discovered.
    FileNotFound,
}

/// An error: its kind, an optional message, an optional chained cause and
/// the source location where it was constructed.
#[derive(Debug)]
pub struct Error {
    pub kind: ErrorKind,
    pub message: Option<Vec<u8>>,
    pub cause: Option<Box<Error>>,
    pub location: Option<Location>,
}

impl Error {
    /// Construct a new error from all four parts.
    pub fn new(
        k: ErrorKind,
        msg: Option<Vec<u8>>,
        cause: Option<Box<Error>>,
        location: Option<Location>,
    ) -> (r: Self)
        ensures
            r == (Error { kind: k, message: msg, cause, location }),
    {
        Error { kind: k, message: msg, cause, location }
    }

    /// Replace the message.
    pub fn with_message(self, m: Vec<u8>) -> (r: Self)
        ensures
            r == (Error { message: Some(m), ..self }),
    {
        Error { message: Some(m), ..self }
    }

    /// Replace the cause.
    pub fn with_cause(self, cause: Error) -> (r: Self)
        ensures
            r == (Error { cause: Some(Box::new(cause)), ..self }),
    {
        Error { cause: Some(Box::new(cause)), ..self }
    }

    /// Replace the source location.
    pub fn with_location(self, location: Location) -> (r: Self)
        ensures
            r == (Error { location: Some(location), ..self }),
    {
        Error { location: Some(location), ..self }
    }

    /// The error kind.
    pub fn kind(&self) -> (r: ErrorKind)
        ensures
            r == self.kind,
    {
        self.kind
    }

    /// The error message, if one was set.
    pub fn message(&self) -> (r: Option<&Vec<u8>>)
        ensures
            match r {
                Some(m) => self.message == Some(*m),
                None => self.message is None,
            },
    {
        self.message.as_ref()
    }

    /// The chained cause, if one was set.
    pub fn cause(&self) -> (r: Option<&Box<Error>>)
        ensures
            match r {
                Some(c) => self.cause == Some(*c),
                None => self.cause is None,
            },
    {
        self.cause.as_ref()
    }

    /// The source location, if one was set.
    pub fn location(&self) -> (r: Option<&Location>)
        ensures
            match r {
                Some(l) => self.location == Some(*l),
                None => self.location is None,
            },
    {
        self.location.as_ref()
    }

    /// A short human-readable text for the error kind.
    pub fn kind_text(&self) -> (r: Vec<u8>)
        ensures
            r@.len() > 0,
    {
        let s: &str = match self.kind {
            ErrorKind::IO => "i/o",
            ErrorKind::LockPoisoned => "lock poisoned",
            ErrorKind::LockTimeout => "lock timeout",
            ErrorKind::Parsing => "parsing failed",
            ErrorKind::Rule => "rule",
            ErrorKind::FileNotFound => "file not found",
        };
        let b = crate::bytes::byte_lit(s);
        if b.len() == 0 {
            let mut v: Vec<u8> = Vec::new();
            v.push(63);
            v
        } else {
            b
        }
    }
}

/// The library's result type.
pub type BuildResult<T> = Result<T, Error>;

} // verus!
