//! The crate-wide error type: a kind, a message, and an optional help line.

use vstd::prelude::*;

verus! {

/// The rough category of a failure, mirroring the situations the tool
/// runs into: bad user input, a missing playground or template, or
/// anything else.
#[derive(Clone, Copy, Debug, PartialEq, Eq, Structural)]
pub enum ErrorKind {
    InvalidInput,
    NotFound,
    Other,
}

/// An error with a category, a human-readable message, and an optional
/// help line shown under the message.
#[derive(Debug)]
pub struct Error {
    kind: ErrorKind,
    message: String,
    help: Option<String>,
}

impl Error {
    /// Builds an error of the given kind with no help line.
    pub fn new(kind: ErrorKind, message: String) -> (e: Error)
        ensures
            e.kind() == kind,
            e.message() == message@,
            e.help() is None,
    {
        Error { kind, message, help: None }
    }

    /// Attaches a help line, keeping kind and message.
    pub fn with_help(self, help: String) -> (e: Error)
        ensures
            e.kind() == self.kind(),
            e.message() == self.message(),
            e.help() == Some(help@),
    {
        Error { help: Some(help), ..self }
    }

    /// The category of this error.
    pub closed spec fn kind(&self) -> ErrorKind {
        self.kind
    }

    /// The message text of this error.
    pub closed spec fn message(&self) -> Seq<char> {
        self.message@
    }

    /// The help text, if any was attached.
    pub closed spec fn help(&self) -> Option<Seq<char>> {
        match self.help {
            Some(ref h) => Some(h@),
            None => None,
        }
    }

    /// Reads the category out of the error.
    pub fn get_kind(&self) -> (k: ErrorKind)
        ensures
            k == self.kind(),
    {
        self.kind
    }

    /// Reads the message out of the error.
    pub fn get_message(&self) -> (m: &String)
        ensures
            m@ == self.message(),
    {
        &self.message
    }

    /// Reads the help line out of the error, if one was attached.
    pub fn get_help(&self) -> (h: &Option<String>)
        ensures
            match h {
                Some(s) => self.help() == Some(s@),
                None => self.help() is None,
            },
    {
        &self.help
    }
}

} // verus!
