//! The single error type of the library.

use vstd::prelude::*;

verus! {

/// Why an operation of this library did not succeed.
///
/// Each variant carries the text with which the failing step described itself.
#[derive(Debug, Clone, PartialEq, Eq)]
pub enum Error {
    /// The confirmation prompt could not be shown or read.
    Interaction(String),
    /// The output directory could not be created.
    DirectorySetup(String),
    /// One file of the batch could not be created or fully written.
    EntryWrite(String),
}

/// Mathematical value of an [`Error`].
pub enum ErrorView {
    Interaction(Seq<char>),
    DirectorySetup(Seq<char>),
    EntryWrite(Seq<char>),
}

impl View for Error {
    type V = ErrorView;

    open spec fn view(&self) -> ErrorView {
        match self {
            Error::Interaction(text) => ErrorView::Interaction(text@),
            Error::DirectorySetup(text) => ErrorView::DirectorySetup(text@),
            Error::EntryWrite(text) => ErrorView::EntryWrite(text@),
        }
    }
}

impl ErrorView {
    /// The text that the failing step gave.
    pub open spec fn message(self) -> Seq<char> {
        match self {
            ErrorView::Interaction(text) => text,
            ErrorView::DirectorySetup(text) => text,
            ErrorView::EntryWrite(text) => text,
        }
    }
}

impl Error {
    /// The text that the failing step gave.
    pub fn message(&self) -> (text: &str)
        ensures
            text@ == self@.message(),
    {
        match self {
            Error::Interaction(text) => text.as_str(),
            Error::DirectorySetup(text) => text.as_str(),
            Error::EntryWrite(text) => text.as_str(),
        }
    }

    /// A copy of this error with the same value.
    pub fn duplicate(&self) -> (copy: Error)
        ensures
            copy@ == self@,
    {
        match self {
            Error::Interaction(text) => Error::Interaction(text.clone()),
            Error::DirectorySetup(text) => Error::DirectorySetup(text.clone()),
            Error::EntryWrite(text) => Error::EntryWrite(text.clone()),
        }
    }
}

} // verus!
