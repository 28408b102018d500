//! What can go wrong, in words.

use vstd::prelude::*;

verus! {

/// A failure of the driver logic.
#[derive(Debug, Clone, PartialEq, Eq)]
pub enum Error {
    /// The device configuration is incomplete.
    Config(String),
    /// A caller asked for something out of range.
    InvalidParameter(String),
    /// A caller asked for something that the driver does not do.
    NotImplemented(String),
    /// Anything else.
    Other(String),
}

/// What an [`Error`] says.
pub enum ErrorView {
    Config(Seq<char>),
    InvalidParameter(Seq<char>),
    NotImplemented(Seq<char>),
    Other(Seq<char>),
}

impl View for Error {
    type V = ErrorView;

    open spec fn view(&self) -> ErrorView {
        match self {
            Error::Config(text) => ErrorView::Config(text@),
            Error::InvalidParameter(text) => ErrorView::InvalidParameter(text@),
            Error::NotImplemented(text) => ErrorView::NotImplemented(text@),
            Error::Other(text) => ErrorView::Other(text@),
        }
    }
}

impl ErrorView {
    /// The words of the error.
    pub open spec fn text(self) -> Seq<char> {
        match self {
            ErrorView::Config(text) => text,
            ErrorView::InvalidParameter(text) => text,
            ErrorView::NotImplemented(text) => text,
            ErrorView::Other(text) => text,
        }
    }
}

impl Error {
    /// The words of the error.
    pub fn message(&self) -> (text: &str)
        ensures
            text@ == self@.text(),
    {
        match self {
            Error::Config(text) => text.as_str(),
            Error::InvalidParameter(text) => text.as_str(),
            Error::NotImplemented(text) => text.as_str(),
            Error::Other(text) => text.as_str(),
        }
    }
}

/// The outcome is this failure.
pub open spec fn fails<T>(result: Result<T, Error>, error: ErrorView) -> bool {
    result matches Err(e) && e@ == error
}

/// The outcome is a failure of the general kind with these words.
pub open spec fn fails_saying<T>(result: Result<T, Error>, text: Seq<char>) -> bool {
    fails(result, ErrorView::Other(text))
}

} // verus!
