//! The closed taxonomy of per-line failures. Every error is a value
//! local to its line; no error stops the processing of another line.

use vstd::prelude::*;

verus! {

/// Why a line failed to become an action record.
#[derive(Debug, PartialEq, Eq)]
pub enum ProcessingError {
    /// The raw line is empty.
    EmptyLine,
    /// Splitting on tabs did not yield exactly ten fields.
    WrongFieldCount,
    /// The body or the user agent is empty, or the body lacks the
    /// action-group marker substring.
    EmptyBody,
    /// The body is not valid JSON, or is not a JSON object.
    MalformedBody,
    /// The body object has no string `action_name`.
    MissingActionName,
    /// The `action_name` is a string outside the allow-list.
    UnrecognizedActionName(String),
    /// The allow-list and the final dispatch disagreed.
    InvalidClassification,
}

/// The mathematical shape of a processing error.
pub enum ErrView {
    EmptyLine,
    WrongFieldCount,
    EmptyBody,
    MalformedBody,
    MissingActionName,
    UnrecognizedActionName(Seq<char>),
    InvalidClassification,
}

impl View for ProcessingError {
    type V = ErrView;

    open spec fn view(&self) -> ErrView {
        match self {
            ProcessingError::EmptyLine => ErrView::EmptyLine,
            ProcessingError::WrongFieldCount => ErrView::WrongFieldCount,
            ProcessingError::EmptyBody => ErrView::EmptyBody,
            ProcessingError::MalformedBody => ErrView::MalformedBody,
            ProcessingError::MissingActionName => ErrView::MissingActionName,
            ProcessingError::UnrecognizedActionName(n) => ErrView::UnrecognizedActionName(n@),
            ProcessingError::InvalidClassification => ErrView::InvalidClassification,
        }
    }
}

} // verus!
