//! Why a note could not be read.

use vstd::prelude::*;

verus! {

/// The document lacks a part of its six-line header.
#[derive(Clone, Copy, Debug, PartialEq, Eq)]
pub enum FormatError {
    /// The document has fewer than six lines.
    MissingHeaderLines,
    /// The third line does not begin with the date label.
    MissingDatePrefix,
    /// The fourth line does not begin with the mood label.
    MissingMoodPrefix,
}

/// A header field is there and holds no value of its kind.
#[derive(Clone, Copy, Debug, PartialEq, Eq)]
pub enum ValueError {
    /// What follows the date label is no date and time.
    Date,
    /// What follows the mood label is no mood code.
    Mood,
}

/// A reference line names no attachment.
#[derive(Clone, Copy, Debug, PartialEq, Eq)]
pub enum ReferenceError {
    /// The line has no `(` followed, later on, by its first `)`.
    MissingSpan,
    /// The text between the brackets does not decode to a string.
    Encoding,
}

/// The first fault met while reading a document.
#[derive(Clone, Copy, Debug, PartialEq, Eq)]
pub enum ParseError {
    Format(FormatError),
    Value(ValueError),
    /// `line` counts the lines of the document from one.
    Reference { line: usize, error: ReferenceError },
}

} // verus!
