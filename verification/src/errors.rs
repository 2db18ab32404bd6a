//! The errors of the library.
use vstd::prelude::*;

verus! {

/// An error carried between the parts of the system.
#[derive(Debug, PartialEq, Eq)]
pub enum JError {
    /// A node of the syntax tree was taken for what it is not.
    ParserErr(String),
}

/// What went wrong while reading source text.
#[derive(Clone, Copy, Debug, PartialEq, Eq, Structural)]
pub enum ErrorKind {
    /// The text does not follow the grammar.
    SyntaxError,
    /// A reserved word stands where an identifier is wanted.
    ReservedKeyword,
    /// A number, a temporal value, a string or a symbol is malformed.
    LiteralError,
    /// A token of a series literal disagrees with the type that the first
    /// token chose.
    SeriesTypeError,
    /// A column of a matrix literal is neither numeric nor boolean.
    MatrixTypeError,
    /// The columns of a constant dataframe repeat a name or differ in length.
    DataframeShapeError,
    /// An operator was applied to operands that it does not take.
    InvalidOperation,
}

/// An error of the reader: what went wrong, a message, and the bytes of the
/// source that it is about.
#[derive(Debug, PartialEq, Eq)]
pub struct ParseError {
    pub kind: ErrorKind,
    pub message: String,
    pub start: usize,
    pub end: usize,
}

impl ParseError {
    /// The message, for display.
    pub fn to_string(&self) -> (r: String)
        ensures
            r@ == self.message@,
    {
        self.message.clone()
    }
}

/// An error of `kind` with `message`, about the bytes from `start` to `end`.
pub fn raise_error(kind: ErrorKind, message: String, start: usize, end: usize) -> (r: ParseError)
    ensures
        r.kind == kind,
        r.message == message,
        r.start == start,
        r.end == end,
{
    ParseError { kind, message, start, end }
}


/// What an error of the reader holds.
pub struct ErrView {
    pub kind: ErrorKind,
    pub message: Seq<char>,
    pub start: int,
    pub end: int,
}

impl View for ParseError {
    type V = ErrView;

    open spec fn view(&self) -> ErrView {
        ErrView {
            kind: self.kind,
            message: self.message@,
            start: self.start as int,
            end: self.end as int,
        }
    }
}

} // verus!
