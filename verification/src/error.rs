//! The ways in which a conversion can fail.

use regex::Error as SyntaxError;
use vstd::prelude::*;

verus! {

/// Why a conversion stopped. Every failure ends the whole conversion: no
/// partial result is ever handed out.
#[derive(Debug, PartialEq)]
pub enum Error {
    /// A sheet, a column, a tag or an attribute code was looked up under the
    /// given key and is not there.
    NotFound(String),
    /// Data that must be present is missing; the text says where.
    Empty(String),
    /// The given text must denote a number and does not, or the number it
    /// leads to does not fit in 32 bits.
    ParseInt(String),
    /// A table cannot hold two columns under the given name.
    Duplicate(String),
    /// The given row or column does not have the extent of the others.
    Shape(String),
    /// The numbers that belong to the given address lead beyond 32 bits.
    Overflow(String),
    /// A search expression was refused by the expression compiler.
    Regex(SyntaxError),
}

/// The mathematical content of an [`Error`]. Of a refused search
/// expression only the fact is kept.
pub enum ErrorModel {
    NotFound(Seq<char>),
    Empty(Seq<char>),
    ParseInt(Seq<char>),
    Duplicate(Seq<char>),
    Shape(Seq<char>),
    Overflow(Seq<char>),
    Regex,
}

impl View for Error {
    type V = ErrorModel;

    open spec fn view(&self) -> ErrorModel {
        match self {
            Error::NotFound(s) => ErrorModel::NotFound(s@),
            Error::Empty(s) => ErrorModel::Empty(s@),
            Error::ParseInt(s) => ErrorModel::ParseInt(s@),
            Error::Duplicate(s) => ErrorModel::Duplicate(s@),
            Error::Shape(s) => ErrorModel::Shape(s@),
            Error::Overflow(s) => ErrorModel::Overflow(s@),
            Error::Regex(_) => ErrorModel::Regex,
        }
    }
}

} // verus!
