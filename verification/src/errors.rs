//! Error taxonomy of the markup and literal parsers.
//!
//! Every sub-parser failure aborts its whole enclosing parse or build call;
//! there is no partial-tree recovery anywhere in the pipeline.

use vstd::prelude::*;

verus! {

/// A failure while parsing a small string literal: a dimension, a color,
/// a number, a boolean, or an enumeration keyword.
#[derive(Debug)]
pub enum LiteralError {
    /// A color literal did not start with `#`.
    MissingPrefix,
    /// A color literal did not hold exactly six digits after the prefix.
    WrongLength,
    /// A color literal held a character that is not a hexadecimal digit.
    MalformedDigits,
    /// A dimension literal held no unit suffix at all.
    MissingUnit,
    /// A numeric mantissa or a bare number did not parse as a number.
    MalformedNumber,
    /// A boolean attribute was neither `true` nor `false`.
    MalformedBoolean,
    /// A dimension literal carried an unknown unit suffix.
    InvalidLiteral,
    /// An enumeration attribute held an unrecognized keyword; the payload
    /// names the offending attribute.
    InvalidEnumValue(String),
}

/// The mathematical value of a [`LiteralError`].
pub ghost enum LiteralErrorV {
    MissingPrefix,
    WrongLength,
    MalformedDigits,
    MissingUnit,
    MalformedNumber,
    MalformedBoolean,
    InvalidLiteral,
    InvalidEnumValue(Seq<char>),
}

impl View for LiteralError {
    type V = LiteralErrorV;

    open spec fn view(&self) -> LiteralErrorV {
        match self {
            LiteralError::MissingPrefix => LiteralErrorV::MissingPrefix,
            LiteralError::WrongLength => LiteralErrorV::WrongLength,
            LiteralError::MalformedDigits => LiteralErrorV::MalformedDigits,
            LiteralError::MissingUnit => LiteralErrorV::MissingUnit,
            LiteralError::MalformedNumber => LiteralErrorV::MalformedNumber,
            LiteralError::MalformedBoolean => LiteralErrorV::MalformedBoolean,
            LiteralError::InvalidLiteral => LiteralErrorV::InvalidLiteral,
            LiteralError::InvalidEnumValue(name) => LiteralErrorV::InvalidEnumValue(name@),
        }
    }
}

/// A failure while compiling a markup document into an element tree.
#[derive(Debug)]
pub enum MarkupError {
    /// The document held no top-level content node.
    EmptyDocument,
    /// A tag whose name is not part of the markup vocabulary; the payload
    /// holds that name.
    UnexpectedTag(String),
    /// The markup text could not be tokenized into a node tree at all.
    InvalidMarkup,
    /// A literal inside an attribute value was malformed.
    Literal(LiteralError),
}

/// The mathematical value of a [`MarkupError`].
pub ghost enum MarkupErrorV {
    EmptyDocument,
    UnexpectedTag(Seq<char>),
    InvalidMarkup,
    Literal(LiteralErrorV),
}

impl View for MarkupError {
    type V = MarkupErrorV;

    open spec fn view(&self) -> MarkupErrorV {
        match self {
            MarkupError::EmptyDocument => MarkupErrorV::EmptyDocument,
            MarkupError::UnexpectedTag(name) => MarkupErrorV::UnexpectedTag(name@),
            MarkupError::InvalidMarkup => MarkupErrorV::InvalidMarkup,
            MarkupError::Literal(e) => MarkupErrorV::Literal(e@),
        }
    }
}

} // verus!
