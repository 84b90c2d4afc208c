//! Error types for parsing styles, colors and markup.
use vstd::prelude::*;

verus! {

/// Errors that can occur when parsing styles, colors, or markup.
#[derive(Debug, Clone, PartialEq, Eq)]
pub enum ParseError {
    /// Invalid color specification.
    InvalidColor(String),
    /// Invalid style specification.
    InvalidStyle(String),
    /// Invalid markup syntax.
    InvalidMarkup(String),
    /// Unclosed tag in markup.
    UnclosedTag(String),
    /// Unexpected closing tag in markup.
    UnexpectedClosingTag(String),
}

impl ParseError {
    /// Create an invalid color error.
    pub fn invalid_color(s: String) -> (r: Self)
        ensures
            r == ParseError::InvalidColor(s),
    {
        ParseError::InvalidColor(s)
    }

    /// Create an invalid style error.
    pub fn invalid_style(s: String) -> (r: Self)
        ensures
            r == ParseError::InvalidStyle(s),
    {
        ParseError::InvalidStyle(s)
    }

    /// Create an invalid markup error.
    pub fn invalid_markup(s: String) -> (r: Self)
        ensures
            r == ParseError::InvalidMarkup(s),
    {
        ParseError::InvalidMarkup(s)
    }

    /// The message carried by the error.
    pub fn message(&self) -> (r: &String)
        ensures
            r == match self {
                ParseError::InvalidColor(m) => m,
                ParseError::InvalidStyle(m) => m,
                ParseError::InvalidMarkup(m) => m,
                ParseError::UnclosedTag(m) => m,
                ParseError::UnexpectedClosingTag(m) => m,
            },
    {
        match self {
            ParseError::InvalidColor(m) => m,
            ParseError::InvalidStyle(m) => m,
            ParseError::InvalidMarkup(m) => m,
            ParseError::UnclosedTag(m) => m,
            ParseError::UnexpectedClosingTag(m) => m,
        }
    }
}

/// Result type of the parsers of this crate.
pub type Result<T> = core::result::Result<T, ParseError>;

} // verus!
