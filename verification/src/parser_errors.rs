//! The errors the parsers report.

use vstd::prelude::*;

verus! {

/// Why a text could not be parsed.
#[derive(Debug, Clone, PartialEq, Eq)]
pub enum ParserError {
    StartAtOutOfBounds { start_at: usize, token_count: usize },
    SectionTitleMissingClosingAfterOpening { opening_index: usize },
    SectionTitleUnbalancedStyle { opening_index: usize, opening_style: String, closing_style: String },
    InvalidPlainText { start_at: usize },
    UnexpectedToken { expected: String, found: String, index: usize },
    InlineMissingClosing { markup: String, start_at: usize },
    ListStyleError { marker: String, conflicting_marker: String },
    ListEndError,
    ListMarkerError { marker: String },
    LiteralBlockError { message: String },
    UnexpectedBlockEndError,
}

/// The mathematical value of a parser error: its variant with the text of
/// each field.
pub enum ErrorKind {
    StartAtOutOfBounds { start_at: usize, token_count: usize },
    SectionTitleMissingClosingAfterOpening { opening_index: usize },
    SectionTitleUnbalancedStyle { opening_index: usize, opening_style: Seq<char>, closing_style: Seq<char> },
    InvalidPlainText { start_at: usize },
    UnexpectedToken { expected: Seq<char>, found: Seq<char>, index: usize },
    InlineMissingClosing { markup: Seq<char>, start_at: usize },
    ListStyleError { marker: Seq<char>, conflicting_marker: Seq<char> },
    ListEndError,
    ListMarkerError { marker: Seq<char> },
    LiteralBlockError { message: Seq<char> },
    UnexpectedBlockEndError,
}

impl View for ParserError {
    type V = ErrorKind;

    open spec fn view(&self) -> ErrorKind {
        match self {
            ParserError::StartAtOutOfBounds { start_at, token_count } => ErrorKind::StartAtOutOfBounds {
                start_at: *start_at,
                token_count: *token_count,
            },
            ParserError::SectionTitleMissingClosingAfterOpening { opening_index } =>
                ErrorKind::SectionTitleMissingClosingAfterOpening { opening_index: *opening_index },
            ParserError::SectionTitleUnbalancedStyle { opening_index, opening_style, closing_style } =>
                ErrorKind::SectionTitleUnbalancedStyle {
                opening_index: *opening_index,
                opening_style: opening_style@,
                closing_style: closing_style@,
            },
            ParserError::InvalidPlainText { start_at } => ErrorKind::InvalidPlainText { start_at: *start_at },
            ParserError::UnexpectedToken { expected, found, index } => ErrorKind::UnexpectedToken {
                expected: expected@,
                found: found@,
                index: *index,
            },
            ParserError::InlineMissingClosing { markup, start_at } => ErrorKind::InlineMissingClosing {
                markup: markup@,
                start_at: *start_at,
            },
            ParserError::ListStyleError { marker, conflicting_marker } => ErrorKind::ListStyleError {
                marker: marker@,
                conflicting_marker: conflicting_marker@,
            },
            ParserError::ListEndError => ErrorKind::ListEndError,
            ParserError::ListMarkerError { marker } => ErrorKind::ListMarkerError { marker: marker@ },
            ParserError::LiteralBlockError { message } => ErrorKind::LiteralBlockError { message: message@ },
            ParserError::UnexpectedBlockEndError => ErrorKind::UnexpectedBlockEndError,
        }
    }
}

} // verus!
