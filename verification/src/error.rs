//! The ways in which a conversion fails.

use vstd::prelude::*;

verus! {

/// Why a text could not be split into tokens or a token could not be
/// rendered. A conversion stops at its first error.
#[derive(Debug)]
pub enum SiphonError {
    /// The token pattern was refused by the regex engine.
    Regex(regex::Error),
    /// The pattern matched a syllable whose final is empty.
    RhymeNotFound,
    /// The tone of the named syllable is above 5.
    TonConversionFail(String),
    /// The initial of the named syllable is not in the table of initials.
    InvalidInitial(String),
    /// The final of the named syllable is not in the table of finals.
    InvalidRhyme(String),
}

/// An error as contracts see it: the kind, and the syllable where one is named.
pub enum ErrorView {
    Regex,
    RhymeNotFound,
    TonConversionFail(Seq<char>),
    InvalidInitial(Seq<char>),
    InvalidRhyme(Seq<char>),
}

impl View for SiphonError {
    type V = ErrorView;

    open spec fn view(&self) -> ErrorView {
        match self {
            SiphonError::Regex(_) => ErrorView::Regex,
            SiphonError::RhymeNotFound => ErrorView::RhymeNotFound,
            SiphonError::TonConversionFail(full) => ErrorView::TonConversionFail(full@),
            SiphonError::InvalidInitial(full) => ErrorView::InvalidInitial(full@),
            SiphonError::InvalidRhyme(full) => ErrorView::InvalidRhyme(full@),
        }
    }
}

} // verus!
