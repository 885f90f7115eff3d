//! The pieces that a text is split into.

use crate::cli::syllable::{Syllable, SyllableView};
use vstd::prelude::*;

verus! {

/// One piece of the text.
#[derive(Debug, PartialEq, Eq)]
pub enum Token {
    /// A syllable.
    Syllable(Syllable),
    /// A punctuation mark, as it was written.
    Punctuation(String),
    /// The apostrophe that keeps two syllables apart.
    Separator,
    /// A run of white space.
    Space,
}

/// A token as contracts see it.
pub enum TokenView {
    Syllable(SyllableView),
    Punctuation(Seq<char>),
    Separator,
    Space,
}

impl View for Token {
    type V = TokenView;

    open spec fn view(&self) -> TokenView {
        match self {
            Token::Syllable(syllable) => TokenView::Syllable(syllable@),
            Token::Punctuation(mark) => TokenView::Punctuation(mark@),
            Token::Separator => TokenView::Separator,
            Token::Space => TokenView::Space,
        }
    }
}

/// The tokens as contracts see them.
pub open spec fn token_views(tokens: Seq<Token>) -> Seq<TokenView> {
    tokens.map_values(|token: Token| token@)
}

} // verus!
