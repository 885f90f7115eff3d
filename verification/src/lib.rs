//! Conversion of numbered Pinyin into Pinyin with tone marks, Pinyin with
//! tone numbers, or IPA.
//!
//! The text is split into tokens (syllables, spaces, separators and
//! punctuation) and every token is rendered on its own under the chosen
//! [`cli::format::Format`]; the output is the concatenation of the renderings.

pub mod cli;
pub mod error;
pub mod scan;
pub mod tables;
pub mod text;
pub mod unicode;

pub use cli::token::Token;
pub use cli::Siphon;
