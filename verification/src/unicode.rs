//! What the Unicode tables decide: composition and lower case.

use unicode_normalization::UnicodeNormalization;
use vstd::prelude::*;

verus! {

/// `text` in Normalization Form C.
pub uninterp spec fn nfc_of(text: Seq<char>) -> Seq<char>;

/// `text` in lower case.
pub uninterp spec fn lowercase_of(text: Seq<char>) -> Seq<char>;

/// Composes `text` with `UnicodeNormalization::nfc`.
///
/// Believed, not proved: the result depends on the characters of `text`
/// alone.
#[verifier::external_body]
pub(crate) fn compose(text: &str) -> (composed: String)
    ensures
        composed@ == nfc_of(text@),
{
    text.nfc().collect()
}

/// Puts `text` in lower case with `str::to_lowercase`.
///
/// Believed, not proved: the result depends on the characters of `text`
/// alone.
#[verifier::external_body]
pub(crate) fn lowercase(text: &str) -> (lowered: String)
    ensures
        lowered@ == lowercase_of(text@),
{
    text.to_lowercase()
}

} // verus!
