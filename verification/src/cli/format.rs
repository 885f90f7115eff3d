//! The output formats.

use vstd::prelude::*;

verus! {

/// The notation that the text is converted to.
#[derive(Debug, Clone, Copy, PartialEq, Eq, Structural)]
pub enum Format {
    /// Pinyin with tone marks, as in zhě.
    PinyinDiacritic,
    /// Pinyin followed by the pitch contour in raised digits.
    PinyinSuperscript,
    /// Pinyin followed by the pitch contour inside a LaTeX command.
    PinyinLaTeX,
    /// IPA followed by the pitch contour inside a LaTeX command.
    IPALaTeX,
    /// IPA followed by the pitch contour in raised digits.
    IPASuperscript,
}

impl Format {
    /// Whether syllables are written in IPA under this format.
    pub open spec fn ipa(self) -> bool {
        self == Format::IPALaTeX || self == Format::IPASuperscript
    }

    /// Whether syllables are written in IPA under this format.
    pub fn is_ipa(&self) -> (ipa: bool)
        ensures
            ipa == self.ipa(),
    {
        match self {
            Format::IPALaTeX | Format::IPASuperscript => true,
            _ => false,
        }
    }
}

} // verus!
