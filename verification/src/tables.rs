//! The phonological tables: initials and finals in IPA, the pitch contour
//! of each tone, the vowels under their tone marks, and the raised digits.

use crate::text::{chars_of, contains, contains_text, is_text, no_digit};
use vstd::prelude::*;
use vstd::string::*;

verus! {

/// The IPA rendering of an initial written in lower case.
pub open spec fn onset_ipa(onset: Seq<char>) -> Option<Seq<char>> {
    if onset == "b"@ {
        Some("p"@)
    } else if onset == "p"@ {
        Some("pʰ"@)
    } else if onset == "m"@ {
        Some("m"@)
    } else if onset == "f"@ {
        Some("f"@)
    } else if onset == "d"@ {
        Some("t"@)
    } else if onset == "t"@ {
        Some("tʰ"@)
    } else if onset == "n"@ {
        Some("n"@)
    } else if onset == "l"@ {
        Some("l"@)
    } else if onset == "g"@ {
        Some("k"@)
    } else if onset == "k"@ {
        Some("kʰ"@)
    } else if onset == "h"@ {
        Some("x"@)
    } else if onset == "j"@ {
        Some("tɕ"@)
    } else if onset == "q"@ {
        Some("tɕʰ"@)
    } else if onset == "x"@ {
        Some("ɕ"@)
    } else if onset == "zh"@ {
        Some("tʂ"@)
    } else if onset == "ch"@ {
        Some("tʂʰ"@)
    } else if onset == "sh"@ {
        Some("ʂ"@)
    } else if onset == "r"@ {
        Some("ʐ"@)
    } else if onset == "z"@ {
        Some("ts"@)
    } else if onset == "c"@ {
        Some("tsʰ"@)
    } else if onset == "s"@ {
        Some("s"@)
    } else {
        None
    }
}

/// The IPA rendering of a final, written as the tokenizer leaves it for the
/// IPA formats: plain finals, finals with a glide, the two apical vowels
/// `z` and `r`, and the r-coloured finals.
pub open spec fn rhyme_ipa(rhyme: Seq<char>) -> Option<Seq<char>> {
    if rhyme == "a"@ {
        Some("ɑ"@)
    } else if rhyme == "ai"@ {
        Some("aj"@)
    } else if rhyme == "ao"@ {
        Some("ɑw"@)
    } else if rhyme == "an"@ {
        Some("an"@)
    } else if rhyme == "ang"@ {
        Some("ɑŋ"@)
    } else if rhyme == "e"@ {
        Some("ɤ"@)
    } else if rhyme == "ei"@ {
        Some("ej"@)
    } else if rhyme == "en"@ {
        Some("ən"@)
    } else if rhyme == "eng"@ {
        Some("əŋ"@)
    } else if rhyme == "o"@ {
        Some("wʌ"@)
    } else if rhyme == "uo"@ {
        Some("wʌ"@)
    } else if rhyme == "ou"@ {
        Some("ɤw"@)
    } else if rhyme == "ong"@ {
        Some("ʊŋ"@)
    } else if rhyme == "i"@ {
        Some("i"@)
    } else if rhyme == "ia"@ {
        Some("jɑ"@)
    } else if rhyme == "iao"@ {
        Some("jɑw"@)
    } else if rhyme == "ie"@ {
        Some("jɛ"@)
    } else if rhyme == "iu"@ {
        Some("jɤw"@)
    } else if rhyme == "iou"@ {
        Some("jɤw"@)
    } else if rhyme == "ian"@ {
        Some("jɛn"@)
    } else if rhyme == "iang"@ {
        Some("jɑŋ"@)
    } else if rhyme == "in"@ {
        Some("in"@)
    } else if rhyme == "ing"@ {
        Some("iŋ"@)
    } else if rhyme == "iong"@ {
        Some("jʊŋ"@)
    } else if rhyme == "u"@ {
        Some("u"@)
    } else if rhyme == "ua"@ {
        Some("wɑ"@)
    } else if rhyme == "uai"@ {
        Some("waj"@)
    } else if rhyme == "uan"@ {
        Some("wan"@)
    } else if rhyme == "uang"@ {
        Some("wɑŋ"@)
    } else if rhyme == "ui"@ {
        Some("wej"@)
    } else if rhyme == "uei"@ {
        Some("wej"@)
    } else if rhyme == "un"@ {
        Some("wən"@)
    } else if rhyme == "uen"@ {
        Some("wən"@)
    } else if rhyme == "ueng"@ {
        Some("wəŋ"@)
    } else if rhyme == "ü"@ {
        Some("y"@)
    } else if rhyme == "v"@ {
        Some("y"@)
    } else if rhyme == "üe"@ {
        Some("ɥœ"@)
    } else if rhyme == "ve"@ {
        Some("ɥœ"@)
    } else if rhyme == "üan"@ {
        Some("ɥɛn"@)
    } else if rhyme == "van"@ {
        Some("ɥɛn"@)
    } else if rhyme == "ün"@ {
        Some("yn"@)
    } else if rhyme == "vn"@ {
        Some("yn"@)
    } else if rhyme == "üen"@ {
        Some("yn"@)
    } else if rhyme == "z"@ {
        Some("ɿ"@)
    } else if rhyme == "r"@ {
        Some("ʅ"@)
    } else if rhyme == "ar"@ {
        Some("ɐʵ"@)
    } else if rhyme == "air"@ {
        Some("ɐʵ"@)
    } else if rhyme == "aor"@ {
        Some("ɑʊʵ"@)
    } else if rhyme == "anr"@ {
        Some("ɐʵ"@)
    } else if rhyme == "angr"@ {
        Some("ɑ\u{303}ʵ"@)
    } else if rhyme == "er"@ {
        Some("ɤʵ"@)
    } else if rhyme == "eir"@ {
        Some("ɚ"@)
    } else if rhyme == "enr"@ {
        Some("ɚ"@)
    } else if rhyme == "engr"@ {
        Some("ɤ\u{303}ʵ"@)
    } else if rhyme == "or"@ {
        Some("wɔʵ"@)
    } else if rhyme == "uor"@ {
        Some("wɔʵ"@)
    } else if rhyme == "our"@ {
        Some("ɤʊʵ"@)
    } else if rhyme == "ongr"@ {
        Some("ʊ\u{303}ʵ"@)
    } else if rhyme == "ir"@ {
        Some("jɚ"@)
    } else if rhyme == "rr"@ {
        Some("ɚ"@)
    } else if rhyme == "zr"@ {
        Some("ɚ"@)
    } else if rhyme == "iar"@ {
        Some("jɐʵ"@)
    } else if rhyme == "iaor"@ {
        Some("jɑʊʵ"@)
    } else if rhyme == "ier"@ {
        Some("jɛʵ"@)
    } else if rhyme == "iur"@ {
        Some("jɤʊʵ"@)
    } else if rhyme == "iour"@ {
        Some("jɤʊʵ"@)
    } else if rhyme == "ianr"@ {
        Some("jɐʵ"@)
    } else if rhyme == "iangr"@ {
        Some("jɑ\u{303}ʵ"@)
    } else if rhyme == "inr"@ {
        Some("jɚ"@)
    } else if rhyme == "ingr"@ {
        Some("jɤ\u{303}ʵ"@)
    } else if rhyme == "iongr"@ {
        Some("jʊ\u{303}ʵ"@)
    } else if rhyme == "ur"@ {
        Some("uʵ"@)
    } else if rhyme == "uar"@ {
        Some("wɐʵ"@)
    } else if rhyme == "uair"@ {
        Some("wɐʵ"@)
    } else if rhyme == "uanr"@ {
        Some("wɐʵ"@)
    } else if rhyme == "uangr"@ {
        Some("wɑ\u{303}ʵ"@)
    } else if rhyme == "uir"@ {
        Some("wɚ"@)
    } else if rhyme == "ueir"@ {
        Some("wɚ"@)
    } else if rhyme == "unr"@ {
        Some("wɚ"@)
    } else if rhyme == "uenr"@ {
        Some("wɚ"@)
    } else if rhyme == "uengr"@ {
        Some("wɤ\u{303}ʵ"@)
    } else if rhyme == "ür"@ {
        Some("ɥɚ"@)
    } else if rhyme == "üer"@ {
        Some("ɥœʵ"@)
    } else if rhyme == "üanr"@ {
        Some("ɥɐʵ"@)
    } else if rhyme == "ünr"@ {
        Some("ɥɚ"@)
    } else if rhyme == "üenr"@ {
        Some("ɥɚ"@)
    } else if rhyme == "vr"@ {
        Some("ɥɚ"@)
    } else if rhyme == "ver"@ {
        Some("ɥœʵ"@)
    } else if rhyme == "vanr"@ {
        Some("ɥɐʵ"@)
    } else if rhyme == "vnr"@ {
        Some("ɥɚ"@)
    } else {
        None
    }
}

/// The pitch contour of a tone: the neutral tone may be written 0 or 5.
pub open spec fn tone_contour(tone: nat) -> Option<Seq<char>> {
    if tone == 0 || tone == 5 {
        Some("0"@)
    } else if tone == 1 {
        Some("55"@)
    } else if tone == 2 {
        Some("35"@)
    } else if tone == 3 {
        Some("214"@)
    } else if tone == 4 {
        Some("51"@)
    } else {
        None
    }
}

/// The vowel of a final that takes the tone mark. In `iu` it is the `u`;
/// otherwise `a`, `e` and `o` come before `i`, `u` and `ü`, for which `v`
/// may be written. `None` for a final without any of them.
pub open spec fn tone_vowel(rhyme: Seq<char>) -> Option<Seq<char>> {
    if contains_text(rhyme, "iu"@) {
        Some("u"@)
    } else if contains_text(rhyme, "a"@) {
        Some("a"@)
    } else if contains_text(rhyme, "e"@) {
        Some("e"@)
    } else if contains_text(rhyme, "o"@) {
        Some("o"@)
    } else if contains_text(rhyme, "i"@) {
        Some("i"@)
    } else if contains_text(rhyme, "u"@) {
        Some("u"@)
    } else if contains_text(rhyme, "ü"@) {
        Some("ü"@)
    } else if contains_text(rhyme, "v"@) {
        Some("v"@)
    } else {
        None
    }
}

/// A vowel under the mark of a tone from 1 to 4. For `v` the result is a
/// `u` followed by the combining diaeresis and the combining mark.
pub open spec fn marked_vowel(vowel: Seq<char>, tone: nat) -> Seq<char> {
    if vowel == "a"@ {
        if tone == 1 {
            "ā"@
        }         else if tone == 2 {
            "á"@
        }         else if tone == 3 {
            "ǎ"@
        } else {
            "à"@
        }
    } else if vowel == "e"@ {
        if tone == 1 {
            "ē"@
        }         else if tone == 2 {
            "é"@
        }         else if tone == 3 {
            "ě"@
        } else {
            "è"@
        }
    } else if vowel == "o"@ {
        if tone == 1 {
            "ō"@
        }         else if tone == 2 {
            "ó"@
        }         else if tone == 3 {
            "ǒ"@
        } else {
            "ò"@
        }
    } else if vowel == "i"@ {
        if tone == 1 {
            "ī"@
        }         else if tone == 2 {
            "í"@
        }         else if tone == 3 {
            "ǐ"@
        } else {
            "ì"@
        }
    } else if vowel == "u"@ {
        if tone == 1 {
            "ū"@
        }         else if tone == 2 {
            "ú"@
        }         else if tone == 3 {
            "ǔ"@
        } else {
            "ù"@
        }
    } else if vowel == "ü"@ {
        if tone == 1 {
            "ǖ"@
        }         else if tone == 2 {
            "ǘ"@
        }         else if tone == 3 {
            "ǚ"@
        } else {
            "ǜ"@
        }
    } else if vowel == "v"@ {
        if tone == 1 {
            "u\u{308}\u{304}"@
        }         else if tone == 2 {
            "u\u{308}\u{301}"@
        }         else if tone == 3 {
            "u\u{308}\u{30c}"@
        } else {
            "u\u{308}\u{300}"@
        }
    } else {
        vowel
    }
}

/// The raised form of a digit from 0 to 5; any other character is itself.
pub open spec fn raised(c: char) -> char {
    if c == '0' {
        '⁰'
    } else if c == '1' {
        '¹'
    } else if c == '2' {
        '²'
    } else if c == '3' {
        '³'
    } else if c == '4' {
        '⁴'
    } else if c == '5' {
        '⁵'
    } else {
        c
    }
}

/// Looks an initial, written in lower case, up in the table of initials.
pub fn onset_to_ipa(onset: &str) -> (ipa: Option<&'static str>)
    ensures
        match ipa {
            Some(found) => onset_ipa(onset@) == Some(found@),
            None => onset_ipa(onset@) is None,
        },
{
    let chars = chars_of(onset);
    if is_text(&chars, "b") {
        Some("p")
    } else if is_text(&chars, "p") {
        Some("pʰ")
    } else if is_text(&chars, "m") {
        Some("m")
    } else if is_text(&chars, "f") {
        Some("f")
    } else if is_text(&chars, "d") {
        Some("t")
    } else if is_text(&chars, "t") {
        Some("tʰ")
    } else if is_text(&chars, "n") {
        Some("n")
    } else if is_text(&chars, "l") {
        Some("l")
    } else if is_text(&chars, "g") {
        Some("k")
    } else if is_text(&chars, "k") {
        Some("kʰ")
    } else if is_text(&chars, "h") {
        Some("x")
    } else if is_text(&chars, "j") {
        Some("tɕ")
    } else if is_text(&chars, "q") {
        Some("tɕʰ")
    } else if is_text(&chars, "x") {
        Some("ɕ")
    } else if is_text(&chars, "zh") {
        Some("tʂ")
    } else if is_text(&chars, "ch") {
        Some("tʂʰ")
    } else if is_text(&chars, "sh") {
        Some("ʂ")
    } else if is_text(&chars, "r") {
        Some("ʐ")
    } else if is_text(&chars, "z") {
        Some("ts")
    } else if is_text(&chars, "c") {
        Some("tsʰ")
    } else if is_text(&chars, "s") {
        Some("s")
    } else {
        None
    }
}

/// Looks a final up in the table of finals.
pub fn rhyme_to_ipa(rhyme: &str) -> (ipa: Option<&'static str>)
    ensures
        match ipa {
            Some(found) => rhyme_ipa(rhyme@) == Some(found@),
            None => rhyme_ipa(rhyme@) is None,
        },
{
    let chars = chars_of(rhyme);
    if is_text(&chars, "a") {
        Some("ɑ")
    } else if is_text(&chars, "ai") {
        Some("aj")
    } else if is_text(&chars, "ao") {
        Some("ɑw")
    } else if is_text(&chars, "an") {
        Some("an")
    } else if is_text(&chars, "ang") {
        Some("ɑŋ")
    } else if is_text(&chars, "e") {
        Some("ɤ")
    } else if is_text(&chars, "ei") {
        Some("ej")
    } else if is_text(&chars, "en") {
        Some("ən")
    } else if is_text(&chars, "eng") {
        Some("əŋ")
    } else if is_text(&chars, "o") {
        Some("wʌ")
    } else if is_text(&chars, "uo") {
        Some("wʌ")
    } else if is_text(&chars, "ou") {
        Some("ɤw")
    } else if is_text(&chars, "ong") {
        Some("ʊŋ")
    } else if is_text(&chars, "i") {
        Some("i")
    } else if is_text(&chars, "ia") {
        Some("jɑ")
    } else if is_text(&chars, "iao") {
        Some("jɑw")
    } else if is_text(&chars, "ie") {
        Some("jɛ")
    } else if is_text(&chars, "iu") {
        Some("jɤw")
    } else if is_text(&chars, "iou") {
        Some("jɤw")
    } else if is_text(&chars, "ian") {
        Some("jɛn")
    } else if is_text(&chars, "iang") {
        Some("jɑŋ")
    } else if is_text(&chars, "in") {
        Some("in")
    } else if is_text(&chars, "ing") {
        Some("iŋ")
    } else if is_text(&chars, "iong") {
        Some("jʊŋ")
    } else if is_text(&chars, "u") {
        Some("u")
    } else if is_text(&chars, "ua") {
        Some("wɑ")
    } else if is_text(&chars, "uai") {
        Some("waj")
    } else if is_text(&chars, "uan") {
        Some("wan")
    } else if is_text(&chars, "uang") {
        Some("wɑŋ")
    } else if is_text(&chars, "ui") {
        Some("wej")
    } else if is_text(&chars, "uei") {
        Some("wej")
    } else if is_text(&chars, "un") {
        Some("wən")
    } else if is_text(&chars, "uen") {
        Some("wən")
    } else if is_text(&chars, "ueng") {
        Some("wəŋ")
    } else if is_text(&chars, "ü") {
        Some("y")
    } else if is_text(&chars, "v") {
        Some("y")
    } else if is_text(&chars, "üe") {
        Some("ɥœ")
    } else if is_text(&chars, "ve") {
        Some("ɥœ")
    } else if is_text(&chars, "üan") {
        Some("ɥɛn")
    } else if is_text(&chars, "van") {
        Some("ɥɛn")
    } else if is_text(&chars, "ün") {
        Some("yn")
    } else if is_text(&chars, "vn") {
        Some("yn")
    } else if is_text(&chars, "üen") {
        Some("yn")
    } else if is_text(&chars, "z") {
        Some("ɿ")
    } else if is_text(&chars, "r") {
        Some("ʅ")
    } else if is_text(&chars, "ar") {
        Some("ɐʵ")
    } else if is_text(&chars, "air") {
        Some("ɐʵ")
    } else if is_text(&chars, "aor") {
        Some("ɑʊʵ")
    } else if is_text(&chars, "anr") {
        Some("ɐʵ")
    } else if is_text(&chars, "angr") {
        Some("ɑ\u{303}ʵ")
    } else if is_text(&chars, "er") {
        Some("ɤʵ")
    } else if is_text(&chars, "eir") {
        Some("ɚ")
    } else if is_text(&chars, "enr") {
        Some("ɚ")
    } else if is_text(&chars, "engr") {
        Some("ɤ\u{303}ʵ")
    } else if is_text(&chars, "or") {
        Some("wɔʵ")
    } else if is_text(&chars, "uor") {
        Some("wɔʵ")
    } else if is_text(&chars, "our") {
        Some("ɤʊʵ")
    } else if is_text(&chars, "ongr") {
        Some("ʊ\u{303}ʵ")
    } else if is_text(&chars, "ir") {
        Some("jɚ")
    } else if is_text(&chars, "rr") {
        Some("ɚ")
    } else if is_text(&chars, "zr") {
        Some("ɚ")
    } else if is_text(&chars, "iar") {
        Some("jɐʵ")
    } else if is_text(&chars, "iaor") {
        Some("jɑʊʵ")
    } else if is_text(&chars, "ier") {
        Some("jɛʵ")
    } else if is_text(&chars, "iur") {
        Some("jɤʊʵ")
    } else if is_text(&chars, "iour") {
        Some("jɤʊʵ")
    } else if is_text(&chars, "ianr") {
        Some("jɐʵ")
    } else if is_text(&chars, "iangr") {
        Some("jɑ\u{303}ʵ")
    } else if is_text(&chars, "inr") {
        Some("jɚ")
    } else if is_text(&chars, "ingr") {
        Some("jɤ\u{303}ʵ")
    } else if is_text(&chars, "iongr") {
        Some("jʊ\u{303}ʵ")
    } else if is_text(&chars, "ur") {
        Some("uʵ")
    } else if is_text(&chars, "uar") {
        Some("wɐʵ")
    } else if is_text(&chars, "uair") {
        Some("wɐʵ")
    } else if is_text(&chars, "uanr") {
        Some("wɐʵ")
    } else if is_text(&chars, "uangr") {
        Some("wɑ\u{303}ʵ")
    } else if is_text(&chars, "uir") {
        Some("wɚ")
    } else if is_text(&chars, "ueir") {
        Some("wɚ")
    } else if is_text(&chars, "unr") {
        Some("wɚ")
    } else if is_text(&chars, "uenr") {
        Some("wɚ")
    } else if is_text(&chars, "uengr") {
        Some("wɤ\u{303}ʵ")
    } else if is_text(&chars, "ür") {
        Some("ɥɚ")
    } else if is_text(&chars, "üer") {
        Some("ɥœʵ")
    } else if is_text(&chars, "üanr") {
        Some("ɥɐʵ")
    } else if is_text(&chars, "ünr") {
        Some("ɥɚ")
    } else if is_text(&chars, "üenr") {
        Some("ɥɚ")
    } else if is_text(&chars, "vr") {
        Some("ɥɚ")
    } else if is_text(&chars, "ver") {
        Some("ɥœʵ")
    } else if is_text(&chars, "vanr") {
        Some("ɥɐʵ")
    } else if is_text(&chars, "vnr") {
        Some("ɥɚ")
    } else {
        None
    }
}

/// Finds the vowel of a final that takes the tone mark.
pub fn find_tone_vowel(rhyme: &str) -> (vowel: Option<&'static str>)
    ensures
        match vowel {
            Some(found) => tone_vowel(rhyme@) == Some(found@),
            None => tone_vowel(rhyme@) is None,
        },
{
    if contains(rhyme, "iu") {
        Some("u")
    } else if contains(rhyme, "a") {
        Some("a")
    } else if contains(rhyme, "e") {
        Some("e")
    } else if contains(rhyme, "o") {
        Some("o")
    } else if contains(rhyme, "i") {
        Some("i")
    } else if contains(rhyme, "u") {
        Some("u")
    } else if contains(rhyme, "ü") {
        Some("ü")
    } else if contains(rhyme, "v") {
        Some("v")
    } else {
        None
    }
}

/// The vowel under the mark of a tone from 1 to 4.
pub fn mark_vowel(vowel: &'static str, tone: usize) -> (marked: &'static str)
    requires
        1 <= tone <= 4,
    ensures
        marked@ == marked_vowel(vowel@, tone as nat),
{
    let chars = chars_of(vowel);
    if is_text(&chars, "a") {
        if tone == 1 {
            "ā"
        }         else if tone == 2 {
            "á"
        }         else if tone == 3 {
            "ǎ"
        } else {
            "à"
        }
    } else if is_text(&chars, "e") {
        if tone == 1 {
            "ē"
        }         else if tone == 2 {
            "é"
        }         else if tone == 3 {
            "ě"
        } else {
            "è"
        }
    } else if is_text(&chars, "o") {
        if tone == 1 {
            "ō"
        }         else if tone == 2 {
            "ó"
        }         else if tone == 3 {
            "ǒ"
        } else {
            "ò"
        }
    } else if is_text(&chars, "i") {
        if tone == 1 {
            "ī"
        }         else if tone == 2 {
            "í"
        }         else if tone == 3 {
            "ǐ"
        } else {
            "ì"
        }
    } else if is_text(&chars, "u") {
        if tone == 1 {
            "ū"
        }         else if tone == 2 {
            "ú"
        }         else if tone == 3 {
            "ǔ"
        } else {
            "ù"
        }
    } else if is_text(&chars, "ü") {
        if tone == 1 {
            "ǖ"
        }         else if tone == 2 {
            "ǘ"
        }         else if tone == 3 {
            "ǚ"
        } else {
            "ǜ"
        }
    } else if is_text(&chars, "v") {
        if tone == 1 {
            "u\u{308}\u{304}"
        }         else if tone == 2 {
            "u\u{308}\u{301}"
        }         else if tone == 3 {
            "u\u{308}\u{30c}"
        } else {
            "u\u{308}\u{300}"
        }
    } else {
        vowel
    }
}

/// The raised digit for a digit from 0 to 5, as a text of one character.
pub fn raised_digit(c: char) -> (digit: Option<&'static str>)
    ensures
        match digit {
            Some(found) => found@ == seq![raised(c)],
            None => raised(c) == c,
        },
{
    proof {
        reveal_strlit("⁰");
        reveal_strlit("¹");
        reveal_strlit("²");
        reveal_strlit("³");
        reveal_strlit("⁴");
        reveal_strlit("⁵");
    }
    if c == '0' {
        Some("⁰")
    } else if c == '1' {
        Some("¹")
    } else if c == '2' {
        Some("²")
    } else if c == '3' {
        Some("³")
    } else if c == '4' {
        Some("⁴")
    } else if c == '5' {
        Some("⁵")
    } else {
        None
    }
}

/// No tone mark is a digit: the vowel that takes the mark holds no digit
/// from `0` to `9` under any tone.
pub proof fn lemma_marked_vowel_without_digit(rhyme: Seq<char>, tone: nat)
    ensures
        tone_vowel(rhyme) matches Some(vowel) ==> no_digit(marked_vowel(vowel, tone)),
{
    reveal_strlit("a");
    reveal_strlit("ā");
    reveal_strlit("á");
    reveal_strlit("ǎ");
    reveal_strlit("à");
    reveal_strlit("e");
    reveal_strlit("ē");
    reveal_strlit("é");
    reveal_strlit("ě");
    reveal_strlit("è");
    reveal_strlit("o");
    reveal_strlit("ō");
    reveal_strlit("ó");
    reveal_strlit("ǒ");
    reveal_strlit("ò");
    reveal_strlit("i");
    reveal_strlit("ī");
    reveal_strlit("í");
    reveal_strlit("ǐ");
    reveal_strlit("ì");
    reveal_strlit("u");
    reveal_strlit("ū");
    reveal_strlit("ú");
    reveal_strlit("ǔ");
    reveal_strlit("ù");
    reveal_strlit("ü");
    reveal_strlit("ǖ");
    reveal_strlit("ǘ");
    reveal_strlit("ǚ");
    reveal_strlit("ǜ");
    reveal_strlit("v");
    reveal_strlit("u\u{308}\u{304}");
    reveal_strlit("u\u{308}\u{301}");
    reveal_strlit("u\u{308}\u{30c}");
    reveal_strlit("u\u{308}\u{300}");
}

/// A pitch contour is made of digits from 0 to 5, and of at least one.
pub proof fn lemma_contour_digits(tone: nat)
    requires
        tone <= 5,
    ensures
        tone_contour(tone) matches Some(digits) && digits.len() > 0 && forall|i: int|
            0 <= i < digits.len() ==> '0' <= #[trigger] digits[i] <= '5',
{
    reveal_strlit("0");
    reveal_strlit("55");
    reveal_strlit("35");
    reveal_strlit("214");
    reveal_strlit("51");
}

/// The pitch contour of a tone, or `None` for a tone above 5.
pub fn contour_of(tone: usize) -> (contour: Option<&'static str>)
    ensures
        match contour {
            Some(digits) => tone_contour(tone as nat) == Some(digits@),
            None => tone_contour(tone as nat) is None,
        },
{
    if tone == 0 || tone == 5 {
        Some("0")
    } else if tone == 1 {
        Some("55")
    } else if tone == 2 {
        Some("35")
    } else if tone == 3 {
        Some("214")
    } else if tone == 4 {
        Some("51")
    } else {
        None
    }
}

} // verus!
