//! One syllable and its renderings.

use crate::cli::format::Format;
use crate::error::{ErrorView, SiphonError};
use crate::tables::{
    contour_of, find_tone_vowel, lemma_contour_digits, lemma_marked_vowel_without_digit,
    mark_vowel, marked_vowel, onset_ipa, onset_to_ipa, raised, raised_digit, rhyme_ipa,
    rhyme_to_ipa, tone_contour, tone_vowel,
};
use crate::text::{
    chars_of, lemma_replaced_first_without_digit, no_digit, replace_all, replace_first,
    replaced_all, replaced_first,
};
use crate::unicode::{lowercase, lowercase_of};
use vstd::prelude::*;
use vstd::string::*;

verus! {

/// A syllable as the tokenizer found it. The tone is whatever number was
/// written: it is checked when the syllable is rendered, not before.
#[derive(Debug, PartialEq, Eq)]
pub struct Syllable {
    /// The text that was matched.
    pub full: String,
    /// The initial, if there is one.
    pub initial: Option<String>,
    /// The final.
    pub rhyme: String,
    /// The tone, if one was written.
    pub tone: Option<usize>,
}

/// A syllable as contracts see it.
pub struct SyllableView {
    pub full: Seq<char>,
    pub initial: Option<Seq<char>>,
    pub rhyme: Seq<char>,
    pub tone: Option<nat>,
}

impl View for Syllable {
    type V = SyllableView;

    open spec fn view(&self) -> SyllableView {
        SyllableView {
            full: self.full@,
            initial: match self.initial {
                Some(initial) => Some(initial@),
                None => None,
            },
            rhyme: self.rhyme@,
            tone: match self.tone {
                Some(tone) => Some(tone as nat),
                None => None,
            },
        }
    }
}

/// The rendering of a syllable: its text and the text of its tone.
pub type Rendering = Result<(Seq<char>, Seq<char>), ErrorView>;

/// An executable rendering as contracts see it.
pub open spec fn rendering_view(rendering: Result<(String, String), SiphonError>) -> Rendering {
    match rendering {
        Ok((word, tone)) => Ok((word@, tone@)),
        Err(error) => Err(error@),
    }
}

/// The digits of the pitch contour of a syllable: none where no tone was
/// written, `None` where the tone is above 5.
pub open spec fn contour_digits(tone: Option<nat>) -> Option<Seq<char>> {
    match tone {
        Some(tone) => tone_contour(tone),
        None => Some(Seq::empty()),
    }
}

/// The digits in raised form; what is no digit from 0 to 5 is kept.
pub open spec fn superscript(digits: Seq<char>) -> Seq<char> {
    digits.map_values(|c: char| raised(c))
}

/// The digits as the argument of the LaTeX command `wrapper`; nothing where
/// there are no digits.
pub open spec fn latex_tone(wrapper: Seq<char>, digits: Seq<char>) -> Seq<char> {
    if digits.len() == 0 {
        digits
    } else {
        seq!['\\'] + wrapper + seq!['{'] + digits + seq!['}']
    }
}

/// The final with the mark of the tone on the vowel that bears it. The
/// neutral tone (0 or 5, or none written) and a final without a vowel leave
/// the final as it is; `None` where the tone is above 5.
pub open spec fn with_tone_mark(rhyme: Seq<char>, tone: Option<nat>) -> Option<Seq<char>> {
    match tone {
        None => Some(rhyme),
        Some(tone) => if tone == 0 || tone == 5 {
            Some(rhyme)
        } else if tone > 5 {
            None
        } else {
            match tone_vowel(rhyme) {
                Some(vowel) => Some(replaced_first(rhyme, vowel, marked_vowel(vowel, tone))),
                None => Some(rhyme),
            }
        },
    }
}

/// The initial as text: nothing where the syllable has none.
pub open spec fn onset_text(initial: Option<Seq<char>>) -> Seq<char> {
    match initial {
        Some(initial) => initial,
        None => Seq::empty(),
    }
}

/// `word` with `ü` written for each `v`.
pub open spec fn umlauted(word: Seq<char>) -> Seq<char> {
    replaced_all(word, "v"@, "ü"@)
}

/// The rendering of a syllable in Pinyin.
///
/// With tone marks, the initial is followed by the marked final and the tone
/// text is empty. With numbers, the initial and the final are written with
/// `ü` for `v`, and the tone text is the pitch contour, raised or wrapped.
/// A tone above 5 is an error that names the syllable. Under a format that
/// is not Pinyin both texts are empty.
pub open spec fn pinyin_rendering(s: SyllableView, format: Format, wrapper: Seq<char>) -> Rendering {
    match format {
        Format::PinyinDiacritic => match with_tone_mark(s.rhyme, s.tone) {
            Some(marked) => Ok((onset_text(s.initial) + marked, Seq::empty())),
            None => Err(ErrorView::TonConversionFail(s.full)),
        },
        Format::PinyinSuperscript => match contour_digits(s.tone) {
            Some(digits) => Ok((umlauted(onset_text(s.initial) + s.rhyme), superscript(digits))),
            None => Err(ErrorView::TonConversionFail(s.full)),
        },
        Format::PinyinLaTeX => match contour_digits(s.tone) {
            Some(digits) => Ok(
                (umlauted(onset_text(s.initial) + s.rhyme), latex_tone(wrapper, digits)),
            ),
            None => Err(ErrorView::TonConversionFail(s.full)),
        },
        _ => Ok((Seq::empty(), Seq::empty())),
    }
}

/// The text of the pitch contour under an IPA format; nothing under another.
pub open spec fn ipa_tone(digits: Seq<char>, format: Format, wrapper: Seq<char>) -> Seq<char> {
    match format {
        Format::IPASuperscript => superscript(digits),
        Format::IPALaTeX => latex_tone(wrapper, digits),
        _ => Seq::empty(),
    }
}

/// The rendering of a syllable in IPA, given its initial in lower case.
///
/// The initial and the final are looked up in their tables, and the tone
/// text is the pitch contour, raised or wrapped. The first of these that
/// fails decides the error, which names the syllable: an initial that is not
/// in its table, a final that is not in its table, a tone above 5.
pub open spec fn ipa_rendering(
    s: SyllableView,
    lowered: Option<Seq<char>>,
    format: Format,
    wrapper: Seq<char>,
) -> Rendering {
    let onset = match lowered {
        Some(lowered) => onset_ipa(lowered),
        None => Some(Seq::empty()),
    };
    if onset is None {
        Err(ErrorView::InvalidInitial(s.full))
    } else if rhyme_ipa(s.rhyme) is None {
        Err(ErrorView::InvalidRhyme(s.full))
    } else if contour_digits(s.tone) is None {
        Err(ErrorView::TonConversionFail(s.full))
    } else {
        Ok((onset->0 + rhyme_ipa(s.rhyme)->0, ipa_tone(contour_digits(s.tone)->0, format, wrapper)))
    }
}

/// The initial of a syllable in lower case.
pub open spec fn lowered_onset(initial: Option<Seq<char>>) -> Option<Seq<char>> {
    match initial {
        Some(initial) => Some(lowercase_of(initial)),
        None => None,
    }
}

/// The neutral tone, written 0 or 5, has the pitch contour `0`, and a final
/// under the neutral tone is written as it stands, without a tone mark.
pub proof fn lemma_neutral_tone(s: SyllableView, tone: nat, wrapper: Seq<char>)
    requires
        tone == 0 || tone == 5,
        s.tone == Some(tone),
    ensures
        tone_contour(tone) == Some("0"@),
        contour_digits(s.tone) == Some("0"@),
        with_tone_mark(s.rhyme, s.tone) == Some(s.rhyme),
        pinyin_rendering(s, Format::PinyinDiacritic, wrapper) == Ok::<
            (Seq<char>, Seq<char>),
            ErrorView,
        >((onset_text(s.initial) + s.rhyme, Seq::empty())),
{
}

/// A syllable without a tone is written with tone marks as it was read: its
/// initial followed by its final, and no tone text.
pub proof fn lemma_toneless_syllable_unchanged(s: SyllableView, wrapper: Seq<char>)
    requires
        s.tone is None,
    ensures
        pinyin_rendering(s, Format::PinyinDiacritic, wrapper) == Ok::<
            (Seq<char>, Seq<char>),
            ErrorView,
        >((onset_text(s.initial) + s.rhyme, Seq::empty())),
{
}

/// In IPA with raised digits, a syllable whose initial, given in lower case,
/// and whose final are in their tables and whose tone goes from 1 to 5 is
/// rendered, and its tone text is not empty: it is the pitch contour in
/// raised digits.
pub proof fn lemma_ipa_tone_not_empty(
    s: SyllableView,
    lowered: Option<Seq<char>>,
    wrapper: Seq<char>,
)
    requires
        lowered matches Some(initial) ==> onset_ipa(initial) is Some,
        rhyme_ipa(s.rhyme) is Some,
        s.tone matches Some(tone) && 1 <= tone <= 5,
    ensures
        ipa_rendering(s, lowered, Format::IPASuperscript, wrapper) matches Ok((_, tone_text))
            && tone_text.len() > 0 && tone_text == superscript(tone_contour(s.tone->0)->0),
{
    lemma_contour_digits(s.tone->0);
}

/// A tone mark brings no digit into a final: the marked final of a final
/// without digits is without digits.
pub proof fn lemma_marked_final_without_digit(rhyme: Seq<char>, tone: Option<nat>)
    requires
        no_digit(rhyme),
    ensures
        with_tone_mark(rhyme, tone) matches Some(marked) ==> no_digit(marked),
{
    if let Some(number) = tone {
        if let Some(vowel) = tone_vowel(rhyme) {
            lemma_marked_vowel_without_digit(rhyme, number);
            lemma_replaced_first_without_digit(rhyme, vowel, marked_vowel(vowel, number));
        }
    }
}

/// The pitch contour inside the LaTeX command `wrapper`.
pub fn wrap_tone(wrapper: &str, digits: &str) -> (wrapped: String)
    ensures
        wrapped@ == latex_tone(wrapper@, digits@),
{
    if digits.is_empty() {
        return String::new();
    }
    proof {
        reveal_strlit("\\");
        reveal_strlit("{");
        reveal_strlit("}");
    }
    let mut wrapped = String::from_str("\\");
    wrapped.append(wrapper);
    wrapped.append("{");
    wrapped.append(digits);
    wrapped.append("}");
    assert(wrapped@ =~= latex_tone(wrapper@, digits@));
    wrapped
}

impl Default for Syllable {
    /// An empty syllable without an initial or a tone.
    fn default() -> (syllable: Self)
        ensures
            syllable@ == (SyllableView {
                full: Seq::empty(),
                initial: None,
                rhyme: Seq::empty(),
                tone: None,
            }),
    {
        Syllable::new()
    }
}

impl Syllable {
    /// An empty syllable, to be filled field by field.
    pub fn new() -> (syllable: Self)
        ensures
            syllable@ == (SyllableView {
                full: Seq::empty(),
                initial: None,
                rhyme: Seq::empty(),
                tone: None,
            }),
    {
        Syllable { full: String::new(), initial: None, rhyme: String::new(), tone: None }
    }

    /// The digits of `tone` in raised form. The raised digits go from 0 to
    /// 5: `tone` holds no digit from 6 to 9.
    pub fn tone_to_superscript(&self, tone: &str) -> (raised_tone: Result<String, SiphonError>)
        requires
            forall|i: int| 0 <= i < tone@.len() ==> !('6' <= #[trigger] tone@[i] <= '9'),
        ensures
            raised_tone matches Ok(text) && text@ == superscript(tone@),
    {
        let digits = chars_of(tone);
        let mut out = String::new();
        let mut i: usize = 0;
        while i < digits.len()
            invariant
                i <= digits.len(),
                digits@ == tone@,
                out@ == superscript(tone@.take(i as int)),
            decreases digits.len() - i,
        {
            let ghost before = out@;
            match raised_digit(digits[i]) {
                Some(digit) => out.append(digit),
                None => out.append(tone.substring_char(i, i + 1)),
            }
            proof {
                assert(tone@.subrange(i as int, i + 1) =~= seq![tone@[i as int]]);
                assert(out@ == before + seq![raised(tone@[i as int])]);
                assert(tone@.take(i + 1).drop_last() =~= tone@.take(i as int));
                assert(superscript(tone@.take(i + 1)) =~= before + seq![raised(tone@[i as int])]);
            }
            i += 1;
        }
        assert(tone@.take(i as int) =~= tone@);
        Ok(out)
    }

    /// The final with the mark of the tone on the vowel that bears it; a tone
    /// above 5 is refused.
    pub fn tone_to_diacritics(&self) -> (marked: Result<String, SiphonError>)
        ensures
            match with_tone_mark(self@.rhyme, self@.tone) {
                Some(text) => marked matches Ok(out) && out@ == text,
                None => marked matches Err(error) && error@ == ErrorView::TonConversionFail(
                    self@.full,
                ),
            },
    {
        let tone = match self.tone {
            Some(tone) => tone,
            None => {
                return Ok(self.rhyme.clone());
            },
        };
        if tone == 0 || tone == 5 {
            return Ok(self.rhyme.clone());
        }
        if tone > 5 {
            return Err(SiphonError::TonConversionFail(self.full.clone()));
        }
        match find_tone_vowel(self.rhyme.as_str()) {
            Some(vowel) => Ok(replace_first(self.rhyme.as_str(), vowel, mark_vowel(vowel, tone))),
            None => Ok(self.rhyme.clone()),
        }
    }
    /// Sets the text that was matched.
    pub fn full_syllable(self, syllable: &str) -> (out: Self)
        ensures
            out@ == (SyllableView { full: syllable@, ..self@ }),
    {
        Syllable {
            full: String::from_str(syllable),
            initial: self.initial,
            rhyme: self.rhyme,
            tone: self.tone,
        }
    }

    /// Sets the initial.
    pub fn onset(self, onset: Option<&str>) -> (out: Self)
        ensures
            out@ == (SyllableView {
                initial: match onset {
                    Some(onset) => Some(onset@),
                    None => None,
                },
                ..self@
            }),
    {
        let initial = match onset {
            Some(onset) => Some(String::from_str(onset)),
            None => None,
        };
        Syllable { full: self.full, initial, rhyme: self.rhyme, tone: self.tone }
    }

    /// Sets the final.
    pub fn rhyme(self, rhyme: String) -> (out: Self)
        ensures
            out@ == (SyllableView { rhyme: rhyme@, ..self@ }),
    {
        Syllable { full: self.full, initial: self.initial, rhyme, tone: self.tone }
    }

    /// Sets the tone.
    pub fn tone(self, tone: Option<usize>) -> (out: Self)
        ensures
            out@ == (SyllableView {
                tone: match tone {
                    Some(tone) => Some(tone as nat),
                    None => None,
                },
                ..self@
            }),
    {
        Syllable { full: self.full, initial: self.initial, rhyme: self.rhyme, tone }
    }

    /// The pitch contour of the syllable: empty where no tone was written;
    /// a tone above 5 is refused.
    pub fn contour(&self) -> (contour: Result<&'static str, SiphonError>)
        ensures
            match contour_digits(self@.tone) {
                Some(digits) => contour matches Ok(text) && text@ == digits,
                None => contour matches Err(error) && error@ == ErrorView::TonConversionFail(
                    self@.full,
                ),
            },
            contour matches Ok(text) ==> forall|i: int|
                0 <= i < text@.len() ==> '0' <= #[trigger] text@[i] <= '5',
    {
        match self.tone {
            Some(tone) => match contour_of(tone) {
                Some(digits) => {
                    proof {
                        lemma_contour_digits(tone as nat);
                    }
                    Ok(digits)
                },
                None => Err(SiphonError::TonConversionFail(self.full.clone())),
            },
            None => {
                proof {
                    reveal_strlit("");
                }
                assert(""@ =~= Seq::<char>::empty());
                Ok("")
            },
        }
    }

    /// The initial followed by the final.
    fn spelling(&self) -> (word: String)
        ensures
            word@ == onset_text(self@.initial) + self@.rhyme,
    {
        let mut word = match &self.initial {
            Some(initial) => initial.clone(),
            None => String::new(),
        };
        word.append(self.rhyme.as_str());
        word
    }

    /// Renders the syllable in IPA: the initial is put in lower case and
    /// looked up, the final is looked up as it stands.
    pub fn convert_to_ipa(&self, format: &Format, latex_wrapper: &str) -> (rendering: Result<
        (String, String),
        SiphonError,
    >)
        ensures
            rendering_view(rendering) == ipa_rendering(
                self@,
                lowered_onset(self@.initial),
                *format,
                latex_wrapper@,
            ),
    {
        let lowered = match &self.initial {
            Some(initial) => Some(lowercase(initial.as_str())),
            None => None,
        };
        self.ipa_with_onset(lowered, format, latex_wrapper)
    }

    /// Renders the syllable in IPA, given its initial in lower case.
    pub fn ipa_with_onset(
        &self,
        lowered: Option<String>,
        format: &Format,
        latex_wrapper: &str,
    ) -> (rendering: Result<(String, String), SiphonError>)
        ensures
            rendering_view(rendering) == ipa_rendering(
                self@,
                match lowered {
                    Some(lowered) => Some(lowered@),
                    None => None,
                },
                *format,
                latex_wrapper@,
            ),
    {
        let mut word = match lowered {
            Some(lowered) => match onset_to_ipa(lowered.as_str()) {
                Some(onset) => String::from_str(onset),
                None => {
                    return Err(SiphonError::InvalidInitial(self.full.clone()));
                },
            },
            None => String::new(),
        };
        match rhyme_to_ipa(self.rhyme.as_str()) {
            Some(rhyme) => word.append(rhyme),
            None => {
                return Err(SiphonError::InvalidRhyme(self.full.clone()));
            },
        }
        let digits = self.contour()?;
        let tone = match format {
            Format::IPASuperscript => self.raise(digits),
            Format::IPALaTeX => wrap_tone(latex_wrapper, digits),
            _ => String::new(),
        };
        Ok((word, tone))
    }

    /// Renders the syllable in Pinyin.
    pub fn convert_to_pinyin(&self, format: &Format, wrap: &str) -> (rendering: Result<
        (String, String),
        SiphonError,
    >)
        ensures
            rendering_view(rendering) == pinyin_rendering(self@, *format, wrap@),
    {
        proof {
            reveal_strlit("v");
        }
        match format {
            Format::PinyinDiacritic => {
                let marked = self.tone_to_diacritics()?;
                let mut word = match &self.initial {
                    Some(initial) => initial.clone(),
                    None => String::new(),
                };
                word.append(marked.as_str());
                Ok((word, String::new()))
            },
            Format::PinyinSuperscript => {
                let word = replace_all(self.spelling().as_str(), "v", "ü");
                let digits = self.contour()?;
                Ok((word, self.raise(digits)))
            },
            Format::PinyinLaTeX => {
                let word = replace_all(self.spelling().as_str(), "v", "ü");
                let digits = self.contour()?;
                Ok((word, wrap_tone(wrap, digits)))
            },
            _ => Ok((String::new(), String::new())),
        }
    }

    /// The digits of a pitch contour in raised form.
    fn raise(&self, digits: &str) -> (raised_tone: String)
        requires
            forall|i: int| 0 <= i < digits@.len() ==> '0' <= #[trigger] digits@[i] <= '5',
        ensures
            raised_tone@ == superscript(digits@),
    {
        match self.tone_to_superscript(digits) {
            Ok(text) => text,
            Err(_) => String::new(),
        }
    }

}

} // verus!
