//! The converter: its settings, the tokenizer and the rendering of tokens.

pub mod format;
pub mod syllable;
pub mod token;
pub mod tokenizer;

use crate::cli::format::Format;
use crate::cli::syllable::{
    ipa_rendering, lemma_marked_final_without_digit, lowered_onset, onset_text,
    pinyin_rendering, Rendering, SyllableView,
};
use crate::cli::token::{token_views, Token, TokenView};
use crate::cli::tokenizer::{
    has_rhyme, normalize, normalized_rhyme, scan_tokens, scanned, tokens_view, toneless,
};
use crate::error::{ErrorView, SiphonError};
use crate::text::{lemma_words_without_digit, no_digit, split_words, words_of, words_view};
use crate::unicode::{compose, nfc_of};
use vstd::prelude::*;
use vstd::string::*;

verus! {

/// The rendering of a syllable under a format: in IPA under the two IPA
/// formats, with the initial put in lower case for the look-up, and in
/// Pinyin under the others.
pub open spec fn syllable_rendering(s: SyllableView, format: Format, wrapper: Seq<char>) -> Rendering {
    if format.ipa() {
        ipa_rendering(s, lowered_onset(s.initial), format, wrapper)
    } else {
        pinyin_rendering(s, format, wrapper)
    }
}

/// The text of one token under a format.
///
/// A syllable gives its text followed by its tone text. The separator is an
/// apostrophe where tone marks are written and nothing elsewhere. A
/// punctuation mark is itself, and a run of white space is one space.
pub open spec fn token_text(token: TokenView, format: Format, wrapper: Seq<char>) -> Result<
    Seq<char>,
    ErrorView,
> {
    match token {
        TokenView::Syllable(s) => match syllable_rendering(s, format, wrapper) {
            Ok((word, tone)) => Ok(word + tone),
            Err(error) => Err(error),
        },
        TokenView::Separator => Ok(
            if format == Format::PinyinDiacritic {
                seq!['\'']
            } else {
                Seq::empty()
            },
        ),
        TokenView::Punctuation(mark) => Ok(mark),
        TokenView::Space => Ok(seq![' ']),
    }
}

/// The text of a sequence of tokens: the texts of the tokens one after the
/// other, or the error of the first token that has one.
pub open spec fn tokens_text(tokens: Seq<TokenView>, format: Format, wrapper: Seq<char>) -> Result<
    Seq<char>,
    ErrorView,
>
    decreases tokens.len(),
{
    if tokens.len() == 0 {
        Ok(Seq::empty())
    } else {
        match tokens_text(tokens.drop_last(), format, wrapper) {
            Err(error) => Err(error),
            Ok(before) => match token_text(tokens.last(), format, wrapper) {
                Err(error) => Err(error),
                Ok(text) => Ok(before + text),
            },
        }
    }
}

/// The error of a token stops the text of every longer sequence: what
/// follows the first `upto` tokens cannot undo their error.
pub proof fn lemma_first_error_stays(
    tokens: Seq<TokenView>,
    upto: int,
    format: Format,
    wrapper: Seq<char>,
)
    requires
        0 <= upto <= tokens.len(),
        tokens_text(tokens.take(upto), format, wrapper) is Err,
    ensures
        tokens_text(tokens, format, wrapper) == tokens_text(tokens.take(upto), format, wrapper),
    decreases tokens.len() - upto,
{
    if upto == tokens.len() {
        assert(tokens.take(upto) =~= tokens);
    } else {
        assert(tokens.drop_last().take(upto) =~= tokens.take(upto));
        lemma_first_error_stays(tokens.drop_last(), upto, format, wrapper);
    }
}

/// The text of two sequences of tokens, one after the other, is the text of
/// the first followed by the text of the second; the first error, in the
/// order of the tokens, is the error of the whole.
pub proof fn lemma_text_of_concatenation(
    first: Seq<TokenView>,
    second: Seq<TokenView>,
    format: Format,
    wrapper: Seq<char>,
)
    ensures
        tokens_text(first + second, format, wrapper) == match tokens_text(first, format, wrapper) {
            Err(error) => Err(error),
            Ok(before) => match tokens_text(second, format, wrapper) {
                Err(error) => Err(error),
                Ok(after) => Ok(before + after),
            },
        },
    decreases second.len(),
{
    if second.len() == 0 {
        assert(first + second =~= first);
        if let Ok(before) = tokens_text(first, format, wrapper) {
            assert(before + Seq::<char>::empty() =~= before);
        }
    } else {
        let whole = first + second;
        assert(whole.drop_last() =~= first + second.drop_last());
        assert(whole.last() == second.last());
        lemma_text_of_concatenation(first, second.drop_last(), format, wrapper);
        if let Ok(before) = tokens_text(first, format, wrapper) {
            if let Ok(middle) = tokens_text(second.drop_last(), format, wrapper) {
                if let Ok(last) = token_text(second.last(), format, wrapper) {
                    assert((before + middle) + last =~= before + (middle + last));
                }
            }
        }
    }
}

/// A token holds no digit: neither the initial and the final of a syllable
/// nor a punctuation mark.
pub open spec fn without_digit(token: TokenView) -> bool {
    match token {
        TokenView::Syllable(s) => no_digit(onset_text(s.initial)) && no_digit(s.rhyme),
        TokenView::Punctuation(mark) => no_digit(mark),
        _ => true,
    }
}

/// Tone marks take the place of tone numbers: the text of tokens without
/// digits, written with tone marks, holds no digit, whatever their tones.
pub proof fn lemma_tone_marks_write_no_digit(tokens: Seq<TokenView>, wrapper: Seq<char>)
    requires
        forall|i: int| 0 <= i < tokens.len() ==> without_digit(#[trigger] tokens[i]),
    ensures
        tokens_text(tokens, Format::PinyinDiacritic, wrapper) matches Ok(text) ==> no_digit(text),
    decreases tokens.len(),
{
    if tokens.len() > 0 {
        let before = tokens.drop_last();
        assert forall|i: int| 0 <= i < before.len() implies without_digit(
            #[trigger] before[i],
        ) by {
            assert(before[i] == tokens[i]);
        }
        lemma_tone_marks_write_no_digit(before, wrapper);
        let last = tokens.last();
        assert(without_digit(last));
        if let TokenView::Syllable(s) = last {
            lemma_marked_final_without_digit(s.rhyme, s.tone);
        }
    }
}

/// An executable text or error as contracts see it.
pub open spec fn text_view(text: Result<String, SiphonError>) -> Result<Seq<char>, ErrorView> {
    match text {
        Ok(text) => Ok(text@),
        Err(error) => Err(error@),
    }
}

/// The words with one space between each two of them.
pub open spec fn joined(words: Seq<Seq<char>>) -> Seq<char>
    decreases words.len(),
{
    if words.len() == 0 {
        Seq::empty()
    } else if words.len() == 1 {
        words[0]
    } else {
        joined(words.drop_last()) + seq![' '] + words.last()
    }
}

/// Splitting a text into words and joining them again brings in no digit:
/// a converter made for a text without digits holds a text without digits.
pub proof fn lemma_joined_words_without_digit(text: Seq<char>)
    requires
        no_digit(text),
    ensures
        no_digit(joined(words_of(text))),
{
    lemma_words_without_digit(text, 0);
    lemma_joined_without_digit(words_of(text));
}

/// Words without digits, joined by spaces, are a text without digits.
pub proof fn lemma_joined_without_digit(words: Seq<Seq<char>>)
    requires
        forall|k: int| 0 <= k < words.len() ==> no_digit(#[trigger] words[k]),
    ensures
        no_digit(joined(words)),
    decreases words.len(),
{
    if words.len() > 1 {
        let before = words.drop_last();
        assert forall|k: int| 0 <= k < before.len() implies no_digit(#[trigger] before[k]) by {
            assert(before[k] == words[k]);
        }
        lemma_joined_without_digit(before);
        assert(no_digit(words.last()));
    } else if words.len() == 1 {
        assert(no_digit(words[0]));
    }
}

/// The converter: the text to convert and how to write it.
#[derive(Debug, Clone)]
pub struct Siphon {
    format: Format,
    latex_wrapper: String,
    text: Vec<String>,
    debug: bool,
}

/// A converter as contracts see it.
pub struct SiphonView {
    /// The output format.
    pub format: Format,
    /// The name of the LaTeX command that holds a pitch contour.
    pub latex_wrapper: Seq<char>,
    /// The words of the text.
    pub text: Seq<Seq<char>>,
    /// Whether the caller wants the tokens shown.
    pub debug: bool,
}

impl View for Siphon {
    type V = SiphonView;

    closed spec fn view(&self) -> SiphonView {
        SiphonView {
            format: self.format,
            latex_wrapper: self.latex_wrapper@,
            text: self.text@.map_values(|word: String| word@),
            debug: self.debug,
        }
    }
}

impl Default for Siphon {
    /// A converter without text that writes tone marks.
    fn default() -> (siphon: Self)
        ensures
            siphon@ == (SiphonView {
                format: Format::PinyinDiacritic,
                latex_wrapper: "textsuperscript"@,
                text: Seq::empty(),
                debug: false,
            }),
    {
        let siphon = Siphon {
            format: Format::PinyinDiacritic,
            latex_wrapper: String::from_str("textsuperscript"),
            text: Vec::new(),
            debug: false,
        };
        assert(siphon@.text =~= Seq::<Seq<char>>::empty());
        siphon
    }
}

impl Siphon {
    /// A converter for the words of `text` that writes tone marks.
    pub fn new(text: &str) -> (siphon: Self)
        ensures
            siphon@ == (SiphonView {
                format: Format::PinyinDiacritic,
                latex_wrapper: "textsuperscript"@,
                text: words_of(text@),
                debug: false,
            }),
    {
        Siphon {
            format: Format::PinyinDiacritic,
            latex_wrapper: String::from_str("textsuperscript"),
            text: split_words(text),
            debug: false,
        }
    }

    /// Sets the output format.
    pub fn format(self, format: Format) -> (siphon: Self)
        ensures
            siphon@ == (SiphonView { format, ..self@ }),
    {
        Siphon {
            format,
            latex_wrapper: self.latex_wrapper,
            text: self.text,
            debug: self.debug,
        }
    }

    /// Sets the text to convert: the words of `text`.
    pub fn text(self, text: String) -> (siphon: Self)
        ensures
            siphon@ == (SiphonView { text: words_of(text@), ..self@ }),
    {
        Siphon {
            format: self.format,
            latex_wrapper: self.latex_wrapper,
            text: split_words(text.as_str()),
            debug: self.debug,
        }
    }

    /// Sets the text to convert, word by word: the words are taken as they
    /// are given.
    pub fn words(self, words: Vec<String>) -> (siphon: Self)
        ensures
            siphon@ == (SiphonView { text: words_view(words@), ..self@ }),
    {
        Siphon {
            format: self.format,
            latex_wrapper: self.latex_wrapper,
            text: words,
            debug: self.debug,
        }
    }

    /// Sets whether the caller wants the tokens shown.
    pub fn debug(self, debug: bool) -> (siphon: Self)
        ensures
            siphon@ == (SiphonView { debug, ..self@ }),
    {
        Siphon {
            format: self.format,
            latex_wrapper: self.latex_wrapper,
            text: self.text,
            debug,
        }
    }

    /// Sets the name of the LaTeX command that holds a pitch contour. Only
    /// the two LaTeX formats use it.
    pub fn wrapper(self, wrapper: &str) -> (siphon: Self)
        ensures
            siphon@ == (SiphonView { latex_wrapper: wrapper@, ..self@ }),
    {
        Siphon {
            format: self.format,
            latex_wrapper: String::from_str(wrapper),
            text: self.text,
            debug: self.debug,
        }
    }

    /// The output format.
    pub fn get_format(&self) -> (format: &Format)
        ensures
            *format == self@.format,
    {
        &self.format
    }

    /// The text to convert: its words with one space between each two.
    pub fn get_text(&self) -> (text: String)
        ensures
            text@ == joined(self@.text),
    {
        let ghost words = self@.text;
        let mut text = String::new();
        let mut i: usize = 0;
        while i < self.text.len()
            invariant
                i <= self.text.len(),
                words == self@.text,
                text@ == joined(words.take(i as int)),
            decreases self.text.len() - i,
        {
            proof {
                reveal_strlit(" ");
                assert(words.take(i + 1).drop_last() =~= words.take(i as int));
                assert(words.take(i + 1).last() == self.text@[i as int]@);
                assert(" "@ =~= seq![' ']);
            }
            if i > 0 {
                text.append(" ");
            }
            text.append(self.text[i].as_str());
            proof {
                if i == 0 {
                    assert(words.take(1)[0] == self.text@[0]@);
                    assert(text@ =~= self.text@[0]@);
                }
            }
            i += 1;
        }
        assert(words.take(i as int) =~= words);
        text
    }

    /// Whether the caller wants the tokens shown.
    pub fn get_debug(&self) -> (debug: bool)
        ensures
            debug == self@.debug,
    {
        self.debug
    }

    /// The name of the LaTeX command that holds a pitch contour.
    pub fn get_latex_wrapper(&self) -> (wrapper: &str)
        ensures
            wrapper@ == self@.latex_wrapper,
    {
        self.latex_wrapper.as_str()
    }

    /// Sets the output format.
    pub fn set_format(&mut self, format: Format)
        ensures
            final(self)@ == (SiphonView { format, ..old(self)@ }),
    {
        self.format = format
    }

    /// Sets whether the caller wants the tokens shown.
    pub fn set_debug(&mut self, debug: bool)
        ensures
            final(self)@ == (SiphonView { debug, ..old(self)@ }),
    {
        self.debug = debug
    }

    /// Sets the name of the LaTeX command that holds a pitch contour.
    pub fn set_latex_wrapper(&mut self, wrapper: &str)
        ensures
            final(self)@ == (SiphonView { latex_wrapper: wrapper@, ..old(self)@ }),
    {
        self.latex_wrapper = String::from_str(wrapper)
    }

    /// The text to convert in Normalization Form C, in which a letter and
    /// its combining marks are one character wherever Unicode has one.
    pub fn normalize_input_to_unicode(&self) -> (text: String)
        ensures
            text@ == nfc_of(joined(self@.text)),
    {
        compose(self.get_text().as_str())
    }

    /// Rewrites a final for the tables of the IPA formats.
    pub fn normalize_rhyme(&self, onset: Option<&str>, rhyme: String) -> (out: String)
        ensures
            out@ == normalized_rhyme(
                match onset {
                    Some(onset) => Some(onset@),
                    None => None,
                },
                rhyme@,
            ),
    {
        normalize(onset, rhyme)
    }

    /// Splits the composed text into tokens.
    ///
    /// The tokens are those of the matches of the token pattern in the
    /// composed text, with the finals rewritten where the format is an IPA
    /// format; the one other outcome is the error of a pattern that the
    /// regex engine refuses. No syllable among the tokens is without a
    /// final, and none has a tone where the composed text holds no digit.
    pub fn tokenize(&self) -> (tokens: Result<Vec<Token>, SiphonError>)
        ensures
            tokens_view(tokens) == scanned(nfc_of(joined(self@.text)), self@.format),
            tokens matches Ok(list) ==> forall|i: int|
                0 <= i < list@.len() ==> has_rhyme(#[trigger] list@[i]@),
            tokens matches Ok(list) ==> no_digit(nfc_of(joined(self@.text))) ==> forall|i: int|
                0 <= i < list@.len() ==> toneless(#[trigger] list@[i]@),
    {
        let text = self.normalize_input_to_unicode();
        scan_tokens(text.as_str(), &self.format)
    }

    /// Renders one token under the chosen format.
    pub fn render(&self, token: &Token) -> (text: Result<String, SiphonError>)
        ensures
            text_view(text) == token_text(token@, self@.format, self@.latex_wrapper),
    {
        match token {
            Token::Syllable(syllable) => {
                let (mut word, tone) = if self.format.is_ipa() {
                    syllable.convert_to_ipa(&self.format, self.latex_wrapper.as_str())?
                } else {
                    syllable.convert_to_pinyin(&self.format, self.latex_wrapper.as_str())?
                };
                word.append(tone.as_str());
                Ok(word)
            },
            Token::Separator => {
                proof {
                    reveal_strlit("'");
                }
                match self.format {
                    Format::PinyinDiacritic => {
                        assert("'"@ =~= seq!['\'']);
                        Ok(String::from_str("'"))
                    },
                    _ => Ok(String::new()),
                }
            },
            Token::Punctuation(mark) => Ok(mark.clone()),
            Token::Space => {
                proof {
                    reveal_strlit(" ");
                }
                assert(" "@ =~= seq![' ']);
                Ok(String::from_str(" "))
            },
        }
    }
    /// Renders the tokens one after the other under the chosen format, and
    /// stops at the first token that cannot be rendered.
    pub fn transform(&self, tokens: Vec<Token>) -> (text: Result<String, SiphonError>)
        ensures
            text_view(text) == tokens_text(
                token_views(tokens@),
                self@.format,
                self@.latex_wrapper,
            ),
    {
        let ghost views = token_views(tokens@);
        let mut out = String::new();
        let mut i: usize = 0;
        while i < tokens.len()
            invariant
                i <= tokens.len(),
                views == token_views(tokens@),
                tokens_text(views.take(i as int), self@.format, self@.latex_wrapper) == Ok::<
                    Seq<char>,
                    ErrorView,
                >(out@),
            decreases tokens.len() - i,
        {
            proof {
                assert(views.take(i + 1).drop_last() =~= views.take(i as int));
                assert(views.take(i + 1).last() == tokens@[i as int]@);
            }
            match self.render(&tokens[i]) {
                Ok(piece) => out.append(piece.as_str()),
                Err(error) => {
                    proof {
                        lemma_first_error_stays(
                            views,
                            i + 1,
                            self@.format,
                            self@.latex_wrapper,
                        );
                    }
                    return Err(error);
                },
            }
            i += 1;
        }
        assert(views.take(i as int) =~= views);
        Ok(out)
    }

}

} // verus!
