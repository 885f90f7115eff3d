//! From the matches of the token pattern to tokens.

use crate::cli::format::Format;
use crate::cli::syllable::{Syllable, SyllableView};
use crate::cli::token::{token_views, Token, TokenView};
use crate::error::{ErrorView, SiphonError};
use crate::scan::{
    find_groups, group_matches, names_view, parts_of, pattern_compiles, rows_view,
};
use crate::text::{
    chars_of, contains_text, folded, folds_to, lemma_no_digit_no_number,
    lemma_part_without_digit, lemma_replaced_all_nonempty, no_digit, parse_unsigned, replace_all,
    replaced_all, unsigned_value,
};
use vstd::prelude::*;
use vstd::string::*;

verus! {

/// The token pattern. At each place it tries, in this order: a syllable (an
/// optional initial, a final, an optional tone digit; letters in either
/// case), a run of white space, an apostrophe, a punctuation mark. What
/// matches none of them is passed over.
pub const TOKEN_PATTERN: &'static str =
    r#"(?x)
    (?i:
        (?<syllable>
            (?<initial>zh|ch|sh|[bpmfdtnlgkhjqxrzcs]?)
            (?<rime>(?:y|w)?[aeiouüv]{1,3}(?:ng|n)?(?:r)?)
            (?<tone>\d?)
        )
    )
    (?-i)
    |(?<space>\s+)
    |(?<quote>['])
    |(?<punctuation>[,!?.\-:"=])
    "#;

/// The names of the groups of the token pattern, in the order in which a row
/// of group texts holds them.
pub open spec fn group_names() -> Seq<Seq<char>> {
    seq!["syllable"@, "initial"@, "rime"@, "tone"@, "space"@, "quote"@, "punctuation"@]
}

/// The names of the groups of the token pattern.
pub fn group_name_list() -> (names: Vec<&'static str>)
    ensures
        names_view(names@) == group_names(),
{
    let mut names: Vec<&'static str> = Vec::new();
    names.push("syllable");
    names.push("initial");
    names.push("rime");
    names.push("tone");
    names.push("space");
    names.push("quote");
    names.push("punctuation");
    assert(names_view(names@) =~= group_names());
    names
}

/// The final of a syllable as the tables of the IPA formats know it.
///
/// After `j`, `q` or `x` each `u` stands for `ü`; after `zh`, `ch`, `sh` or
/// `r` each `i` is the apical vowel written `r`; after `z`, `c` or `s` it
/// is the one written `z`. The initial is taken in either case. Then, in
/// this order: `yu` becomes `ü`, `y` becomes `i`, `ii` becomes `i`, `w`
/// becomes `u`, `uu` becomes `u`.
pub open spec fn normalized_rhyme(onset: Option<Seq<char>>, rhyme: Seq<char>) -> Seq<char> {
    unglided(after_onset(onset, rhyme))
}

/// The first step of [`normalized_rhyme`]: what the initial does to the
/// final.
pub open spec fn after_onset(onset: Option<Seq<char>>, rhyme: Seq<char>) -> Seq<char> {
    match onset {
        Some(onset) => {
            let initial = folded(onset);
            if initial == "j"@ || initial == "q"@ || initial == "x"@ {
                replaced_all(rhyme, "u"@, "ü"@)
            } else if initial == "zh"@ || initial == "ch"@ || initial == "sh"@ || initial == "r"@ {
                replaced_all(rhyme, "i"@, "r"@)
            } else if initial == "z"@ || initial == "c"@ || initial == "s"@ {
                replaced_all(rhyme, "i"@, "z"@)
            } else {
                rhyme
            }
        },
        None => rhyme,
    }
}

/// The second step of [`normalized_rhyme`]: the glides `y` and `w` written
/// as vowels.
pub open spec fn unglided(rhyme: Seq<char>) -> Seq<char> {
    replaced_all(
        replaced_all(
            replaced_all(
                replaced_all(replaced_all(rhyme, "yu"@, "ü"@), "y"@, "i"@),
                "ii"@,
                "i"@,
            ),
            "w"@,
            "u"@,
        ),
        "uu"@,
        "u"@,
    )
}

/// The texts that [`normalized_rhyme`] looks for and writes are not empty.
pub proof fn lemma_rhyme_letters()
    ensures
        "u"@.len() == 1,
        "ü"@.len() == 1,
        "i"@.len() == 1,
        "r"@.len() == 1,
        "z"@.len() == 1,
        "y"@.len() == 1,
        "w"@.len() == 1,
        "yu"@.len() == 2,
        "ii"@.len() == 2,
        "uu"@.len() == 2,
{
    reveal_strlit("u");
    reveal_strlit("ü");
    reveal_strlit("i");
    reveal_strlit("r");
    reveal_strlit("z");
    reveal_strlit("y");
    reveal_strlit("w");
    reveal_strlit("yu");
    reveal_strlit("ii");
    reveal_strlit("uu");
}

/// A final that is not empty is not empty after [`normalized_rhyme`].
pub proof fn lemma_normalized_rhyme_nonempty(onset: Option<Seq<char>>, rhyme: Seq<char>)
    requires
        rhyme.len() > 0,
    ensures
        normalized_rhyme(onset, rhyme).len() > 0,
{
    lemma_rhyme_letters();
    let first = after_onset(onset, rhyme);
    assert(first.len() > 0) by {
        lemma_replaced_all_nonempty(rhyme, "u"@, "ü"@);
        lemma_replaced_all_nonempty(rhyme, "i"@, "r"@);
        lemma_replaced_all_nonempty(rhyme, "i"@, "z"@);
    }
    let second = replaced_all(first, "yu"@, "ü"@);
    lemma_replaced_all_nonempty(first, "yu"@, "ü"@);
    let third = replaced_all(second, "y"@, "i"@);
    lemma_replaced_all_nonempty(second, "y"@, "i"@);
    let fourth = replaced_all(third, "ii"@, "i"@);
    lemma_replaced_all_nonempty(third, "ii"@, "i"@);
    let fifth = replaced_all(fourth, "w"@, "u"@);
    lemma_replaced_all_nonempty(fourth, "w"@, "u"@);
    lemma_replaced_all_nonempty(fifth, "uu"@, "u"@);
}

/// Rewrites a final for the tables of the IPA formats.
pub fn normalize(onset: Option<&str>, rhyme: String) -> (out: String)
    ensures
        out@ == normalized_rhyme(
            match onset {
                Some(onset) => Some(onset@),
                None => None,
            },
            rhyme@,
        ),
{
    proof {
        lemma_rhyme_letters();
    }
    let first = match onset {
        Some(onset) => {
            let initial = chars_of(onset);
            if folds_to(&initial, "j") || folds_to(&initial, "q") || folds_to(&initial, "x") {
                replace_all(rhyme.as_str(), "u", "ü")
            } else if folds_to(&initial, "zh") || folds_to(&initial, "ch") || folds_to(
                &initial,
                "sh",
            ) || folds_to(&initial, "r") {
                replace_all(rhyme.as_str(), "i", "r")
            } else if folds_to(&initial, "z") || folds_to(&initial, "c") || folds_to(
                &initial,
                "s",
            ) {
                replace_all(rhyme.as_str(), "i", "z")
            } else {
                rhyme
            }
        },
        None => rhyme,
    };
    let second = replace_all(first.as_str(), "yu", "ü");
    let third = replace_all(second.as_str(), "y", "i");
    let fourth = replace_all(third.as_str(), "ii", "i");
    let fifth = replace_all(fourth.as_str(), "w", "u");
    replace_all(fifth.as_str(), "uu", "u")
}

/// A group text, unless the group is missing or empty.
pub open spec fn filled(group: Option<Seq<char>>) -> Option<Seq<char>> {
    match group {
        Some(text) => if text.len() > 0 {
            Some(text)
        } else {
            None
        },
        None => None,
    }
}

/// The text of the group at `index` of a row; `None` past the end of the row.
pub open spec fn group_at(row: Seq<Option<Seq<char>>>, index: int) -> Option<Seq<char>> {
    if 0 <= index < row.len() {
        row[index]
    } else {
        None
    }
}

/// The tone that a row holds: the number that its tone group writes.
pub open spec fn row_tone(row: Seq<Option<Seq<char>>>) -> Option<nat> {
    match group_at(row, 3) {
        Some(digits) => unsigned_value(digits),
        None => None,
    }
}

/// The token that one match of the token pattern stands for, given the texts
/// of its groups in the order of [`group_names`].
///
/// A match of the syllable group is a syllable: its initial is the initial
/// group unless that is empty, its final the rime group, rewritten by
/// [`normalized_rhyme`] under an IPA format, and its tone what the tone group
/// writes. An empty final is an error. Otherwise the match is a space, a
/// separator or a punctuation mark, by the first of these groups that took
/// part; a match of none of them gives no token.
pub open spec fn row_token(row: Seq<Option<Seq<char>>>, format: Format) -> Result<
    Option<TokenView>,
    ErrorView,
> {
    if let Some(full) = group_at(row, 0) {
        let onset = filled(group_at(row, 1));
        match filled(group_at(row, 2)) {
            Some(rime) => Ok(
                Some(
                    TokenView::Syllable(
                        SyllableView {
                            full,
                            initial: onset,
                            rhyme: if format.ipa() {
                                normalized_rhyme(onset, rime)
                            } else {
                                rime
                            },
                            tone: row_tone(row),
                        },
                    ),
                ),
            ),
            None => Err(ErrorView::RhymeNotFound),
        }
    } else if group_at(row, 4) is Some {
        Ok(Some(TokenView::Space))
    } else if group_at(row, 5) is Some {
        Ok(Some(TokenView::Separator))
    } else if let Some(mark) = group_at(row, 6) {
        Ok(Some(TokenView::Punctuation(mark)))
    } else {
        Ok(None)
    }
}

/// The tokens that the matches stand for, in the order of the matches, or
/// the error of the first match that has one.
pub open spec fn rows_tokens(rows: Seq<Seq<Option<Seq<char>>>>, format: Format) -> Result<
    Seq<TokenView>,
    ErrorView,
>
    decreases rows.len(),
{
    if rows.len() == 0 {
        Ok(Seq::empty())
    } else {
        match rows_tokens(rows.drop_last(), format) {
            Err(error) => Err(error),
            Ok(tokens) => match row_token(rows.last(), format) {
                Err(error) => Err(error),
                Ok(Some(token)) => Ok(tokens.push(token)),
                Ok(None) => Ok(tokens),
            },
        }
    }
}

/// Executable tokens or an error as contracts see them.
pub open spec fn tokens_view(tokens: Result<Vec<Token>, SiphonError>) -> Result<
    Seq<TokenView>,
    ErrorView,
> {
    match tokens {
        Ok(tokens) => Ok(token_views(tokens@)),
        Err(error) => Err(error@),
    }
}

/// What the matcher handed back, as tokens: the tokens of its rows, or the
/// error of a pattern that was refused.
pub open spec fn found_tokens(
    found: Result<Vec<Vec<Option<String>>>, regex::Error>,
    format: Format,
) -> Result<Seq<TokenView>, ErrorView> {
    match found {
        Ok(rows) => rows_tokens(rows_view(rows@), format),
        Err(_) => Err(ErrorView::Regex),
    }
}

/// The error of a match stops the tokens of every longer sequence of
/// matches.
pub proof fn lemma_first_bad_row_stays(
    rows: Seq<Seq<Option<Seq<char>>>>,
    upto: int,
    format: Format,
)
    requires
        0 <= upto <= rows.len(),
        rows_tokens(rows.take(upto), format) is Err,
    ensures
        rows_tokens(rows, format) == rows_tokens(rows.take(upto), format),
    decreases rows.len() - upto,
{
    if upto == rows.len() {
        assert(rows.take(upto) =~= rows);
    } else {
        assert(rows.drop_last().take(upto) =~= rows.take(upto));
        lemma_first_bad_row_stays(rows.drop_last(), upto, format);
    }
}

/// The text of the group at `index` of a row.
pub fn group(row: &Vec<Option<String>>, index: usize) -> (text: Option<&str>)
    ensures
        match group_at(row.deep_view(), index as int) {
            Some(wanted) => text matches Some(found) && found@ == wanted,
            None => text is None,
        },
{
    if index < row.len() {
        match &row[index] {
            Some(text) => Some(text.as_str()),
            None => None,
        }
    } else {
        None
    }
}

/// A group text, unless the group is missing or empty.
pub fn non_empty(group: Option<&str>) -> (text: Option<&str>)
    ensures
        match filled(
            match group {
                Some(group) => Some(group@),
                None => None,
            },
        ) {
            Some(wanted) => text matches Some(found) && found@ == wanted,
            None => text is None,
        },
{
    match group {
        Some(text) => if text.is_empty() {
            None
        } else {
            Some(text)
        },
        None => None,
    }
}

/// The token that one match of the token pattern stands for.
pub fn token_of_row(row: &Vec<Option<String>>, format: &Format) -> (token: Result<
    Option<Token>,
    SiphonError,
>)
    ensures
        match row_token(row.deep_view(), *format) {
            Ok(Some(wanted)) => token matches Ok(Some(found)) && found@ == wanted,
            Ok(None) => token matches Ok(None),
            Err(wanted) => token matches Err(error) && error@ == wanted,
        },
{
    if let Some(full) = group(row, 0) {
        let onset = non_empty(group(row, 1));
        let rime = match non_empty(group(row, 2)) {
            Some(rime) => String::from_str(rime),
            None => {
                return Err(SiphonError::RhymeNotFound);
            },
        };
        let tone = match group(row, 3) {
            Some(digits) => parse_unsigned(digits),
            None => None,
        };
        let rhyme = if format.is_ipa() {
            normalize(onset, rime)
        } else {
            rime
        };
        Ok(Some(Token::Syllable(Syllable::new().full_syllable(full).onset(onset).rhyme(rhyme).tone(tone))))
    } else if group(row, 4).is_some() {
        Ok(Some(Token::Space))
    } else if group(row, 5).is_some() {
        Ok(Some(Token::Separator))
    } else if let Some(mark) = group(row, 6) {
        Ok(Some(Token::Punctuation(String::from_str(mark))))
    } else {
        Ok(None)
    }
}

/// The tokens that the matcher's answer stands for: the tokens of its rows
/// in their order, the error of the first row that has one, or the error of
/// a pattern that was refused.
pub fn tokens_from_matches(
    found: Result<Vec<Vec<Option<String>>>, regex::Error>,
    format: &Format,
) -> (tokens: Result<Vec<Token>, SiphonError>)
    ensures
        tokens_view(tokens) == found_tokens(found, *format),
{
    let rows = match found {
        Ok(rows) => rows,
        Err(error) => {
            return Err(SiphonError::Regex(error));
        },
    };
    let ghost views = rows_view(rows@);
    let mut tokens: Vec<Token> = Vec::new();
    let mut i: usize = 0;
    assert(token_views(tokens@) =~= Seq::<TokenView>::empty());
    while i < rows.len()
        invariant
            i <= rows.len(),
            views == rows_view(rows@),
            found_tokens(found, *format) == rows_tokens(views, *format),
            rows_tokens(views.take(i as int), *format) == Ok::<Seq<TokenView>, ErrorView>(
                token_views(tokens@),
            ),
        decreases rows.len() - i,
    {
        let ghost before = token_views(tokens@);
        proof {
            assert(views.take(i + 1).drop_last() =~= views.take(i as int));
            assert(views.take(i + 1).last() == rows@[i as int].deep_view());
        }
        match token_of_row(&rows[i], format) {
            Ok(Some(token)) => {
                tokens.push(token);
                assert(token_views(tokens@) =~= before.push(token@));
            },
            Ok(None) => {},
            Err(error) => {
                proof {
                    assert(rows_tokens(views.take(i + 1), *format) == Err::<
                        Seq<TokenView>,
                        ErrorView,
                    >(error@));
                    lemma_first_bad_row_stays(views, i + 1, *format);
                }
                return Err(error);
            },
        }
        i += 1;
    }
    assert(views.take(i as int) =~= views);
    Ok(tokens)
}

/// A syllable token has a final.
pub open spec fn has_rhyme(token: TokenView) -> bool {
    token matches TokenView::Syllable(syllable) ==> syllable.rhyme.len() > 0
}

/// No match gives a syllable without a final.
pub proof fn lemma_syllables_have_rhymes(rows: Seq<Seq<Option<Seq<char>>>>, format: Format)
    ensures
        rows_tokens(rows, format) matches Ok(tokens) ==> forall|i: int|
            0 <= i < tokens.len() ==> has_rhyme(#[trigger] tokens[i]),
    decreases rows.len(),
{
    if rows.len() > 0 {
        lemma_syllables_have_rhymes(rows.drop_last(), format);
        let row = rows.last();
        if let Some(rime) = filled(group_at(row, 2)) {
            lemma_normalized_rhyme_nonempty(filled(group_at(row, 1)), rime);
        }
    }
}

/// The tokens of a text under a format: the tokens that the matches of
/// [`TOKEN_PATTERN`] in the text stand for.
pub open spec fn text_tokens(text: Seq<char>, format: Format) -> Result<Seq<TokenView>, ErrorView> {
    rows_tokens(group_matches(TOKEN_PATTERN@, group_names(), text), format)
}

/// What splitting a text gives: its tokens, or the error of a token pattern
/// that the regex engine refuses, whatever the text.
pub open spec fn scanned(text: Seq<char>, format: Format) -> Result<Seq<TokenView>, ErrorView> {
    if pattern_compiles(TOKEN_PATTERN@) {
        text_tokens(text, format)
    } else {
        Err(ErrorView::Regex)
    }
}

/// Splits a text into tokens. The text is taken as it stands: it is not
/// composed first.
///
/// The tokens are those of the matches of [`TOKEN_PATTERN`]; the one other
/// outcome is the error of a pattern that the regex engine refuses. No
/// syllable among the tokens is without a final, and none has a tone where
/// the text holds no digit.
pub fn scan_tokens(text: &str, format: &Format) -> (tokens: Result<Vec<Token>, SiphonError>)
    ensures
        tokens_view(tokens) == scanned(text@, *format),
        tokens matches Ok(list) ==> forall|i: int|
            0 <= i < list@.len() ==> has_rhyme(#[trigger] list@[i]@),
        tokens matches Ok(list) ==> no_digit(text@) ==> forall|i: int|
            0 <= i < list@.len() ==> toneless(#[trigger] list@[i]@),
{
    let names = group_name_list();
    let found = find_groups(TOKEN_PATTERN, &names, text);
    let tokens = tokens_from_matches(found, format);
    proof {
        if tokens is Ok {
            let list = tokens->Ok_0;
            let wanted = text_tokens(text@, *format);
            lemma_syllables_have_rhymes(
                group_matches(TOKEN_PATTERN@, group_names(), text@),
                *format,
            );
            assert(wanted->Ok_0 == token_views(list@));
            assert forall|i: int| 0 <= i < list@.len() implies has_rhyme(
                #[trigger] list@[i]@,
            ) by {
                assert(has_rhyme(wanted->Ok_0[i]));
            }
            if no_digit(text@) {
                lemma_no_digit_no_tone(
                    group_matches(TOKEN_PATTERN@, group_names(), text@),
                    text@,
                    *format,
                );
                assert forall|i: int| 0 <= i < list@.len() implies toneless(
                    #[trigger] list@[i]@,
                ) by {
                    assert(toneless(wanted->Ok_0[i]));
                }
            }
        }
    }
    tokens
}

/// A token as an IPA format has it, given the token as a Pinyin format has
/// it: the final of a syllable is rewritten by [`normalized_rhyme`], and
/// nothing else differs.
pub open spec fn ipa_token(token: TokenView) -> TokenView {
    match token {
        TokenView::Syllable(syllable) => TokenView::Syllable(
            SyllableView { rhyme: normalized_rhyme(syllable.initial, syllable.rhyme), ..syllable },
        ),
        other => other,
    }
}

/// The format changes the finals only: the matches that give tokens under a
/// Pinyin format give as many under an IPA format, each the same but for
/// the rewritten final of a syllable, and the matches that give an error
/// give the same error.
pub proof fn lemma_rows_under_ipa(rows: Seq<Seq<Option<Seq<char>>>>, pinyin: Format, ipa: Format)
    requires
        !pinyin.ipa(),
        ipa.ipa(),
    ensures
        rows_tokens(rows, ipa) == match rows_tokens(rows, pinyin) {
            Ok(tokens) => Ok(tokens.map_values(|token: TokenView| ipa_token(token))),
            Err(error) => Err(error),
        },
    decreases rows.len(),
{
    let rewritten = |token: TokenView| ipa_token(token);
    if rows.len() == 0 {
        assert(Seq::<TokenView>::empty().map_values(rewritten) =~= Seq::<TokenView>::empty());
    } else {
        lemma_rows_under_ipa(rows.drop_last(), pinyin, ipa);
        if let Ok(before) = rows_tokens(rows.drop_last(), pinyin) {
            if let Ok(Some(token)) = row_token(rows.last(), pinyin) {
                assert(row_token(rows.last(), ipa) == Ok::<Option<TokenView>, ErrorView>(
                    Some(ipa_token(token)),
                ));
                assert(before.push(token).map_values(rewritten) =~= before.map_values(
                    rewritten,
                ).push(ipa_token(token)));
            }
        }
    }
}

/// Two converters with the same text, one under a Pinyin format and one
/// under an IPA format, split it alike: where the first has tokens, the
/// second has as many, each the same but for the rewritten final of a
/// syllable, and where the first has an error, the second has the same.
pub proof fn lemma_format_changes_finals_only(text: Seq<char>, pinyin: Format, ipa: Format)
    requires
        !pinyin.ipa(),
        ipa.ipa(),
    ensures
        scanned(text, ipa) == match scanned(text, pinyin) {
            Ok(tokens) => Ok(tokens.map_values(|token: TokenView| ipa_token(token))),
            Err(error) => Err(error),
        },
{
    lemma_rows_under_ipa(group_matches(TOKEN_PATTERN@, group_names(), text), pinyin, ipa);
}

/// The format matters to the tokens only by whether it is an IPA format.
pub proof fn lemma_tokens_by_notation(text: Seq<char>, first: Format, second: Format)
    requires
        first.ipa() == second.ipa(),
    ensures
        scanned(text, first) == scanned(text, second),
{
    lemma_rows_by_notation(group_matches(TOKEN_PATTERN@, group_names(), text), first, second);
}

/// The format matters to the tokens of the matches only by whether it is an
/// IPA format.
pub proof fn lemma_rows_by_notation(
    rows: Seq<Seq<Option<Seq<char>>>>,
    first: Format,
    second: Format,
)
    requires
        first.ipa() == second.ipa(),
    ensures
        rows_tokens(rows, first) == rows_tokens(rows, second),
    decreases rows.len(),
{
    if rows.len() > 0 {
        lemma_rows_by_notation(rows.drop_last(), first, second);
    }
}

/// A syllable token has no tone.
pub open spec fn toneless(token: TokenView) -> bool {
    token matches TokenView::Syllable(syllable) ==> syllable.tone is None
}

/// Tone numbers are not read from a text that holds none: where the group
/// texts are parts of a text without digits, no syllable has a tone.
pub proof fn lemma_no_digit_no_tone(
    rows: Seq<Seq<Option<Seq<char>>>>,
    text: Seq<char>,
    format: Format,
)
    requires
        parts_of(rows, text),
        no_digit(text),
    ensures
        rows_tokens(rows, format) matches Ok(tokens) ==> forall|i: int|
            0 <= i < tokens.len() ==> toneless(#[trigger] tokens[i]),
    decreases rows.len(),
{
    if rows.len() > 0 {
        let before = rows.drop_last();
        assert(parts_of(before, text)) by {
            assert forall|i: int, j: int|
                0 <= i < before.len() && 0 <= j < before[i].len() implies match #[trigger] before[i][j] {
                Some(part) => contains_text(text, part),
                None => true,
            } by {
                assert(before[i][j] == rows[i][j]);
            }
        }
        lemma_no_digit_no_tone(before, text, format);
        let row = rows.last();
        if let Some(digits) = group_at(row, 3) {
            assert(rows[rows.len() - 1][3] == Some(digits));
            lemma_part_without_digit(text, digits);
            lemma_no_digit_no_number(digits);
        }
    }
}

} // verus!
