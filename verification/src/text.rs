//! Operations on short pieces of text, seen as sequences of characters.

use vstd::prelude::*;
use vstd::string::*;

verus! {

/// `pat` stands in `s` at index `at`.
pub open spec fn occurs_at(s: Seq<char>, pat: Seq<char>, at: int) -> bool {
    &&& 0 <= at
    &&& at + pat.len() <= s.len()
    &&& s.subrange(at, at + pat.len()) == pat
}

/// `pat` stands somewhere in `s`.
pub open spec fn contains_text(s: Seq<char>, pat: Seq<char>) -> bool {
    exists|at: int| occurs_at(s, pat, at)
}

/// `s` with its leftmost occurrence of `pat` replaced by `to`; `s` itself
/// where `pat` does not occur.
pub open spec fn replaced_first(s: Seq<char>, pat: Seq<char>, to: Seq<char>) -> Seq<char>
    decreases s.len(),
{
    if s.len() < pat.len() {
        s
    } else if pat.len() == 0 || s.subrange(0, pat.len() as int) == pat {
        to + s.subrange(pat.len() as int, s.len() as int)
    } else {
        seq![s[0]] + replaced_first(s.subrange(1, s.len() as int), pat, to)
    }
}

/// `s` with every occurrence of the non-empty `pat` replaced by `to`, the
/// occurrences taken from left to right without overlap.
pub open spec fn replaced_all(s: Seq<char>, pat: Seq<char>, to: Seq<char>) -> Seq<char>
    decreases s.len(),
{
    if pat.len() == 0 || s.len() < pat.len() {
        s
    } else if s.subrange(0, pat.len() as int) == pat {
        to + replaced_all(s.subrange(pat.len() as int, s.len() as int), pat, to)
    } else {
        seq![s[0]] + replaced_all(s.subrange(1, s.len() as int), pat, to)
    }
}

/// An occurrence in the tail of `s` is an occurrence in `s`, one place later.
pub proof fn lemma_occurs_in_tail(s: Seq<char>, pat: Seq<char>, at: int)
    requires
        s.len() > 0,
    ensures
        occurs_at(s.subrange(1, s.len() as int), pat, at) <==> (at >= 0 && occurs_at(
            s,
            pat,
            at + 1,
        )),
{
    let tail = s.subrange(1, s.len() as int);
    if 0 <= at && at + pat.len() <= tail.len() {
        assert(tail.subrange(at, at + pat.len()) =~= s.subrange(at + 1, at + 1 + pat.len()));
    }
}

/// Where `pat` first occurs at `at`, the replacement happens there.
pub proof fn lemma_replaced_first_at(s: Seq<char>, pat: Seq<char>, to: Seq<char>, at: int)
    requires
        occurs_at(s, pat, at),
        forall|j: int| 0 <= j < at ==> !occurs_at(s, pat, j),
    ensures
        replaced_first(s, pat, to) == s.subrange(0, at) + to + s.subrange(
            at + pat.len(),
            s.len() as int,
        ),
    decreases at,
{
    if at == 0 {
        assert(s.subrange(0, 0) + to =~= to);
    } else {
        let tail = s.subrange(1, s.len() as int);
        assert(!occurs_at(s, pat, 0));
        assert(pat.len() > 0) by {
            if pat.len() == 0 {
                assert(s.subrange(0, 0) =~= pat);
            }
        }
        lemma_occurs_in_tail(s, pat, at - 1);
        assert forall|j: int| 0 <= j < at - 1 implies !occurs_at(tail, pat, j) by {
            lemma_occurs_in_tail(s, pat, j);
        }
        lemma_replaced_first_at(tail, pat, to, at - 1);
        assert(tail.subrange(at - 1 + pat.len(), tail.len() as int) =~= s.subrange(
            at + pat.len(),
            s.len() as int,
        ));
        assert(seq![s[0]] + tail.subrange(0, at - 1) =~= s.subrange(0, at));
        assert(seq![s[0]] + (tail.subrange(0, at - 1) + to + s.subrange(
            at + pat.len(),
            s.len() as int,
        )) =~= s.subrange(0, at) + to + s.subrange(at + pat.len(), s.len() as int));
    }
}

/// Where `pat` does not occur, nothing is replaced.
pub proof fn lemma_replaced_first_absent(s: Seq<char>, pat: Seq<char>, to: Seq<char>)
    requires
        !contains_text(s, pat),
    ensures
        replaced_first(s, pat, to) == s,
    decreases s.len(),
{
    if s.len() >= pat.len() {
        assert(!occurs_at(s, pat, 0));
        let tail = s.subrange(1, s.len() as int);
        assert(s.len() > 0) by {
            if s.len() == 0 {
                assert(s.subrange(0, 0) =~= pat);
            }
        }
        assert forall|j: int| !occurs_at(tail, pat, j) by {
            lemma_occurs_in_tail(s, pat, j);
            assert(!occurs_at(s, pat, j + 1));
        }
        lemma_replaced_first_absent(tail, pat, to);
        assert(seq![s[0]] + tail =~= s);
    }
}

/// A replacement by a non-empty text leaves no non-empty text empty.
pub proof fn lemma_replaced_all_nonempty(s: Seq<char>, pat: Seq<char>, to: Seq<char>)
    requires
        s.len() > 0,
        to.len() > 0,
    ensures
        replaced_all(s, pat, to).len() > 0,
{
}

/// The characters of `s`, one by one.
pub fn chars_of(s: &str) -> (chars: Vec<char>)
    ensures
        chars@ == s@,
{
    let mut chars: Vec<char> = Vec::new();
    for c in it: s.chars()
        invariant
            chars@ == it.seq().take(it.index() as int),
            it.seq() == s@,
    {
        chars.push(c);
    }
    chars
}

/// Whether `chars` spells `lit`.
pub fn is_text(chars: &Vec<char>, lit: &str) -> (same: bool)
    ensures
        same == (chars@ == lit@),
{
    let mut i: usize = 0;
    for c in it: lit.chars()
        invariant
            i == it.index(),
            it.seq() == lit@,
            i <= chars.len(),
            forall|k: int| 0 <= k < i ==> chars@[k] == lit@[k],
    {
        if i >= chars.len() {
            assert(chars@.len() < lit@.len());
            return false;
        }
        if chars[i] != c {
            assert(chars@[i as int] != lit@[i as int]);
            return false;
        }
        i += 1;
    }
    if i == chars.len() {
        assert(chars@ =~= lit@);
        true
    } else {
        assert(chars@.len() != lit@.len());
        false
    }
}

/// Whether `pat` stands in `s` at index `at`.
pub fn matches_at(s: &Vec<char>, pat: &Vec<char>, at: usize) -> (found: bool)
    ensures
        found == occurs_at(s@, pat@, at as int),
{
    if at > s.len() || pat.len() > s.len() - at {
        return false;
    }
    let mut k: usize = 0;
    while k < pat.len()
        invariant
            k <= pat.len(),
            at + pat.len() <= s.len(),
            forall|j: int| 0 <= j < k ==> s@[at + j] == pat@[j],
        decreases pat.len() - k,
    {
        if s[at + k] != pat[k] {
            assert(s@.subrange(at as int, at + pat.len())[k as int] != pat@[k as int]);
            return false;
        }
        k += 1;
    }
    assert(s@.subrange(at as int, at + pat.len()) =~= pat@);
    true
}

/// The index of the leftmost occurrence of `pat` in `s`.
pub fn find_text(s: &Vec<char>, pat: &Vec<char>) -> (found: Option<usize>)
    ensures
        match found {
            Some(at) => occurs_at(s@, pat@, at as int) && forall|j: int|
                0 <= j < at ==> !occurs_at(s@, pat@, j),
            None => !contains_text(s@, pat@),
        },
{
    let mut at: usize = 0;
    while at < s.len()
        invariant
            at <= s.len(),
            forall|j: int| 0 <= j < at ==> !occurs_at(s@, pat@, j),
        decreases s.len() - at,
    {
        if matches_at(s, pat, at) {
            return Some(at);
        }
        at += 1;
    }
    if matches_at(s, pat, at) {
        Some(at)
    } else {
        None
    }
}

/// Whether `pat` stands somewhere in `s`.
pub fn contains(s: &str, pat: &str) -> (found: bool)
    ensures
        found == contains_text(s@, pat@),
{
    let text = chars_of(s);
    let wanted = chars_of(pat);
    find_text(&text, &wanted).is_some()
}

/// `s` with its leftmost occurrence of `pat` replaced by `to`.
pub fn replace_first(s: &str, pat: &str, to: &str) -> (out: String)
    ensures
        out@ == replaced_first(s@, pat@, to@),
{
    let text = chars_of(s);
    let wanted = chars_of(pat);
    match find_text(&text, &wanted) {
        Some(at) => {
            proof {
                assert(occurs_at(text@, wanted@, at as int));
                lemma_replaced_first_at(s@, pat@, to@, at as int);
            }
            let mut out = String::from_str(s.substring_char(0, at));
            out.append(to);
            let end = text.len();
            out.append(s.substring_char(at + wanted.len(), end));
            out
        },
        None => {
            proof {
                lemma_replaced_first_absent(s@, pat@, to@);
            }
            String::from_str(s)
        },
    }
}

/// `s` with every occurrence of `pat` replaced by `to`.
pub fn replace_all(s: &str, pat: &str, to: &str) -> (out: String)
    requires
        pat@.len() > 0,
    ensures
        out@ == replaced_all(s@, pat@, to@),
{
    let text = chars_of(s);
    let wanted = chars_of(pat);
    let mut out = String::new();
    let mut i: usize = 0;
    assert(s@.subrange(0, s@.len() as int) =~= s@);
    assert(out@ + replaced_all(s@, pat@, to@) =~= replaced_all(s@, pat@, to@));
    while i < text.len()
        invariant
            i <= text.len(),
            text@ == s@,
            wanted@ == pat@,
            pat@.len() > 0,
            out@ + replaced_all(s@.subrange(i as int, s@.len() as int), pat@, to@)
                == replaced_all(s@, pat@, to@),
        decreases text.len() - i,
    {
        let ghost rest = s@.subrange(i as int, s@.len() as int);
        if matches_at(&text, &wanted, i) {
            proof {
                assert(rest.subrange(0, pat@.len() as int) =~= s@.subrange(
                    i as int,
                    i + pat@.len(),
                ));
                assert(rest.subrange(pat@.len() as int, rest.len() as int) =~= s@.subrange(
                    i + pat@.len(),
                    s@.len() as int,
                ));
                assert((out@ + to@) + replaced_all(
                    s@.subrange(i + pat@.len(), s@.len() as int),
                    pat@,
                    to@,
                ) =~= out@ + replaced_all(rest, pat@, to@));
            }
            out.append(to);
            i += wanted.len();
        } else {
            let one = s.substring_char(i, i + 1);
            proof {
                let after = s@.subrange(i + 1, s@.len() as int);
                assert(rest.subrange(1, rest.len() as int) =~= after);
                assert(one@ =~= seq![rest[0]]);
                if rest.len() >= pat@.len() {
                    assert(rest.subrange(0, pat@.len() as int) =~= s@.subrange(
                        i as int,
                        i + pat@.len(),
                    ));
                } else {
                    assert(seq![rest[0]] + after =~= rest);
                }
                assert((out@ + one@) + replaced_all(after, pat@, to@) =~= out@ + replaced_all(
                    rest,
                    pat@,
                    to@,
                ));
            }
            out.append(one);
            i += 1;
        }
    }
    assert(s@.subrange(i as int, s@.len() as int) =~= Seq::<char>::empty());
    assert(out@ + Seq::<char>::empty() =~= out@);
    out
}


/// A letter from `A` to `Z` in lower case; any other character is itself.
pub open spec fn ascii_lower(c: char) -> char {
    if 'A' <= c <= 'Z' {
        ((c as u8 + 32) as u8) as char
    } else {
        c
    }
}

/// `s` with its letters from `A` to `Z` in lower case.
pub open spec fn folded(s: Seq<char>) -> Seq<char> {
    s.map_values(|c: char| ascii_lower(c))
}

/// A letter from `A` to `Z` in lower case; any other character is itself.
pub fn to_ascii_lower(c: char) -> (lower: char)
    ensures
        lower == ascii_lower(c),
{
    if 'A' <= c && c <= 'Z' {
        let code: u8 = c as u8;
        (code + 32) as char
    } else {
        c
    }
}

/// Whether the letters of `chars`, those from `A` to `Z` put in lower case,
/// spell `lit`.
pub fn folds_to(chars: &Vec<char>, lit: &str) -> (same: bool)
    ensures
        same == (folded(chars@) == lit@),
{
    let wanted = chars_of(lit);
    if chars.len() != wanted.len() {
        assert(folded(chars@).len() != lit@.len());
        return false;
    }
    let mut i: usize = 0;
    while i < chars.len()
        invariant
            i <= chars.len(),
            chars.len() == wanted.len(),
            wanted@ == lit@,
            forall|k: int| 0 <= k < i ==> ascii_lower(chars@[k]) == wanted@[k],
        decreases chars.len() - i,
    {
        if to_ascii_lower(chars[i]) != wanted[i] {
            assert(folded(chars@)[i as int] != lit@[i as int]);
            return false;
        }
        i += 1;
    }
    assert(folded(chars@) =~= lit@);
    true
}

/// What a decimal digit counts; 0 for any other character.
pub open spec fn digit_value(c: char) -> nat {
    if '0' <= c <= '9' {
        (c as nat - '0' as nat) as nat
    } else {
        0
    }
}

/// The number that a text of decimal digits writes.
pub open spec fn decimal_value(digits: Seq<char>) -> nat
    decreases digits.len(),
{
    if digits.len() == 0 {
        0
    } else {
        decimal_value(digits.drop_last()) * 10 + digit_value(digits.last())
    }
}

/// Every character is a digit from `0` to `9`.
pub open spec fn is_digits(s: Seq<char>) -> bool {
    forall|i: int| 0 <= i < s.len() ==> '0' <= #[trigger] s[i] <= '9'
}

/// The unsigned number that `s` writes: an optional `+`, then one or more
/// digits from `0` to `9` whose value fits a machine word. `None` for any
/// other text.
pub open spec fn unsigned_value(s: Seq<char>) -> Option<nat> {
    let digits = if s.len() > 0 && s[0] == '+' {
        s.drop_first()
    } else {
        s
    };
    if digits.len() > 0 && is_digits(digits) && decimal_value(digits) <= usize::MAX {
        Some(decimal_value(digits))
    } else {
        None
    }
}

/// A number is at least as large as the number that its first digits write.
pub proof fn lemma_decimal_prefix(digits: Seq<char>, k: int)
    requires
        0 <= k <= digits.len(),
    ensures
        decimal_value(digits.take(k)) <= decimal_value(digits),
    decreases digits.len() - k,
{
    if k == digits.len() {
        assert(digits.take(k) =~= digits);
    } else {
        lemma_decimal_prefix(digits.drop_last(), k);
        assert(digits.drop_last().take(k) =~= digits.take(k));
    }
}

/// Reads an unsigned number.
pub fn parse_unsigned(s: &str) -> (value: Option<usize>)
    ensures
        match value {
            Some(number) => unsigned_value(s@) == Some(number as nat),
            None => unsigned_value(s@) is None,
        },
{
    let chars = chars_of(s);
    let start: usize = if chars.len() > 0 && chars[0] == '+' {
        1
    } else {
        0
    };
    let ghost digits = s@.subrange(start as int, s@.len() as int);
    proof {
        assert(s@.subrange(0, s@.len() as int) =~= s@);
        if s@.len() > 0 {
            assert(s@.drop_first() =~= s@.subrange(1, s@.len() as int));
        }
    }
    if start == chars.len() {
        return None;
    }
    let mut number: usize = 0;
    let mut i: usize = start;
    while i < chars.len()
        invariant
            start <= i <= chars.len(),
            chars@ == s@,
            digits == s@.subrange(start as int, s@.len() as int),
            unsigned_value(s@) == if digits.len() > 0 && is_digits(digits) && decimal_value(digits)
                <= usize::MAX {
                Some(decimal_value(digits))
            } else {
                None
            },
            is_digits(digits.take(i - start)),
            number == decimal_value(digits.take(i - start)),
        decreases chars.len() - i,
    {
        let c = chars[i];
        let ghost seen = digits.take(i - start + 1);
        proof {
            assert(seen.drop_last() =~= digits.take(i - start));
            assert(seen.last() == c);
            assert(digits[i - start] == c);
        }
        if c < '0' || c > '9' {
            return None;
        }
        let digit: usize = (c as u8 - '0' as u8) as usize;
        assert(digit == digit_value(c));
        assert(decimal_value(seen) == number * 10 + digit);
        if number > (usize::MAX - digit) / 10 {
            proof {
                lemma_decimal_prefix(digits, i - start + 1);
            }
            return None;
        }
        number = number * 10 + digit;
        i += 1;
    }
    assert(digits.take(i - start) =~= digits);
    Some(number)
}

/// White space, as Unicode lists it.
pub open spec fn is_white_space(c: char) -> bool {
    ||| '\u{9}' <= c <= '\u{d}'
    ||| c == ' '
    ||| c == '\u{85}'
    ||| c == '\u{a0}'
    ||| c == '\u{1680}'
    ||| '\u{2000}' <= c <= '\u{200a}'
    ||| c == '\u{2028}'
    ||| c == '\u{2029}'
    ||| c == '\u{202f}'
    ||| c == '\u{205f}'
    ||| c == '\u{3000}'
}

/// Where the run of characters that are not white space and that holds the
/// index `from` ends: the index of the next white space, or the length of
/// `text`.
pub open spec fn word_end(text: Seq<char>, from: int) -> int
    decreases text.len() - from,
{
    if from < 0 || from >= text.len() || is_white_space(text[from]) {
        from
    } else {
        word_end(text, from + 1)
    }
}

/// A word starts at `at`: the character there is no white space, and the
/// one before it, if there is one, is.
pub open spec fn word_starts(text: Seq<char>, at: int) -> bool {
    &&& 0 <= at < text.len()
    &&& !is_white_space(text[at])
    &&& (at == 0 || is_white_space(text[at - 1]))
}

/// The words of `text` that start at `from` or later, from left to right.
pub open spec fn words_from(text: Seq<char>, from: int) -> Seq<Seq<char>>
    decreases text.len() - from,
{
    if from < 0 || from >= text.len() {
        Seq::empty()
    } else if word_starts(text, from) {
        seq![text.subrange(from, word_end(text, from))] + words_from(text, from + 1)
    } else {
        words_from(text, from + 1)
    }
}

/// The words of `text`: its maximal runs of characters that are not white
/// space, from left to right.
pub open spec fn words_of(text: Seq<char>) -> Seq<Seq<char>> {
    words_from(text, 0)
}

/// The words as contracts see them.
pub open spec fn words_view(words: Seq<String>) -> Seq<Seq<char>> {
    words.map_values(|word: String| word@)
}

/// No word starts inside a word.
pub proof fn lemma_no_word_inside(text: Seq<char>, from: int, end: int)
    requires
        0 < from <= end <= text.len(),
        forall|j: int| from - 1 <= j < end ==> !is_white_space(#[trigger] text[j]),
    ensures
        words_from(text, from) == words_from(text, end),
    decreases end - from,
{
    if from < end {
        assert(!is_white_space(text[from - 1]));
        lemma_no_word_inside(text, from + 1, end);
    }
}

/// Whether `c` is white space.
pub fn white_space(c: char) -> (white: bool)
    ensures
        white == is_white_space(c),
{
    ('\u{9}' <= c && c <= '\u{d}') || c == ' ' || c == '\u{85}' || c == '\u{a0}' || c
        == '\u{1680}' || ('\u{2000}' <= c && c <= '\u{200a}') || c == '\u{2028}' || c
        == '\u{2029}' || c == '\u{202f}' || c == '\u{205f}' || c == '\u{3000}'
}

/// Splits `text` into its words.
pub fn split_words(text: &str) -> (words: Vec<String>)
    ensures
        words_view(words@) == words_of(text@),
{
    let chars = chars_of(text);
    let mut words: Vec<String> = Vec::new();
    let mut i: usize = 0;
    assert(words_view(words@) + words_from(text@, 0) =~= words_of(text@));
    while i < chars.len()
        invariant
            i <= chars.len(),
            chars@ == text@,
            i == 0 || i == chars.len() || is_white_space(text@[i - 1]) || is_white_space(
                text@[i as int],
            ),
            words_view(words@) + words_from(text@, i as int) == words_of(text@),
        decreases chars.len() - i,
    {
        if white_space(chars[i]) {
            i += 1;
        } else {
            let mut end: usize = i + 1;
            while end < chars.len() && !white_space(chars[end])
                invariant
                    i < end <= chars.len(),
                    chars@ == text@,
                    forall|j: int| i <= j < end ==> !is_white_space(#[trigger] text@[j]),
                    word_end(text@, end as int) == word_end(text@, i as int),
                decreases chars.len() - end,
            {
                end += 1;
            }
            let ghost before = words_view(words@);
            words.push(String::from_str(text.substring_char(i, end)));
            proof {
                assert(word_starts(text@, i as int));
                assert(word_end(text@, end as int) == end);
                lemma_no_word_inside(text@, i + 1, end as int);
                let word = text@.subrange(i as int, end as int);
                assert(words_view(words@) =~= before.push(word));
                assert(before.push(word) + words_from(text@, end as int) =~= before + (seq![word]
                    + words_from(text@, i + 1)));
            }
            i = end;
        }
    }
    assert(words_view(words@) + Seq::<Seq<char>>::empty() =~= words_view(words@));
    words
}

/// No character of `s` is a digit from `0` to `9`.
pub open spec fn no_digit(s: Seq<char>) -> bool {
    forall|i: int| 0 <= i < s.len() ==> !('0' <= #[trigger] s[i] <= '9')
}

/// A part of a text without digits is without digits.
pub proof fn lemma_part_without_digit(text: Seq<char>, part: Seq<char>)
    requires
        contains_text(text, part),
        no_digit(text),
    ensures
        no_digit(part),
{
    let at = choose|at: int| occurs_at(text, part, at);
    assert forall|i: int| 0 <= i < part.len() implies !('0' <= #[trigger] part[i] <= '9') by {
        assert(text.subrange(at, at + part.len())[i] == text[at + i]);
    }
}

/// A text without digits writes no number.
pub proof fn lemma_no_digit_no_number(s: Seq<char>)
    requires
        no_digit(s),
    ensures
        unsigned_value(s) is None,
{
    if s.len() > 0 && s[0] == '+' {
        let digits = s.drop_first();
        if digits.len() > 0 && is_digits(digits) {
            assert(digits[0] == s[1]);
        }
    } else if s.len() > 0 && is_digits(s) {
        assert('0' <= s[0] <= '9');
    }
}

/// Replacing a part of a text without digits by a text without digits gives
/// a text without digits.
pub proof fn lemma_replaced_first_without_digit(s: Seq<char>, pat: Seq<char>, to: Seq<char>)
    requires
        no_digit(s),
        no_digit(to),
    ensures
        no_digit(replaced_first(s, pat, to)),
    decreases s.len(),
{
    if s.len() >= pat.len() && !(pat.len() == 0 || s.subrange(0, pat.len() as int) == pat) {
        let tail = s.subrange(1, s.len() as int);
        assert(no_digit(tail)) by {
            assert forall|i: int| 0 <= i < tail.len() implies !('0' <= #[trigger] tail[i] <= '9') by {
                assert(tail[i] == s[i + 1]);
            }
        }
        lemma_replaced_first_without_digit(tail, pat, to);
    } else if s.len() >= pat.len() {
        let rest = s.subrange(pat.len() as int, s.len() as int);
        assert forall|i: int| 0 <= i < rest.len() implies !('0' <= #[trigger] rest[i] <= '9') by {
            assert(rest[i] == s[i + pat.len()]);
        }
    }
}

/// A word ends at or after the index it is asked from, and within the text.
pub proof fn lemma_word_end_bounds(text: Seq<char>, from: int)
    requires
        0 <= from <= text.len(),
    ensures
        from <= word_end(text, from) <= text.len(),
    decreases text.len() - from,
{
    if from < text.len() && !is_white_space(text[from]) {
        lemma_word_end_bounds(text, from + 1);
    }
}

/// The words of a text without digits are without digits.
pub proof fn lemma_words_without_digit(text: Seq<char>, from: int)
    requires
        no_digit(text),
        0 <= from,
    ensures
        forall|k: int|
            0 <= k < words_from(text, from).len() ==> no_digit(#[trigger] words_from(text, from)[k]),
    decreases text.len() - from,
{
    if from < text.len() {
        lemma_words_without_digit(text, from + 1);
        if word_starts(text, from) {
            lemma_word_end_bounds(text, from);
            let word = text.subrange(from, word_end(text, from));
            assert(no_digit(word)) by {
                assert forall|i: int| 0 <= i < word.len() implies !('0' <= #[trigger] word[i]
                    <= '9') by {
                    assert(word[i] == text[from + i]);
                }
            }
            let rest = words_from(text, from + 1);
            assert forall|k: int| 0 <= k < words_from(text, from).len() implies no_digit(
                #[trigger] words_from(text, from)[k],
            ) by {
                if k > 0 {
                    assert(words_from(text, from)[k] == rest[k - 1]);
                }
            }
        }
    }
}

} // verus!
