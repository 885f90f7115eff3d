//! Pattern matching, done by the `regex` crate.

use crate::text::contains_text;
use regex::Regex;
use vstd::prelude::*;

verus! {

/// The error of the `regex` crate. It is carried through as it comes.
#[verifier::external_type_specification]
#[verifier::external_body]
pub struct ExRegexError(regex::Error);

/// Whether the regex engine accepts `pattern`: it is well formed and the
/// program compiled from it is within the engine's size limit.
pub uninterp spec fn pattern_compiles(pattern: Seq<char>) -> bool;

/// What each named group of `pattern` holds in each successive match of
/// `pattern` in `text`: one row for each match, in the order of the matches,
/// and in a row one entry for each of `names`, `None` where the group took no
/// part in the match.
pub uninterp spec fn group_matches(
    pattern: Seq<char>,
    names: Seq<Seq<char>>,
    text: Seq<char>,
) -> Seq<Seq<Option<Seq<char>>>>;

/// Every group text in `rows` is a part of `text`: a run of characters that
/// stand in `text` one after the other.
pub open spec fn parts_of(rows: Seq<Seq<Option<Seq<char>>>>, text: Seq<char>) -> bool {
    forall|i: int, j: int|
        0 <= i < rows.len() && 0 <= j < rows[i].len() ==> match #[trigger] rows[i][j] {
            Some(part) => contains_text(text, part),
            None => true,
        }
}

/// The rows of group texts as contracts see them.
pub open spec fn rows_view(rows: Seq<Vec<Option<String>>>) -> Seq<Seq<Option<Seq<char>>>> {
    rows.map_values(|row: Vec<Option<String>>| row.deep_view())
}

/// The names as contracts see them.
pub open spec fn names_view(names: Seq<&str>) -> Seq<Seq<char>> {
    names.map_values(|name: &str| name@)
}

/// Compiles `pattern` with `Regex::new`, walks the matches that
/// `Regex::captures_iter` finds in `text`, and reads from each the text of
/// the groups called `names` with `Captures::name`.
///
/// Believed, not proved: whether the pattern compiles depends on the
/// pattern alone, and the call fails only when it does not; when it compiles,
/// the rows are the engine's matches, which depend on the three arguments
/// alone, and the text of a group is the slice of `text` that the group
/// matched (`Match::as_str`).
#[verifier::external_body]
pub(crate) fn find_groups(pattern: &str, names: &Vec<&str>, text: &str) -> (found: Result<
    Vec<Vec<Option<String>>>,
    regex::Error,
>)
    ensures
        found is Ok <==> pattern_compiles(pattern@),
        found matches Ok(rows) ==> rows_view(rows@) == group_matches(
            pattern@,
            names_view(names@),
            text@,
        ),
        found matches Ok(rows) ==> parts_of(rows_view(rows@), text@),
{
    let regex = Regex::new(pattern)?;
    let mut rows = Vec::new();
    for caps in regex.captures_iter(text) {
        rows.push(names.iter().map(|name| caps.name(name).map(|m| m.as_str().to_string())).collect());
    }
    Ok(rows)
}

} // verus!
