//! Regular expressions, matched by the `regex` crate.
//!
//! Nothing about the matching itself is proved here. What a pattern captures
//! in a text is given a name, and the grammar functions of the HTTP engine
//! state their results over that name.

use crate::text::optional_view;
use vstd::prelude::*;

verus! {

/// The error of `regex::Regex::new` for a pattern that does not compile.
#[verifier::external_type_specification]
#[verifier::external_body]
pub struct ExRegexError(regex::Error);

/// Whether `regex::Regex::new` accepts `pattern`.
pub uninterp spec fn regex_compiles(pattern: Seq<char>) -> bool;

/// What `regex::Regex::captures` finds for `pattern` in `text`: nothing where
/// the pattern does not match; else the capture groups of the leftmost match
/// by index, each with the text that it matched, if it took part in the match.
pub uninterp spec fn regex_captures(pattern: Seq<char>, text: Seq<char>) -> Option<
    Seq<Option<Seq<char>>>,
>;

/// The capture groups as sequences of characters.
pub open spec fn groups_view(groups: Seq<Option<String>>) -> Seq<Option<Seq<char>>> {
    groups.map_values(
        |group: Option<String>|
            match group {
                Some(text) => Some(text@),
                None => None,
            },
    )
}

/// The groups found, as sequences of characters.
pub open spec fn found_view(found: Option<Vec<Option<String>>>) -> Option<Seq<Option<Seq<char>>>> {
    match found {
        Some(groups) => Some(groups_view(groups@)),
        None => None,
    }
}

/// Compiles `pattern` with `regex::Regex::new` and searches `text` with
/// `regex::Regex::captures`.
///
/// Trusted: the call fails exactly for the patterns that the crate does not
/// compile, and otherwise hands out what the crate captured, group by group,
/// copied into strings. Both are functions of the two arguments alone.
#[verifier::external_body]
pub(crate) fn captures(pattern: &str, text: &str) -> (found: Result<
    Option<Vec<Option<String>>>,
    regex::Error,
>)
    ensures
        found is Ok <==> regex_compiles(pattern@),
        found matches Ok(groups) ==> found_view(groups) == regex_captures(pattern@, text@),
{
    let compiled = regex::Regex::new(pattern)?;
    let found = compiled.captures(text);
    Ok(found.map(|groups| groups.iter().map(|group| group.map(|m| m.as_str().to_string())).collect()))
}

/// What `pattern` captures in `text`; a pattern that does not compile
/// captures nothing.
pub open spec fn matched(pattern: Seq<char>, text: Seq<char>) -> Option<Seq<Option<Seq<char>>>> {
    if regex_compiles(pattern) {
        regex_captures(pattern, text)
    } else {
        None
    }
}

/// Searches `text` for `pattern` and hands out the captured groups. A
/// pattern that does not compile finds nothing.
pub fn find(pattern: &str, text: &str) -> (found: Option<Vec<Option<String>>>)
    ensures
        found_view(found) == matched(pattern@, text@),
{
    match captures(pattern, text) {
        Ok(found) => found,
        Err(_) => None,
    }
}

/// The text of group `index`, if there is such a group and it took part.
pub open spec fn group_at(groups: Seq<Option<Seq<char>>>, index: int) -> Option<Seq<char>> {
    if 0 <= index < groups.len() {
        groups[index]
    } else {
        None
    }
}

/// The text of group `index` of `groups`, if there is such a group and it took
/// part in the match.
pub fn group<'a>(groups: &'a Vec<Option<String>>, index: usize) -> (text: Option<&'a str>)
    ensures
        optional_view(text) == group_at(groups_view(groups@), index as int),
{
    if index < groups.len() {
        match &groups[index] {
            Some(t) => Some(t.as_str()),
            None => None,
        }
    } else {
        None
    }
}

} // verus!
