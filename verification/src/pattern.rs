//! Regular expressions: the four questions this crate asks of the `regex` crate.
use vstd::prelude::*;

use crate::text;

verus! {

/// The message of the error with which `regex::Regex::new` refuses a pattern; `None` where it
/// accepts the pattern.
pub uninterp spec fn pattern_error(pattern: Seq<char>) -> Option<Seq<char>>;

/// Whether an accepted pattern has a match in a text (`regex::Regex::is_match`).
pub uninterp spec fn pattern_matches(pattern: Seq<char>, text: Seq<char>) -> bool;

/// The groups of the leftmost match of an accepted pattern in a text
/// (`regex::Regex::captures`): the whole match first, then each capture group, `None` where a
/// group took no part. `None` where there is no match.
pub uninterp spec fn pattern_groups(pattern: Seq<char>, text: Seq<char>) -> Option<
    Seq<Option<Seq<char>>>,
>;

/// A text without the matches of an accepted pattern (`regex::Regex::replace_all` by nothing).
pub uninterp spec fn pattern_removed(pattern: Seq<char>, text: Seq<char>) -> Seq<char>;

/// The views of capture groups.
pub open spec fn group_views(groups: Seq<Option<String>>) -> Seq<Option<Seq<char>>> {
    Seq::new(groups.len(), |i: int| text::opt(groups[i]))
}

/// The view of the groups of an optional match.
pub open spec fn match_view(found: Option<Vec<Option<String>>>) -> Option<Seq<Option<Seq<char>>>> {
    match found {
        Some(groups) => Some(group_views(groups@)),
        None => None,
    }
}

/// `regex::Regex::new` accepts a pattern or gives an error; which of the two, and the error's
/// message, depend on the pattern alone.
#[verifier::external_body]
pub(crate) fn check_pattern(pattern: &str) -> (r: Option<String>)
    ensures
        text::opt(r) == pattern_error(pattern@),
{
    regex::Regex::new(pattern).err().map(|e| e.to_string())
}

/// `regex::Regex::is_match` tells whether the pattern has a match in the text; `None` where
/// `regex::Regex::new` refuses the pattern.
#[verifier::external_body]
pub(crate) fn is_match(pattern: &str, text: &str) -> (r: Option<bool>)
    ensures
        r == (if pattern_error(pattern@) is None {
            Some(pattern_matches(pattern@, text@))
        } else {
            None
        }),
{
    regex::Regex::new(pattern).ok().map(|re| re.is_match(text))
}

/// `regex::Regex::captures` gives the groups of the leftmost match; the first of them is the
/// whole match, a part of the text. `None` where there is no match or `regex::Regex::new`
/// refuses the pattern.
#[verifier::external_body]
pub(crate) fn captures(pattern: &str, text: &str) -> (r: Option<Vec<Option<String>>>)
    ensures
        match_view(r) == (if pattern_error(pattern@) is None {
            pattern_groups(pattern@, text@)
        } else {
            None
        }),
        r matches Some(groups) ==> groups@.len() > 0 && (groups@[0] matches Some(whole)
            && text::contains(text@, whole@)),
{
    let re = regex::Regex::new(pattern).ok()?;
    let groups = re.captures(text)?;
    Some(groups.iter().map(|g| g.map(|m| m.as_str().to_string())).collect())
}

/// `regex::Regex::replace_all` with an empty replacement takes every match out of the text;
/// `None` where `regex::Regex::new` refuses the pattern.
#[verifier::external_body]
pub(crate) fn remove_matches(pattern: &str, text: &str) -> (r: Option<String>)
    ensures
        text::opt(r) == (if pattern_error(pattern@) is None {
            Some(pattern_removed(pattern@, text@))
        } else {
            None
        }),
{
    let re = regex::Regex::new(pattern).ok()?;
    Some(re.replace_all(text, "").to_string())
}

} // verus!
