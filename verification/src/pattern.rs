//! The regular-expression engine, as far as this library relies on it.

use vstd::prelude::*;
use regex::Regex;
use crate::text::opt_text;

verus! {

/// Whether the regular expression `pattern` compiles and matches somewhere in
/// `text`, as the `regex` crate decides it.
pub uninterp spec fn pattern_match(pattern: Seq<char>, text: Seq<char>) -> bool;

/// The capture groups of the leftmost match of `pattern` in `text`, as the
/// `regex` crate finds them: group 0 is the whole match, and a group that took
/// no part in the match is `None`. `None` as a whole where the pattern does
/// not compile or matches nowhere.
pub uninterp spec fn pattern_groups(pattern: Seq<char>, text: Seq<char>) -> Option<
    Seq<Option<Seq<char>>>,
>;

/// The texts of a list of optional strings.
pub open spec fn group_views(groups: Seq<Option<String>>) -> Seq<Option<Seq<char>>> {
    groups.map_values(|g: Option<String>| opt_text(g))
}

/// Trusted: compiles `pattern` with `regex::Regex::new` and asks
/// `regex::Regex::is_match` about `text`. The contract only gives the answer a
/// name; a pattern that the engine rejects answers `false`.
#[verifier::external_body]
pub(crate) fn is_match(pattern: &str, text: &str) -> (found: bool)
    ensures
        found == pattern_match(pattern@, text@),
{
    match Regex::new(pattern) {
        Ok(re) => re.is_match(text),
        Err(_) => false,
    }
}

/// Trusted: compiles `pattern` with `regex::Regex::new` and runs
/// `regex::Regex::captures` on `text`, copying each group's text out. The
/// contract only gives the outcome a name.
#[verifier::external_body]
pub(crate) fn captures(pattern: &str, text: &str) -> (groups: Option<Vec<Option<String>>>)
    ensures
        match groups {
            Some(g) => pattern_groups(pattern@, text@) == Some(group_views(g@)),
            None => pattern_groups(pattern@, text@) is None,
        },
{
    let re = Regex::new(pattern).ok()?;
    let found = re.captures(text)?;
    Some(found.iter().map(|g| g.map(|m| m.as_str().to_string())).collect())
}

} // verus!
