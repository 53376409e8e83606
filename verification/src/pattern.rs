//! Matching a text against a regular expression.

use vstd::prelude::*;

verus! {

/// Whether the `regex` crate accepts `pattern` as a regular expression.
pub uninterp spec fn pattern_compiles(pattern: Seq<char>) -> bool;

/// The capture groups of the leftmost match of `pattern` in `text`, the whole
/// match first, or `None` where `text` holds no match. A group that took no
/// part in the match is `None`.
pub uninterp spec fn pattern_captures(pattern: Seq<char>, text: Seq<char>) -> Option<Seq<Option<Seq<char>>>>;

/// `regex::Error`, the reason for which `regex` refuses a pattern. It is
/// carried through and not looked into.
#[verifier::external_type_specification]
#[verifier::external_body]
pub struct ExRegexError(regex::Error);

/// The groups of a match as sequences of characters.
pub open spec fn groups_view(groups: Vec<Option<String>>) -> Seq<Option<Seq<char>>> {
    Seq::new(
        groups@.len(),
        |i: int|
            match groups@[i] {
                Some(s) => Some(s@),
                None => None,
            },
    )
}

/// The outcome of a search as sequences of characters.
pub open spec fn captures_view(found: Option<Vec<Option<String>>>) -> Option<Seq<Option<Seq<char>>>> {
    match found {
        Some(groups) => Some(groups_view(groups)),
        None => None,
    }
}

/// Compiles `pattern` with `regex::Regex::new` and searches `text` with
/// `Regex::captures`, copying each group of the match into a `String`. The
/// contract only names the two outcomes, [`pattern_compiles`] and
/// [`pattern_captures`]: what a pattern matches is left to `regex`.
#[verifier::external_body]
pub(crate) fn captures(pattern: &str, text: &str) -> (r: Result<Option<Vec<Option<String>>>, regex::Error>)
    ensures
        r is Ok == pattern_compiles(pattern@),
        r matches Ok(found) ==> captures_view(found) == pattern_captures(pattern@, text@),
{
    let re = regex::Regex::new(pattern)?;
    Ok(re.captures(text).map(|c| c.iter().map(|g| g.map(|m| m.as_str().to_string())).collect()))
}

/// Whether a match holds `count` groups behind the whole match, all of them
/// taking part.
pub open spec fn has_groups(groups: Seq<Option<Seq<char>>>, count: int) -> bool {
    groups.len() == count + 1 && forall|i: int| 1 <= i <= count ==> (#[trigger] groups[i]) is Some
}

/// Whether the groups `1..=count` of a match all took part in it.
pub(crate) fn groups_present(groups: &Vec<Option<String>>, count: usize) -> (r: bool)
    requires
        count < usize::MAX,
    ensures
        r == has_groups(groups_view(*groups), count as int),
{
    if groups.len() != count + 1 {
        return false;
    }
    let mut i: usize = 1;
    while i <= count
        invariant
            count < usize::MAX,
            groups@.len() == count + 1,
            1 <= i <= count + 1,
            forall|k: int| 1 <= k < i ==> (#[trigger] groups_view(*groups)[k]) is Some,
        decreases count + 1 - i,
    {
        if groups[i].is_none() {
            assert(groups_view(*groups)[i as int] is None);
            return false;
        }
        assert(groups_view(*groups)[i as int] is Some);
        i = i + 1;
    }
    true
}

/// Group `i` of a match, which took part in it.
pub(crate) fn group(groups: &Vec<Option<String>>, i: usize) -> (text: &str)
    requires
        i < groups@.len(),
        groups_view(*groups)[i as int] is Some,
    ensures
        text@ == groups_view(*groups)[i as int]->0,
{
    match &groups[i] {
        Some(s) => s.as_str(),
        None => "",
    }
}

} // verus!
