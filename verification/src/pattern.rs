//! Regular-expression matching, done by the `regex` crate.
use vstd::prelude::*;

verus! {

/// The text of each capture group of one match (group 0 is the whole match);
/// `None` for a group that took no part in the match.
pub open spec fn groups_view(g: Seq<Option<String>>) -> Seq<Option<Seq<char>>> {
    g.map_values(|o: Option<String>|
        match o {
            Some(s) => Some(s@),
            None => None,
        })
}

/// What `regex` finds as the leftmost-first match of `pattern` in `text`, as
/// the text of its capture groups; `None` when `pattern` does not compile or
/// does not match.
pub uninterp spec fn regex_first(pattern: Seq<char>, text: Seq<char>) -> Option<
    Seq<Option<Seq<char>>>,
>;

/// What `regex` finds as the successive non-overlapping matches of `pattern`
/// in `text`, each as the text of its capture groups; empty when `pattern`
/// does not compile.
pub uninterp spec fn regex_all(pattern: Seq<char>, text: Seq<char>) -> Seq<
    Seq<Option<Seq<char>>>,
>;

/// `regex::Regex::new(pattern)` then `Regex::captures(text)`, each group
/// turned into an owned string. The result is named (`regex_first`): it
/// depends on the pattern and the text alone.
#[verifier::external_body]
pub(crate) fn regex_captures(pattern: &str, text: &str) -> (r: Option<Vec<Option<String>>>)
    ensures
        regex_first(pattern@, text@) == match r {
            Some(g) => Some(groups_view(g@)),
            None => None,
        },
{
    let caps = regex::Regex::new(pattern).ok()?.captures(text)?;
    Some(caps.iter().map(|g| g.map(|m| m.as_str().to_string())).collect())
}

/// `regex::Regex::new(pattern)` then `Regex::captures_iter(text)`, each match
/// turned into the owned strings of its groups; empty when the pattern does
/// not compile. The result is named (`regex_all`).
#[verifier::external_body]
pub(crate) fn regex_captures_all(pattern: &str, text: &str) -> (r: Vec<Vec<Option<String>>>)
    ensures
        regex_all(pattern@, text@) == r@.map_values(|g: Vec<Option<String>>| groups_view(g@)),
{
    match regex::Regex::new(pattern) {
        Ok(re) => re.captures_iter(text).map(|c| c.iter().map(|g| g.map(|m| m.as_str().to_string())).collect()).collect(),
        Err(_) => Vec::new(),
    }
}

/// Group `g` of a match, when the match exists and the group took part.
pub open spec fn group(m: Option<Seq<Option<Seq<char>>>>, g: int) -> Option<Seq<char>> {
    match m {
        Some(groups) => if 0 <= g < groups.len() {
            groups[g]
        } else {
            None
        },
        None => None,
    }
}

/// Group `g` of a list of groups.
pub fn group_exec(groups: &Vec<Option<String>>, g: usize) -> (r: Option<String>)
    ensures
        match r {
            Some(s) => group(Some(groups_view(groups@)), g as int) == Some(s@),
            None => group(Some(groups_view(groups@)), g as int) is None,
        },
{
    if g < groups.len() {
        match &groups[g] {
            Some(s) => Some(crate::text::copy_str(s.as_str())),
            None => None,
        }
    } else {
        None
    }
}

/// Group `g` of the first match of `pattern` in `text`.
pub fn first_group(pattern: &str, text: &str, g: usize) -> (r: Option<String>)
    ensures
        match r {
            Some(s) => group(regex_first(pattern@, text@), g as int) == Some(s@),
            None => group(regex_first(pattern@, text@), g as int) is None,
        },
{
    match regex_captures(pattern, text) {
        Some(groups) => group_exec(&groups, g),
        None => None,
    }
}

} // verus!
