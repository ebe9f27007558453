//! The regular-expression searches of the library, made by the `regex`
//! crate.  What a search finds is named, not restated: the names below stand
//! for the results of `regex::Regex`.
use vstd::prelude::*;

verus! {

/// Whether `regex::Regex::new` accepts `pattern`.
pub uninterp spec fn regex_compiles(pattern: Seq<char>) -> bool;

/// What `regex::Regex::captures` finds in `haystack`: `None` when there is
/// no match, else the text of each capture group of the leftmost-first match
/// (group 0 being the whole match), `None` for a group that did not take part.
pub uninterp spec fn regex_captures_of(pattern: Seq<char>, haystack: Seq<char>) -> Option<Seq<Option<Seq<char>>>>;

/// The texts of the successive non-overlapping matches that
/// `regex::Regex::captures_iter` yields in `haystack`.
pub uninterp spec fn regex_match_texts(pattern: Seq<char>, haystack: Seq<char>) -> Seq<Seq<char>>;

/// `regex::Regex::new(pattern).is_ok()`.
#[verifier::external_body]
pub(crate) fn regex_is_valid(pattern: &str) -> (b: bool)
    ensures
        b == regex_compiles(pattern@),
{
    regex::Regex::new(pattern).is_ok()
}

/// `regex::Regex::captures` with the regex compiled from `pattern`: `None`
/// when the pattern does not compile, else the groups of the first match,
/// each as its text.
#[verifier::external_body]
pub(crate) fn regex_captures(pattern: &str, haystack: &str) -> (r: Option<Option<Vec<Option<String>>>>)
    ensures
        r is Some <==> regex_compiles(pattern@),
        r matches Some(c) ==> c.deep_view() == regex_captures_of(pattern@, haystack@),
{
    match regex::Regex::new(pattern) {
        Ok(re) => Some(re.captures(haystack).map(|c| c.iter().map(|g| g.map(|m| m.as_str().to_string())).collect())),
        Err(_) => None,
    }
}

/// `regex::Regex::captures_iter` with the regex compiled from `pattern`:
/// `None` when the pattern does not compile, else the text of each match.
#[verifier::external_body]
pub(crate) fn regex_all_matches(pattern: &str, haystack: &str) -> (r: Option<Vec<String>>)
    ensures
        r is Some <==> regex_compiles(pattern@),
        r matches Some(v) ==> v.deep_view() == regex_match_texts(pattern@, haystack@),
{
    match regex::Regex::new(pattern) {
        Ok(re) => Some(re.captures_iter(haystack).map(|c| c[0].to_string()).collect()),
        Err(_) => None,
    }
}

/// The text of capture group `i`, if the group took part in the match.
pub open spec fn group(caps: Seq<Option<Seq<char>>>, i: int) -> Option<Seq<char>> {
    if 0 <= i < caps.len() {
        caps[i]
    } else {
        None
    }
}

/// The text of capture group `i`, if the group took part in the match.
pub fn group_text(caps: &Vec<Option<String>>, i: usize) -> (r: Option<String>)
    ensures
        r.deep_view() == group(caps.deep_view(), i as int),
{
    if i < caps.len() {
        match &caps[i] {
            Some(t) => Some(t.clone()),
            None => None,
        }
    } else {
        None
    }
}

} // verus!
