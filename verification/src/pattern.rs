use vstd::prelude::*;
use regex::Regex;

verus! {

/// Whether the regular expression `pattern` has a match somewhere in `text`;
/// `None` where `pattern` is not a regular expression that can be compiled.
pub uninterp spec fn regex_is_match(pattern: Seq<char>, text: Seq<char>) -> Option<bool>;

/// The successive non-overlapping matches of the regular expression `pattern`
/// in `text`, from left to right; `None` where `pattern` cannot be compiled.
pub uninterp spec fn regex_find_all(pattern: Seq<char>, text: Seq<char>) -> Option<Seq<Seq<char>>>;

/// The texts that a list of strings holds.
pub open spec fn texts_of(v: Seq<String>) -> Seq<Seq<char>> {
    Seq::new(v.len(), |i: int| v[i]@)
}

/// Compiles `pattern` with `regex::Regex::new` and asks `Regex::is_match`
/// whether it matches anywhere in `text`. Nothing is claimed of the answer
/// but that it is the one the regular expression engine gives for these two
/// texts; a pattern that does not compile gives `None`.
#[verifier::external_body]
pub(crate) fn pattern_is_match(pattern: &str, text: &str) -> (r: Option<bool>)
    ensures
        r == regex_is_match(pattern@, text@),
{
    match Regex::new(pattern) {
        Ok(re) => Some(re.is_match(text)),
        Err(_) => None,
    }
}

/// Compiles `pattern` with `regex::Regex::new` and collects what
/// `Regex::find_iter` yields on `text`: the matched substrings, in order.
/// Nothing is claimed of them but that they are what the regular expression
/// engine finds for these two texts; a pattern that does not compile gives
/// `None`.
#[verifier::external_body]
pub(crate) fn pattern_find_all(pattern: &str, text: &str) -> (r: Option<Vec<String>>)
    ensures
        match r {
            Some(v) => regex_find_all(pattern@, text@) == Some(texts_of(v@)),
            None => regex_find_all(pattern@, text@) is None,
        },
{
    match Regex::new(pattern) {
        Ok(re) => Some(re.find_iter(text).map(|m| m.as_str().to_string()).collect()),
        Err(_) => None,
    }
}

} // verus!
