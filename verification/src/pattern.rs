//! Searches with regular expressions, which the `regex` crate carries out.
//!
//! What a pattern matches in a text is not written out here. It is given a
//! name, and the contracts of the parser are stated over the names.

use crate::text::opt_view;
use regex::Regex;
use vstd::prelude::*;

verus! {

/// What `regex::Regex::find` returns for the pattern on the text: the part
/// of the text that the leftmost match covers. `None` where nothing matches,
/// and where `regex::Regex::new` rejects the pattern.
pub uninterp spec fn regex_find(pattern: Seq<char>, text: Seq<char>) -> Option<Seq<char>>;

/// What the named group holds in the match that `regex::Regex::captures`
/// returns for the pattern on the text. `None` where nothing matches, where
/// the group took no part in the match or does not exist, and where
/// `regex::Regex::new` rejects the pattern.
pub uninterp spec fn regex_capture(pattern: Seq<char>, group: Seq<char>, text: Seq<char>)
    -> Option<Seq<char>>;

/// Compiles the pattern with `regex::Regex::new` and searches the text with
/// `regex::Regex::find`. The contract names the result: the same pattern on
/// the same text always gives the same match.
#[verifier::external_body]
pub(crate) fn find(pattern: &str, text: &str) -> (r: Option<String>)
    ensures
        opt_view(r) == regex_find(pattern@, text@),
{
    match Regex::new(pattern) {
        Ok(re) => match re.find(text) {
            Some(m) => Some(m.as_str().to_string()),
            None => None,
        },
        Err(_) => None,
    }
}

/// Compiles the pattern with `regex::Regex::new`, searches the text with
/// `regex::Regex::captures` and reads the named group with
/// `regex::Captures::name`. The contract names the result: the same pattern
/// and group on the same text always give the same capture.
#[verifier::external_body]
pub(crate) fn capture(pattern: &str, group: &str, text: &str) -> (r: Option<String>)
    ensures
        opt_view(r) == regex_capture(pattern@, group@, text@),
{
    match Regex::new(pattern) {
        Ok(re) => match re.captures(text) {
            Some(caps) => match caps.name(group) {
                Some(m) => Some(m.as_str().to_string()),
                None => None,
            },
            None => None,
        },
        Err(_) => None,
    }
}

} // verus!
