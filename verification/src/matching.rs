//! Regular expressions and links, as the `regex` and `url` crates read
//! them. Nothing here is proved: each function hands its arguments to the
//! crate and its contract gives the answer a name.

use vstd::prelude::*;

verus! {

/// The capture groups of one match: the whole match at index 0, then one
/// entry for each group of the pattern, `None` for a group that took no part
/// in the match.
pub type Groups = Seq<Option<Seq<char>>>;

/// What `regex` finds first in `haystack` when it looks for `pattern`:
/// `None` where it refuses the pattern, `Some(None)` where nothing matches,
/// else the groups of the leftmost match.
pub uninterp spec fn regex_captures(pattern: Seq<char>, haystack: Seq<char>) -> Option<
    Option<Groups>,
>;

/// What `regex` finds in `haystack` when it looks for `pattern` again and
/// again: `None` where it refuses the pattern, else the groups of each of
/// the successive matches that do not overlap, from left to right.
pub uninterp spec fn regex_captures_iter(pattern: Seq<char>, haystack: Seq<char>) -> Option<
    Seq<Groups>,
>;

/// What `url` makes of `input`: `None` where it is no absolute URL, else the
/// URL written out in its normal form.
pub uninterp spec fn url_serialization(input: Seq<char>) -> Option<Seq<char>>;

/// `regex::Regex::new` on `pattern`, then `Regex::captures` on `haystack`,
/// with each group copied out as text. The answer is the one that
/// [`regex_captures`] names.
#[verifier::external_body]
pub(crate) fn captures(pattern: &str, haystack: &str) -> (found: Option<
    Option<Vec<Option<String>>>,
>)
    ensures
        found.deep_view() == regex_captures(pattern@, haystack@),
{
    let re = match regex::Regex::new(pattern) {
        Ok(re) => re,
        Err(_) => return None,
    };
    Some(
        re.captures(haystack).map(
            |caps| caps.iter().map(|group| group.map(|m| m.as_str().to_string())).collect(),
        ),
    )
}

/// `regex::Regex::new` on `pattern`, then `Regex::captures_iter` on
/// `haystack`, with each group of each match copied out as text. The answer
/// is the one that [`regex_captures_iter`] names.
#[verifier::external_body]
pub(crate) fn captures_iter(pattern: &str, haystack: &str) -> (found: Option<
    Vec<Vec<Option<String>>>,
>)
    ensures
        found.deep_view() == regex_captures_iter(pattern@, haystack@),
{
    let re = match regex::Regex::new(pattern) {
        Ok(re) => re,
        Err(_) => return None,
    };
    Some(
        re.captures_iter(haystack).map(
            |caps| caps.iter().map(|group| group.map(|m| m.as_str().to_string())).collect(),
        ).collect(),
    )
}

/// `url::Url::parse` on `input`, with the URL turned into its
/// serialization. The answer is the one that [`url_serialization`] names.
#[verifier::external_body]
pub(crate) fn parse_url(input: &str) -> (link: Option<String>)
    ensures
        link.deep_view() == url_serialization(input@),
{
    match url::Url::parse(input) {
        Ok(link) => Some(link.into()),
        Err(_) => None,
    }
}

} // verus!
