//! Regular-expression matching through the `regex` crate.
//!
//! The patterns of this project are compiled and run by `regex::Regex`; what the
//! crate computes is named here by uninterpreted spec functions of the pattern text
//! and the haystack, and the rest of the library is verified against those names.
use vstd::prelude::*;

verus! {

/// `regex::Regex::new(pattern)` returns `Ok`: the pattern is valid and within the
/// crate's default size limit.
pub uninterp spec fn regex_compiles(pattern: Seq<char>) -> bool;

/// `Regex::is_match`: the compiled `pattern` matches somewhere in `haystack`.
pub uninterp spec fn regex_is_match(pattern: Seq<char>, haystack: Seq<char>) -> bool;

/// `Regex::captures`: `None` when `pattern` does not match `haystack`; otherwise the
/// text of each capture group of the leftmost-first match, group 0 first, `None`
/// for a group that did not take part in the match.
pub uninterp spec fn regex_captures(pattern: Seq<char>, haystack: Seq<char>) -> Option<
    Seq<Option<Seq<char>>>,
>;

/// `Regex::replace_all` with a `&str` replacer: `haystack` with every
/// non-overlapping match of `pattern` replaced by `replacement`, in which `$name`
/// and `${name}` group references are expanded (`$$` stands for a `$`).
pub uninterp spec fn regex_replace_all(
    pattern: Seq<char>,
    haystack: Seq<char>,
    replacement: Seq<char>,
) -> Seq<char>;

/// The views of captured groups.
pub open spec fn group_views(groups: Seq<Option<String>>) -> Seq<Option<Seq<char>>> {
    groups.map_values(
        |g: Option<String>|
            match g {
                Some(s) => Some(s@),
                None => None,
            },
    )
}

/// Group `i` of a capture result, or the empty text when the group is absent.
pub open spec fn group_text(groups: Seq<Option<Seq<char>>>, i: int) -> Seq<char> {
    if 0 <= i < groups.len() && groups[i] is Some {
        groups[i]->0
    } else {
        Seq::empty()
    }
}

/// Calls `regex::Regex::new(pattern)` and tells whether it succeeded; the contract
/// claims exactly `regex_compiles`.
#[verifier::external_body]
pub(crate) fn pattern_compiles(pattern: &str) -> (r: bool)
    ensures
        r == regex_compiles(pattern@),
{
    regex::Regex::new(pattern).is_ok()
}

/// Compiles `pattern` with `regex::Regex::new` and calls `Regex::is_match` on
/// `haystack`; the contract claims the result is `regex_is_match`.
#[verifier::external_body]
pub(crate) fn pattern_matches(pattern: &str, haystack: &str) -> (r: bool)
    requires
        regex_compiles(pattern@),
    ensures
        r == regex_is_match(pattern@, haystack@),
{
    regex::Regex::new(pattern).unwrap().is_match(haystack)
}

/// Compiles `pattern` with `regex::Regex::new` and calls `Regex::captures` on
/// `haystack`, copying each group's text; the contract claims the result is
/// `regex_captures`.
#[verifier::external_body]
pub(crate) fn pattern_captures(pattern: &str, haystack: &str) -> (r: Option<Vec<Option<String>>>)
    requires
        regex_compiles(pattern@),
    ensures
        match r {
            Some(groups) => regex_captures(pattern@, haystack@) == Some(group_views(groups@)),
            None => regex_captures(pattern@, haystack@) is None,
        },
{
    let caps = regex::Regex::new(pattern).unwrap().captures(haystack)?;
    let mut groups = Vec::new();
    for m in caps.iter() {
        groups.push(
            match m {
                Some(m) => Some(m.as_str().to_string()),
                None => None,
            },
        );
    }
    Some(groups)
}

/// Compiles `pattern` with `regex::Regex::new` and calls `Regex::replace_all` on
/// `haystack` with `replacement`; the contract claims the result is
/// `regex_replace_all`.
#[verifier::external_body]
pub(crate) fn pattern_replace_all(pattern: &str, haystack: &str, replacement: &str) -> (r: String)
    requires
        regex_compiles(pattern@),
    ensures
        r@ == regex_replace_all(pattern@, haystack@, replacement@),
{
    regex::Regex::new(pattern).unwrap().replace_all(haystack, replacement).into_owned()
}

} // verus!
