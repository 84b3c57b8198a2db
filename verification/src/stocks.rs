//! The page scraper: the pieces of a fetched page that a regular expression matches.

use vstd::prelude::*;
use crate::text::string_views;

verus! {

/// Whether `regex::Regex::new` accepts the pattern (it is valid and, compiled,
/// stays under the default size limit).
pub uninterp spec fn regex_accepts(pattern: Seq<char>) -> bool;

/// The texts of the successive non-overlapping matches that
/// `regex::Regex::find_iter` yields for the compiled pattern on `text`.
pub uninterp spec fn regex_matches(pattern: Seq<char>, text: Seq<char>) -> Seq<Seq<char>>;

/// Compiles `pattern` with `regex::Regex::new` and collects the texts of the
/// matches of `regex::Regex::find_iter` on `text` (`regex::Match::as_str` of
/// each). Claimed: the result is `Some` exactly when `Regex::new` accepts the
/// pattern, and then holds those match texts in order. Both depend on the
/// pattern and the text alone.
#[verifier::external_body]
fn find_matches(pattern: &str, text: &str) -> (res: Option<Vec<String>>)
    ensures
        res is Some == regex_accepts(pattern@),
        res matches Some(v) ==> string_views(v@) == regex_matches(pattern@, text@),
{
    match regex::Regex::new(pattern) {
        Ok(re) => Some(re.find_iter(text).map(|m| String::from(m.as_str())).collect()),
        Err(_) => None,
    }
}

/// Whether `pattern` compiles with `regex::Regex::new`. Claimed: the result is
/// `regex_accepts(pattern)`, the same fact `find_matches` reports by `Some`.
#[verifier::external_body]
fn regex_compiles(pattern: &str) -> (res: bool)
    ensures
        res == regex_accepts(pattern@),
{
    regex::Regex::new(pattern).is_ok()
}

/// The parts of a fetched page that `reg_expression` matches, in order. The
/// expression must compile: the scraper stops (panics) on one that does not.
pub fn get_html_filtered(response: &str, reg_expression: &str) -> (res: Vec<String>)
    requires
        regex_accepts(reg_expression@),
    ensures
        string_views(res@) == regex_matches(reg_expression@, response@),
{
    match find_matches(reg_expression, response) {
        Some(found) => found,
        // Cannot happen: the expression compiles.
        None => Vec::new(),
    }
}

/// The matches of `reg_expression` in the page as `get_html_filtered` gives
/// them, after testing that the expression compiles; `None` when it does not,
/// where the scraper would stop.
pub fn get_html_filtered_checked(response: &str, reg_expression: &str) -> (res: Option<Vec<String>>)
    ensures
        res is Some == regex_accepts(reg_expression@),
        res matches Some(v) ==> string_views(v@) == regex_matches(reg_expression@, response@),
{
    if regex_compiles(reg_expression) {
        Some(get_html_filtered(response, reg_expression))
    } else {
        None
    }
}

} // verus!
