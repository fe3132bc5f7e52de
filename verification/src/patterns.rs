//! Glob and regular-expression matching, as the `glob` and `regex` crates do it.
use vstd::prelude::*;

verus! {

/// Whether `glob::Pattern::new` accepts `pattern`.
pub uninterp spec fn glob_valid(pattern: Seq<char>) -> bool;

/// Whether the compiled glob `pattern` matches `path` (`glob::Pattern::matches`,
/// default options).
pub uninterp spec fn glob_matches(pattern: Seq<char>, path: Seq<char>) -> bool;

/// Whether `regex::Regex::new` accepts `pattern`.
pub uninterp spec fn regex_valid(pattern: Seq<char>) -> bool;

/// Whether the compiled regular expression `pattern` matches somewhere in `text`
/// (`regex::Regex::is_match`).
pub uninterp spec fn regex_matches(pattern: Seq<char>, text: Seq<char>) -> bool;

/// `text` with every non-overlapping match of the compiled regular expression
/// `pattern` replaced by `replacement` (`regex::Regex::replace_all`).
pub uninterp spec fn regex_replaced(pattern: Seq<char>, text: Seq<char>, replacement: Seq<char>) -> Seq<
    char,
>;

/// `glob::Pattern::new`: whether `pattern` compiles. The contract names the answer.
#[verifier::external_body]
pub(crate) fn glob_compiles(pattern: &str) -> (ok: bool)
    ensures
        ok == glob_valid(pattern@),
{
    glob::Pattern::new(pattern).is_ok()
}

/// `glob::Pattern::matches` on the pattern compiled from `pattern`. The contract
/// names the answer.
#[verifier::external_body]
pub(crate) fn glob_match(pattern: &str, path: &str) -> (m: bool)
    requires
        glob_valid(pattern@),
    ensures
        m == glob_matches(pattern@, path@),
{
    match glob::Pattern::new(pattern) {
        Ok(p) => p.matches(path),
        Err(_) => false,
    }
}

/// `regex::Regex::new`: whether `pattern` compiles. The contract names the answer.
#[verifier::external_body]
pub(crate) fn regex_compiles(pattern: &str) -> (ok: bool)
    ensures
        ok == regex_valid(pattern@),
{
    regex::Regex::new(pattern).is_ok()
}

/// `regex::Regex::is_match` on the expression compiled from `pattern`. The contract
/// names the answer.
#[verifier::external_body]
pub(crate) fn regex_is_match(pattern: &str, text: &str) -> (m: bool)
    requires
        regex_valid(pattern@),
    ensures
        m == regex_matches(pattern@, text@),
{
    match regex::Regex::new(pattern) {
        Ok(r) => r.is_match(text),
        Err(_) => false,
    }
}

/// `regex::Regex::replace_all` on the expression compiled from `pattern`, with a
/// literal replacement. The contract names the result.
#[verifier::external_body]
pub(crate) fn regex_replace_all(pattern: &str, text: &str, replacement: &str) -> (r: String)
    requires
        regex_valid(pattern@),
    ensures
        r@ == regex_replaced(pattern@, text@, replacement@),
{
    match regex::Regex::new(pattern) {
        Ok(re) => re.replace_all(text, regex::NoExpand(replacement)).into_owned(),
        Err(_) => text.to_owned(),
    }
}

} // verus!
