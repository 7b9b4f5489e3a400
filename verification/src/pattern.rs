//! Search expressions, compiled and run by the `regex` crate.
//!
//! Nothing in this module is proved. What an expression matches is not
//! written out here: it is given a name, and the contracts of the rest of
//! the library speak of that name.

use regex::Error as SyntaxError;
use regex::Regex;
use vstd::prelude::*;

verus! {

/// `regex::Regex`, a compiled expression. Nothing inside it is visible to
/// the proofs.
#[verifier::external_type_specification]
#[verifier::external_body]
pub struct ExRegex(Regex);

/// `regex::Error`, what `Regex::new` hands out for an expression that it
/// refuses. Nothing inside it is visible to the proofs.
#[verifier::external_type_specification]
#[verifier::external_body]
pub struct ExSyntaxError(SyntaxError);

/// Whether `Regex::new` accepts the text as an expression.
pub uninterp spec fn accepts(expression: Seq<char>) -> bool;

/// The text that a compiled expression was compiled from, as
/// `Regex::as_str` gives it back.
pub uninterp spec fn expression_of(re: Regex) -> Seq<char>;

/// Whether the expression matches somewhere in the text, as
/// `Regex::is_match` decides it.
pub uninterp spec fn has_match(expression: Seq<char>, text: Seq<char>) -> bool;

/// What the first group of the expression holds in the leftmost match in
/// the text, as `Regex::captures` followed by `Captures::get(1)` finds it;
/// `None` where the expression has no match or the group took no part in it.
pub uninterp spec fn first_group(expression: Seq<char>, text: Seq<char>) -> Option<Seq<char>>;

/// Calls `Regex::new`. Claimed: the call succeeds exactly on the texts that
/// [`accepts`] names, and the compiled expression remembers its text.
#[verifier::external_body]
pub(crate) fn compile(expression: &str) -> (r: Result<Regex, SyntaxError>)
    ensures
        r is Ok <==> accepts(expression@),
        r matches Ok(re) ==> expression_of(re) == expression@,
{
    Regex::new(expression)
}

/// Calls `Regex::is_match`. Claimed: the answer depends on the expression's
/// text and the searched text alone.
#[verifier::external_body]
pub(crate) fn is_match(re: &Regex, text: &str) -> (b: bool)
    ensures
        b == has_match(expression_of(*re), text@),
{
    re.is_match(text)
}

/// Calls `Regex::captures` and hands out the text of group 1. Claimed: the
/// answer depends on the expression's text and the searched text alone.
#[verifier::external_body]
pub(crate) fn capture(re: &Regex, text: &str) -> (r: Option<String>)
    ensures
        r.deep_view() == first_group(expression_of(*re), text@),
{
    re.captures(text).and_then(|c| c.get(1)).map(|m| m.as_str().to_string())
}

} // verus!
