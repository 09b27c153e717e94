//! Regular-expression matching, through the `regex` crate.

use vstd::prelude::*;

verus! {

/// What compiling `pattern` with `regex::Regex::new` and asking `is_match`
/// on `text` answers: `None` when the pattern does not compile.
pub uninterp spec fn regex_match(pattern: Seq<char>, text: Seq<char>) -> Option<bool>;

/// Whether `text` matches `pattern`, or `None` when `pattern` is not a valid
/// expression.
///
/// Trusted: compiles `pattern` with `regex::Regex::new` and calls
/// `Regex::is_match` on `text`. The contract claims only that the answer is a
/// function of the two strings, named [`regex_match`]; what the expression
/// means is left to the `regex` crate.
#[verifier::external_body]
pub(crate) fn is_match(pattern: &str, text: &str) -> (r: Option<bool>)
    ensures
        r == regex_match(pattern@, text@),
{
    match regex::Regex::new(pattern) {
        Ok(compiled) => Some(compiled.is_match(text)),
        Err(_) => None,
    }
}

/// What compiling `pattern` and asking for the captures of its first match
/// in `text` answers: for each group, in order and starting with the whole
/// match, the text it captured; `None` when the pattern does not compile or
/// does not match.
pub uninterp spec fn regex_captures(pattern: Seq<char>, text: Seq<char>) -> Option<Seq<Option<Seq<char>>>>;

/// The groups of the first match of `pattern` in `text`.
///
/// Trusted: compiles `pattern` with `regex::Regex::new`, calls
/// `Regex::captures` on `text`, and copies out each group with
/// `Captures::get` in order, group 0 first. The contract claims only that the
/// answer is a function of the two strings, named [`regex_captures`].
#[verifier::external_body]
pub(crate) fn captures(pattern: &str, text: &str) -> (r: Option<Vec<Option<String>>>)
    ensures
        r matches Some(groups) ==> regex_captures(pattern@, text@) matches Some(g) && g.len() == groups@.len()
            && (forall|i: int| 0 <= i < g.len() ==> match #[trigger] groups@[i] {
                Some(s) => g[i] == Some(s@),
                None => g[i] is None,
            }),
        r is None ==> regex_captures(pattern@, text@) is None,
{
    let compiled = match regex::Regex::new(pattern) {
        Ok(compiled) => compiled,
        Err(_) => return None,
    };
    let found = compiled.captures(text)?;
    Some((0..found.len()).map(|i| found.get(i).map(|group| group.as_str().to_owned())).collect())
}

} // verus!
