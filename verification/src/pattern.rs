//! Regular-expression captures, as the `regex` crate finds them.

use vstd::prelude::*;
use crate::text::text_of;

verus! {

/// Whether the `regex` crate compiles `pattern`.
pub uninterp spec fn compiles(pattern: Seq<char>) -> bool;

/// What the `regex` crate captures for `pattern` in `text`. The outer option
/// is `None` where `pattern` does not compile. Otherwise the inner option is
/// the text that capture group `group` takes in the leftmost match, or
/// `None` where nothing matches, the pattern has no such group, or the group
/// takes no part in the match.
pub uninterp spec fn group_of(pattern: Seq<char>, group: int, text: Seq<char>) -> Option<
    Option<Seq<char>>,
>;

/// Tells whether `regex::Regex::new` accepts `pattern`. Nothing is claimed
/// of which patterns it accepts beyond its being fixed by the pattern,
/// which [`compiles`] names.
#[verifier::external_body]
fn compile(pattern: &str) -> (out: bool)
    ensures
        out == compiles(pattern@),
{
    regex::Regex::new(pattern).is_ok()
}

/// Compiles `pattern` with `regex::Regex::new`, searches `text` with
/// `Regex::captures` and reads the group with `Captures::get`. Nothing is
/// claimed of what is captured beyond its being fixed by the pattern, the
/// group and the text, which [`group_of`] names.
#[verifier::external_body]
fn capture(pattern: &str, group: usize, text: &str) -> (out: Option<Option<String>>)
    ensures
        out.deep_view() == group_of(pattern@, group as int, text@),
{
    let compiled = regex::Regex::new(pattern).ok()?;
    Some(compiled.captures(text).and_then(|found| found.get(group)).map(|part| part.as_str().to_string()))
}

/// What `pattern` captures in `text` as its group `group`. A pattern that
/// does not compile captures nothing.
pub open spec fn captured(pattern: Seq<char>, group: int, text: Seq<char>) -> Option<Seq<char>> {
    match group_of(pattern, group, text) {
        Some(part) => part,
        None => None,
    }
}

/// Whether `pattern` compiles.
pub fn pattern_compiles(pattern: &str) -> (out: bool)
    ensures
        out == compiles(pattern@),
{
    compile(pattern)
}

/// Captures group `group` of `pattern` in `text`.
pub fn capture_group(pattern: &str, group: usize, text: &str) -> (out: Option<String>)
    ensures
        text_of(out) == captured(pattern@, group as int, text@),
{
    match capture(pattern, group, text) {
        Some(part) => part,
        None => None,
    }
}

} // verus!
