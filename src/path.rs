//! File paths written with `/` separators.
use vstd::prelude::*;

verus! {

/// `s` with each `:\` and each other `\` written as `/`, scanning from the left.
pub open spec fn posix_path(s: Seq<char>) -> Seq<char>
    decreases s.len(),
{
    if s.len() == 0 {
        s
    } else if s.len() >= 2 && s[0] == ':' && s[1] == '\\' {
        seq!['/'] + posix_path(s.skip(2))
    } else if s[0] == '\\' {
        seq!['/'] + posix_path(s.skip(1))
    } else {
        seq![s[0]] + posix_path(s.skip(1))
    }
}

/// Relies on regex::Regex::new and Regex::replace_all: the pattern `:\\|\\`
/// is valid, and `replace_all` puts the literal replacement `/` in place of
/// each of its leftmost-first, non-overlapping matches.
#[verifier::external_body]
fn replace_separators(path: &str) -> (r: String)
    ensures
        r@ == posix_path(path@),
{
    regex::Regex::new(r":\\|\\").unwrap().replace_all(path, "/").into_owned()
}

/// A Windows path (`C:\a\b`) written with `/` separators (`C/a/b`).
pub fn convert_path_to_posix(path: &str) -> (r: String)
    ensures
        r@ == posix_path(path@),
{
    replace_separators(path)
}

} // verus!
