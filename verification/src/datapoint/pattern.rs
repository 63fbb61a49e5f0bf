//! Regular expressions, which the `regex` crate matches, and the lower case
//! of a text, which std computes. Nothing here is proved: the contracts say
//! what the rest of the library takes from the two on trust.

use vstd::prelude::*;

verus! {

/// The capture groups of the leftmost match of a regular expression in a
/// text: group 0 is the whole match, the others follow in the order of their
/// opening brackets, and a group that took no part in the match is `None`.
/// The whole is `None` where the expression matches nowhere in the text, and
/// where the pattern is no regular expression that the crate accepts.
pub uninterp spec fn regex_captures(pattern: Seq<char>, text: Seq<char>) -> Option<
    Seq<Option<Seq<char>>>,
>;

/// What the groups of a match hold, as texts.
pub open spec fn captured_groups(groups: Option<Vec<Option<String>>>) -> Option<
    Seq<Option<Seq<char>>>,
> {
    match groups {
        None => None,
        Some(v) => Some(
            Seq::new(
                v@.len(),
                |i: int|
                    match v@[i] {
                        None => None,
                        Some(s) => Some(s@),
                    },
            ),
        ),
    }
}

/// Compiles the pattern with `regex::Regex::new`, searches the text with
/// `Regex::captures` and copies the text of each group of the match. The
/// contract names what the crate answers: the same pattern and text always
/// have the same groups. What the groups are is not stated here.
#[verifier::external_body]
pub(crate) fn captures(pattern: &str, text: &str) -> (r: Option<Vec<Option<String>>>)
    ensures
        captured_groups(r) == regex_captures(pattern@, text@),
{
    let regex = regex::Regex::new(pattern).ok()?;
    let found = regex.captures(text);
    found.map(|groups| groups.iter().map(|group| group.map(|m| m.as_str().to_string())).collect())
}

/// The ASCII lower case of a character: the letters `A` to `Z` become `a` to
/// `z`, every other character stays.
pub open spec fn lower_char(c: char) -> char {
    if 'A' <= c <= 'Z' {
        ((c as u8) + 32) as char
    } else {
        c
    }
}

/// The ASCII lower case of a text, character by character.
pub open spec fn lower_text(text: Seq<char>) -> Seq<char> {
    Seq::new(text.len(), |i: int| lower_char(text[i]))
}

/// `str::to_ascii_lowercase` maps the ASCII letters `A` to `Z` to `a` to `z`
/// and leaves every other character as it is.
pub assume_specification[ str::to_ascii_lowercase ](s: &str) -> (r: String)
    ensures
        r@ == lower_text(s@),
;

} // verus!
