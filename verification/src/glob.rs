//! Shell patterns.

use vstd::prelude::*;
use crate::text::{finishes_with, opt_view};

verus! {

/// What is wrong with a text as a shell pattern, if anything is.
pub uninterp spec fn glob_fault(pattern: Seq<char>) -> Option<Seq<char>>;

/// Whether a well-formed shell pattern matches a whole text.
pub uninterp spec fn glob_matches(pattern: Seq<char>, text: Seq<char>) -> bool;

/// Whether a text holds a character.
pub open spec fn holds(s: Seq<char>, c: char) -> bool {
    exists|i: int| 0 <= i < s.len() && #[trigger] s[i] == c
}

/// Whether two stars stand side by side, which match whole path components.
pub open spec fn has_double_star(pattern: Seq<char>) -> bool {
    exists|i: int| 0 < i < pattern.len() && #[trigger] pattern[i] == '*' && pattern[i - 1] == '*'
}

/// Whether a pattern is read alike on all systems: a backslash separates path
/// components on some and not on others, which two stars are sensitive to.
pub open spec fn settled(pattern: Seq<char>) -> bool {
    !holds(pattern, '\\') || !has_double_star(pattern)
}

/// Whether a pattern matches a text alike on all systems: where a backslash
/// separates path components, it is the same as a slash.
pub open spec fn settled_on(pattern: Seq<char>, text: Seq<char>) -> bool {
    &&& settled(pattern)
    &&& holds(text, '\\') ==> !holds(pattern, '/') && !has_double_star(pattern)
    &&& holds(text, '/') ==> !holds(pattern, '\\')
}

/// Whether a pattern holds none of the characters with a special meaning.
pub open spec fn is_literal(pattern: Seq<char>) -> bool {
    forall|i: int|
        0 <= i < pattern.len() ==> #[trigger] pattern[i] != '?' && pattern[i] != '*' && pattern[i]
            != '['
}

/// Whether a pattern is a star and a literal end.
pub open spec fn is_star_literal(pattern: Seq<char>) -> bool {
    pattern.len() > 0 && pattern[0] == '*' && is_literal(pattern.skip(1))
}

/// `glob::Pattern::new` accepts the well-formed patterns, among them those
/// without special characters and those whose only one is a leading star, and says
/// what is wrong with another. Of the patterns that some systems read in another
/// way nothing else is said.
#[verifier::external_body]
pub(crate) fn check_glob(pattern: &str) -> (r: Option<String>)
    ensures
        settled(pattern@) ==> opt_view(r) == glob_fault(pattern@),
        is_literal(pattern@) || is_star_literal(pattern@) ==> r is None,
{
    glob::Pattern::new(pattern).err().map(|e| e.to_string())
}

/// `glob::Pattern::new` and `glob::Pattern::matches`: a pattern without special
/// characters matches itself alone, and one whose only special character is a
/// leading star matches the texts that end like it. Where some systems match in
/// another way nothing is said of the answer.
#[verifier::external_body]
pub(crate) fn match_glob(pattern: &str, text: &str) -> (r: Result<bool, String>)
    ensures
        settled(pattern@) ==> match r {
            Ok(_) => glob_fault(pattern@) is None,
            Err(e) => glob_fault(pattern@) == Some(e@),
        },
        settled_on(pattern@, text@) ==> {
            &&& r matches Ok(m) ==> m == glob_matches(pattern@, text@)
            &&& is_literal(pattern@) ==> r == Ok::<bool, String>(pattern@ == text@)
            &&& is_star_literal(pattern@) ==> r == Ok::<bool, String>(
                finishes_with(text@, pattern@.skip(1)),
            )
        },
{
    match glob::Pattern::new(pattern) {
        Ok(p) => Ok(p.matches(text)),
        Err(e) => Err(e.to_string()),
    }
}

} // verus!
