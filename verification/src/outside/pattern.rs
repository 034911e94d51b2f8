//! Shell patterns: the `glob` crate.

use vstd::prelude::*;

use crate::text;

verus! {

/// Why `glob::Pattern::new` refuses the text, as its error displays it;
/// none when it accepts the text.
pub uninterp spec fn pattern_fault(pattern: Seq<char>) -> Option<Seq<char>>;

/// Whether the pattern matches the path under the three match options.
pub uninterp spec fn pattern_matches(
    pattern: Seq<char>,
    path: Seq<char>,
    case_sensitive: bool,
    literal_separator: bool,
    literal_leading_dot: bool,
) -> bool;

/// `glob::Pattern::new`: the text of its error, or nothing when the text is
/// a well-formed pattern. Both depend on the text alone.
#[verifier::external_body]
pub(crate) fn fault_of(pattern: &str) -> (r: Option<String>)
    ensures
        text::text_opt(r) == pattern_fault(pattern@),
{
    glob::Pattern::new(pattern).err().map(|e| e.to_string())
}

/// `glob::Pattern::matches_path_with`: whether the pattern matches the
/// path, a function of both texts and the options. A text that is no
/// well-formed pattern matches nothing.
#[verifier::external_body]
pub(crate) fn matches(
    pattern: &str,
    path: &str,
    case_sensitive: bool,
    literal_separator: bool,
    literal_leading_dot: bool,
) -> (r: bool)
    ensures
        r == pattern_matches(
            pattern@,
            path@,
            case_sensitive,
            literal_separator,
            literal_leading_dot,
        ),
        pattern_fault(pattern@) is Some ==> !r,
{
    let options = glob::MatchOptions {
        case_sensitive,
        require_literal_separator: literal_separator,
        require_literal_leading_dot: literal_leading_dot,
    };
    glob::Pattern::new(pattern)
        .is_ok_and(|p| p.matches_path_with(std::path::Path::new(path), options))
}

} // verus!
