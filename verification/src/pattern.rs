//! Regular-expression replacement, done by the `regex` crate.

use vstd::prelude::*;

verus! {

/// What `regex::Regex::new(pattern)` followed by `replace_all(haystack, replacement)`
/// yields: `None` where the pattern does not compile, else the replaced text.
pub uninterp spec fn regex_replace_all_result(
    pattern: Seq<char>,
    haystack: Seq<char>,
    replacement: Seq<char>,
) -> Option<Seq<char>>;

/// `s` without one leading `open` character and one trailing `close` character,
/// each removed only where present (a lone character that is both counts once).
pub open spec fn strip_outer(s: Seq<char>, open: char, close: char) -> Seq<char> {
    let rest = if s.len() > 0 && s[0] == open {
        s.drop_first()
    } else {
        s
    };
    if rest.len() > 0 && rest.last() == close {
        rest.drop_last()
    } else {
        rest
    }
}

/// The pattern `^"|"$`: a quotation mark at the start or at the end of the text.
pub open spec fn quotes_pattern() -> Seq<char> {
    "^\"|\"$"@
}

/// The pattern `^\[|\]$`: an opening bracket at the start or a closing one at the end.
pub open spec fn brackets_pattern() -> Seq<char> {
    "^\\[|\\]$"@
}

/// The quotation mark `"`.
pub open spec fn quote_char() -> char {
    '\u{22}'
}

/// The opening square bracket `[`.
pub open spec fn open_bracket_char() -> char {
    '\u{5b}'
}

/// The closing square bracket `]`.
pub open spec fn close_bracket_char() -> char {
    '\u{5d}'
}

/// Compiles `pattern` with `regex::Regex::new` and replaces every match in
/// `haystack` with `replacement` (`Regex::replace_all`).
///
/// Trusted: the result is the named `regex_replace_all_result` of the three
/// texts. For the two anchored patterns `^"|"$` and `^\[|\]$` with an empty
/// replacement the contract also states what the regex syntax documents: the
/// pattern compiles, and a leading opening character and a trailing closing
/// character are removed (`^` and `$` match only at the ends of the text, the
/// matches do not overlap, and an empty replacement inserts nothing).
#[verifier::external_body]
pub(crate) fn regex_replace_all(pattern: &str, haystack: &str, replacement: &str) -> (r: Option<String>)
    ensures
        r is None <==> regex_replace_all_result(pattern@, haystack@, replacement@) is None,
        r matches Some(s) ==> regex_replace_all_result(pattern@, haystack@, replacement@) == Some(s@),
        pattern@ == quotes_pattern() && replacement@.len() == 0 ==> r is Some,
        r matches Some(s) ==> (pattern@ == quotes_pattern() && replacement@.len() == 0 ==> s@
            == strip_outer(haystack@, quote_char(), quote_char())),
        pattern@ == brackets_pattern() && replacement@.len() == 0 ==> r is Some,
        r matches Some(s) ==> (pattern@ == brackets_pattern() && replacement@.len() == 0 ==> s@
            == strip_outer(haystack@, open_bracket_char(), close_bracket_char())),
{
    match regex::Regex::new(pattern) {
        Ok(re) => Some(re.replace_all(haystack, replacement).into_owned()),
        Err(_) => None,
    }
}

} // verus!
