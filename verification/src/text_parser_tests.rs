//! Checks shared by the parsers that remove outer quotation marks from a text.

use crate::exception::{view_outcome, Exception, ExceptionView};
use vstd::prelude::*;

verus! {

/// A parser that makes a value of a text and gives back the text it holds.
pub trait TextParser {
    /// What parsing a text gives.
    spec fn spec_parse(text: Seq<char>) -> Result<Seq<char>, ExceptionView>;

    fn parse_create_extract(text: String) -> (r: Result<String, Exception>)
        ensures
            view_outcome(r) == Self::spec_parse(text@),
    ;
}

/// Parsing `text` with `P` succeeds and gives `expected`.
pub open spec fn parses_to<P: TextParser>(text: Seq<char>, expected: Seq<char>) -> bool {
    P::spec_parse(text) == Ok::<Seq<char>, ExceptionView>(expected)
}

/// A text without quotation marks comes back unchanged.
#[allow(non_snake_case)]
pub fn create_from_string_without_quotation_marks__no_change<P: TextParser>() -> (r: bool)
    ensures
        r == parses_to::<P>("A cool blog post"@, "A cool blog post"@),
{
    let text = String::from_str("A cool blog post");
    let expected = String::from_str("A cool blog post");
    match P::parse_create_extract(text) {
        Ok(actual) => actual == expected,
        Err(_) => false,
    }
}

/// A text in quotation marks comes back without them.
#[allow(non_snake_case)]
pub fn create_from_string_with_quotation_marks__quotation_marks_removed<P: TextParser>() -> (r: bool)
    ensures
        r == parses_to::<P>("\"A cool blog post\""@, "A cool blog post"@),
{
    let text = String::from_str("\"A cool blog post\"");
    let expected = String::from_str("A cool blog post");
    match P::parse_create_extract(text) {
        Ok(actual) => actual == expected,
        Err(_) => false,
    }
}

/// A text in two pairs of quotation marks comes back in one.
#[allow(non_snake_case)]
pub fn create_from_string_with_inner_quotation_marks__only_outer_quotation_marks_removed<P: TextParser>() -> (r: bool)
    ensures
        r == parses_to::<P>("\"\"A cool blog post\"\""@, "\"A cool blog post\""@),
{
    let text = String::from_str("\"\"A cool blog post\"\"");
    let expected = String::from_str("\"A cool blog post\"");
    match P::parse_create_extract(text) {
        Ok(actual) => actual == expected,
        Err(_) => false,
    }
}

/// Whether `P` passes the three checks on quotation marks.
pub fn test_text_parser<P: TextParser>() -> (r: bool)
    ensures
        r == (parses_to::<P>("A cool blog post"@, "A cool blog post"@) && parses_to::<P>(
            "\"A cool blog post\""@,
            "A cool blog post"@,
        ) && parses_to::<P>("\"\"A cool blog post\"\""@, "\"A cool blog post\""@)),
{
    let first = create_from_string_without_quotation_marks__no_change::<P>();
    let second = create_from_string_with_quotation_marks__quotation_marks_removed::<P>();
    let third = create_from_string_with_inner_quotation_marks__only_outer_quotation_marks_removed::<P>();
    first && second && third
}

} // verus!
