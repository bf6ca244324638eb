//! Checks shared by the parsers of post parts that remove outer quotation
//! marks from a text.

use crate::post::exception::{outcome, Exception, ExceptionView};
use vstd::prelude::*;

verus! {

/// A parser that makes a value of a text and gives back the text it holds,
/// with the checks on quotation marks that such a parser passes.
pub trait QuotationTests {
    /// What parsing a text gives.
    spec fn spec_parse(text: Seq<char>) -> Result<Seq<char>, ExceptionView>;

    fn parse_create_extract(text: String) -> (r: Result<String, Exception>)
        ensures
            outcome(r) == Self::spec_parse(text@),
    ;

    /// A text without quotation marks comes back unchanged.
    #[allow(non_snake_case)]
    fn create_from_string_without_quotation_marks__no_change() -> (r: bool)
        ensures
            r == (Self::spec_parse("A cool blog post"@) == Ok::<Seq<char>, ExceptionView>("A cool blog post"@)),
    {
        let text = String::from_str("A cool blog post");
        let expected = String::from_str("A cool blog post");
        match Self::parse_create_extract(text) {
            Ok(actual) => actual == expected,
            Err(_) => false,
        }
    }

    /// A text in quotation marks comes back without them.
    #[allow(non_snake_case)]
    fn create_from_string_with_quotation_marks__quotation_marks_removed() -> (r: bool)
        ensures
            r == (Self::spec_parse("\"A cool blog post\""@) == Ok::<Seq<char>, ExceptionView>("A cool blog post"@)),
    {
        let text = String::from_str("\"A cool blog post\"");
        let expected = String::from_str("A cool blog post");
        match Self::parse_create_extract(text) {
            Ok(actual) => actual == expected,
            Err(_) => false,
        }
    }

    /// Only the outer quotation marks go; inner ones stay.
    #[allow(non_snake_case)]
    fn create_from_string_with_inner_quotation_marks__only_outer_quotation_marks_removed() -> (r: bool)
        ensures
            r == (Self::spec_parse("\"\"A cool blog post\" he said\""@) == Ok::<Seq<char>, ExceptionView>(
                "\"A cool blog post\" he said"@,
            )),
    {
        let text = String::from_str("\"\"A cool blog post\" he said\"");
        let expected = String::from_str("\"A cool blog post\" he said");
        match Self::parse_create_extract(text) {
            Ok(actual) => actual == expected,
            Err(_) => false,
        }
    }
}

/// Whether `T` passes the three checks on quotation marks.
pub fn test_text_parser<T: QuotationTests>() -> (r: bool)
    ensures
        r == (T::spec_parse("A cool blog post"@) == Ok::<Seq<char>, ExceptionView>("A cool blog post"@)
            && T::spec_parse("\"A cool blog post\""@) == Ok::<Seq<char>, ExceptionView>("A cool blog post"@)
            && T::spec_parse("\"\"A cool blog post\" he said\""@) == Ok::<Seq<char>, ExceptionView>(
            "\"A cool blog post\" he said"@,
        )),
{
    let first = T::create_from_string_without_quotation_marks__no_change();
    let second = T::create_from_string_with_quotation_marks__quotation_marks_removed();
    let third = T::create_from_string_with_inner_quotation_marks__only_outer_quotation_marks_removed();
    first && second && third
}

} // verus!
