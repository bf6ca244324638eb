//! The title of a post.

use crate::post::exception::{outcome, Exception, ExceptionView};
use crate::text::{is_blank, is_blank_seq};
use crate::utils::{unquoted, Utils};
use crate::post::text_parser_tests::QuotationTests;
use vstd::prelude::*;

verus! {

/// The title of a post, without outer quotation marks.
#[derive(Debug, PartialEq, Eq, Hash)]
pub struct Title {
    pub text: String,
}

impl View for Title {
    type V = Seq<char>;

    open spec fn view(&self) -> Seq<char> {
        self.text@
    }
}

/// A title holds `text` without outer quotation marks; it is refused where that is blank.
pub open spec fn title_outcome(text: Seq<char>) -> Result<Seq<char>, ExceptionView> {
    if is_blank_seq(unquoted(text)) {
        Err(ExceptionView::IllegalArgumentException("Titles can't have an empty text."@))
    } else {
        Ok(unquoted(text))
    }
}

impl Title {
    /// The title of the text, or an `IllegalArgumentException` for a blank one.
    pub fn new(text: &str) -> (r: Result<Title, Exception>)
        ensures
            outcome(r) == title_outcome(text@),
    {
        let unquoted_text = match Utils::remove_outer_quotation_marks(text) {
            Ok(t) => t,
            Err(e) => return Err(e),
        };
        if is_blank(unquoted_text.as_str()) {
            Err(Exception::IllegalArgumentException(String::from_str("Titles can't have an empty text.")))
        } else {
            Ok(Title { text: unquoted_text })
        }
    }
}

/// The creation of a title, as a text parser: it gives back the text the title holds.
pub struct TitleQuotationTests;

impl QuotationTests for TitleQuotationTests {
    open spec fn spec_parse(text: Seq<char>) -> Result<Seq<char>, ExceptionView> {
        title_outcome(text)
    }

    fn parse_create_extract(text: String) -> (r: Result<String, Exception>) {
        match Title::new(text.as_str()) {
            Ok(title) => Ok(title.text),
            Err(e) => Err(e),
        }
    }
}

} // verus!
