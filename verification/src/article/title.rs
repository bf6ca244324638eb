//! The title of an article.

use crate::exception::{view_outcome, Exception, ExceptionView};
use crate::text::{is_blank, is_blank_seq};
use crate::utils::{remove_outer_quotation_marks, unquoted};
use crate::text_parser_tests::TextParser;
use vstd::prelude::*;

verus! {

/// The title of an article, without outer quotation marks.
#[derive(Debug, PartialEq, Eq, Hash)]
pub struct Title {
    pub text: String,
}

impl View for Title {
    type V = Seq<char>;

    open spec fn view(&self) -> Seq<char> {
        self.text@
    }
}

/// A title holds `text` without outer quotation marks; it is refused where
/// that is blank.
pub open spec fn title_outcome(text: Seq<char>) -> Result<Seq<char>, ExceptionView> {
    if is_blank_seq(unquoted(text)) {
        Err(ExceptionView::IllegalArgument("Titles can't have an empty text."@))
    } else {
        Ok(unquoted(text))
    }
}

impl Title {
    /// The title of the text, or an `IllegalArgument` error for a blank one.
    pub fn try_from(text: String) -> (r: Result<Title, Exception>)
        ensures
            view_outcome(r) == title_outcome(text@),
    {
        let unquoted_text = remove_outer_quotation_marks(text.as_str());
        if is_blank(unquoted_text.as_str()) {
            Err(Exception::IllegalArgument(String::from_str("Titles can't have an empty text.")))
        } else {
            Ok(Title { text: unquoted_text })
        }
    }
}

/// The creation of a title, as a text parser: it gives back the text the title holds.
pub struct QuotationParser;

impl TextParser for QuotationParser {
    open spec fn spec_parse(text: Seq<char>) -> Result<Seq<char>, ExceptionView> {
        title_outcome(text)
    }

    fn parse_create_extract(text: String) -> (r: Result<String, Exception>) {
        match Title::try_from(text) {
            Ok(title) => Ok(title.text),
            Err(e) => Err(e),
        }
    }
}

} // verus!
