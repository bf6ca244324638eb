//! The description of an article.

use crate::exception::{view_outcome, Exception, ExceptionView};
use crate::text::{trim, trim_seq};
use crate::utils::{remove_outer_quotation_marks, unquoted};
use crate::text_parser_tests::TextParser;
use vstd::prelude::*;

verus! {

/// The description of an article, without outer quotation marks and
/// surrounding whitespace.
#[derive(Debug, PartialEq, Eq, Hash)]
pub struct Description {
    pub text: String,
}

impl View for Description {
    type V = Seq<char>;

    open spec fn view(&self) -> Seq<char> {
        self.text@
    }
}

/// A description holds `text` unquoted and trimmed; it is refused where that is empty.
pub open spec fn description_outcome(text: Seq<char>) -> Result<Seq<char>, ExceptionView> {
    let unquoted_text = trim_seq(unquoted(text));
    if unquoted_text.len() == 0 {
        Err(ExceptionView::IllegalArgument("Description can't have an empty text."@))
    } else {
        Ok(unquoted_text)
    }
}

impl Description {
    /// The description of the text, or an `IllegalArgument` error for a blank one.
    pub fn try_from(text: String) -> (r: Result<Description, Exception>)
        ensures
            view_outcome(r) == description_outcome(text@),
    {
        let unquoted_text = trim(remove_outer_quotation_marks(text.as_str()).as_str());
        if unquoted_text.as_str().unicode_len() == 0 {
            Err(
                Exception::IllegalArgument(
                    String::from_str("Description can't have an empty text."),
                ),
            )
        } else {
            Ok(Description { text: unquoted_text })
        }
    }
}

/// The creation of a description, as a text parser: it gives back the text the description holds.
pub struct QuotationParser;

impl TextParser for QuotationParser {
    open spec fn spec_parse(text: Seq<char>) -> Result<Seq<char>, ExceptionView> {
        description_outcome(text)
    }

    fn parse_create_extract(text: String) -> (r: Result<String, Exception>) {
        match Description::try_from(text) {
            Ok(description) => Ok(description.text),
            Err(e) => Err(e),
        }
    }
}

} // verus!
