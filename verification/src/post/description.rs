//! The description of a post.

use crate::post::exception::{outcome, Exception, ExceptionView};
use crate::text::{trim, trim_seq};
use crate::utils::{unquoted, Utils};
use crate::post::text_parser_tests::QuotationTests;
use vstd::prelude::*;

verus! {

/// The description of a post, without outer quotation marks and surrounding whitespace.
#[derive(Debug, PartialEq, Eq, Hash)]
pub struct Description {
    pub text: String,
}

impl View for Description {
    type V = Seq<char>;

    open spec fn view(&self) -> Seq<char> {
        self.text@
    }
}

/// A description holds `text` unquoted and trimmed; it is refused where that is empty.
pub open spec fn description_outcome(text: Seq<char>) -> Result<Seq<char>, ExceptionView> {
    let t = trim_seq(unquoted(text));
    if t.len() == 0 {
        Err(ExceptionView::IllegalArgumentException("Description can't have an empty text."@))
    } else {
        Ok(t)
    }
}

impl Description {
    /// The description of the text, or an `IllegalArgumentException` for a blank one.
    pub fn new(text: String) -> (r: Result<Description, Exception>)
        ensures
            outcome(r) == description_outcome(text@),
    {
        let unquoted_text = match Utils::remove_outer_quotation_marks(text.as_str()) {
            Ok(t) => t,
            Err(e) => return Err(e),
        };
        let stripped = trim(unquoted_text.as_str());
        if stripped.as_str().unicode_len() == 0 {
            Err(Exception::IllegalArgumentException(String::from_str("Description can't have an empty text.")))
        } else {
            Ok(Description { text: stripped })
        }
    }
}

/// The creation of a description, as a text parser: it gives back the text the description holds.
pub struct DescriptionQuotationTests;

impl QuotationTests for DescriptionQuotationTests {
    open spec fn spec_parse(text: Seq<char>) -> Result<Seq<char>, ExceptionView> {
        description_outcome(text)
    }

    fn parse_create_extract(text: String) -> (r: Result<String, Exception>) {
        match Description::new(text) {
            Ok(description) => Ok(description.text),
            Err(e) => Err(e),
        }
    }
}

} // verus!
