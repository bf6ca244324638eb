//! The slug of a post, which identifies it.

use crate::post::exception::{outcome, Exception, ExceptionView};
use crate::text::{is_blank, is_blank_seq};
use vstd::prelude::*;

verus! {

/// The slug of a post.
#[derive(Debug, PartialEq, Eq, Hash, PartialOrd, Ord)]
pub struct Slug {
    pub value: String,
}

impl View for Slug {
    type V = Seq<char>;

    open spec fn view(&self) -> Seq<char> {
        self.value@
    }
}

/// A slug keeps its value as given; it is refused where the value is blank.
pub open spec fn slug_outcome(text: Seq<char>) -> Result<Seq<char>, ExceptionView> {
    if is_blank_seq(text) {
        Err(ExceptionView::IllegalArgumentException("Slugs can't have an empty value."@))
    } else {
        Ok(text)
    }
}

/// A slug that is not blank is kept exactly as given, letter case
/// included; a blank one is refused.
pub proof fn law_slug_kept_as_given(text: Seq<char>)
    ensures
        !is_blank_seq(text) ==> slug_outcome(text) == Ok::<Seq<char>, ExceptionView>(text),
        is_blank_seq(text) ==> slug_outcome(text) is Err,
{
}

impl Slug {
    /// The slug with the value, or an `IllegalArgumentException` for a blank one.
    pub fn new(value: String) -> (r: Result<Slug, Exception>)
        ensures
            outcome(r) == slug_outcome(value@),
    {
        if is_blank(value.as_str()) {
            Err(Exception::IllegalArgumentException(String::from_str("Slugs can't have an empty value.")))
        } else {
            Ok(Slug { value })
        }
    }
}

} // verus!
