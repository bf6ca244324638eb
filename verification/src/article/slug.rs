//! The slug of an article, which identifies it.

use crate::exception::{view_outcome, Exception, ExceptionView};
use crate::text::{is_blank, is_blank_seq};
use vstd::prelude::*;

verus! {

/// The slug of an article.
#[derive(Debug, PartialEq, Eq, Hash, PartialOrd, Ord)]
pub struct Slug {
    pub value: String,
}

impl View for Slug {
    type V = Seq<char>;

    open spec fn view(&self) -> Seq<char> {
        self.value@
    }
}

/// A slug keeps `value` as given; it is refused where `value` is blank.
pub open spec fn slug_outcome(value: Seq<char>) -> Result<Seq<char>, ExceptionView> {
    if is_blank_seq(value) {
        Err(ExceptionView::IllegalArgument("Slugs can't have an empty value."@))
    } else {
        Ok(value)
    }
}

impl Slug {
    /// The slug of the value, or an `IllegalArgument` error for a blank one.
    pub fn try_from(value: String) -> (r: Result<Slug, Exception>)
        ensures
            view_outcome(r) == slug_outcome(value@),
    {
        if is_blank(value.as_str()) {
            Err(Exception::IllegalArgument(String::from_str("Slugs can't have an empty value.")))
        } else {
            Ok(Slug { value })
        }
    }
}

} // verus!
