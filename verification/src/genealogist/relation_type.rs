//! The kind of relation a genealogist infers.

use crate::exception::{view_outcome, Exception, ExceptionView};
use crate::text::{is_blank, is_blank_seq};
use vstd::prelude::*;

verus! {

/// The kind of relation a genealogist infers. It is a text, not a closed set
/// of kinds, because genealogists can be added by their users.
#[derive(Debug, PartialEq, Eq, Hash)]
pub struct RelationType {
    pub value: String,
}

impl View for RelationType {
    type V = Seq<char>;

    open spec fn view(&self) -> Seq<char> {
        self.value@
    }
}

/// A relation type keeps its value as given; it is refused where the value is blank.
pub open spec fn relation_type_outcome(value: Seq<char>) -> Result<Seq<char>, ExceptionView> {
    if is_blank_seq(value) {
        Err(ExceptionView::IllegalArgument("Relation types can't have an empty value."@))
    } else {
        Ok(value)
    }
}

impl RelationType {
    /// The relation type with the value, or an `IllegalArgument` error for a blank one.
    pub fn try_from(value: String) -> (r: Result<RelationType, Exception>)
        ensures
            view_outcome(r) == relation_type_outcome(value@),
    {
        if is_blank(value.as_str()) {
            Err(Exception::IllegalArgument(String::from_str("Relation types can't have an empty value.")))
        } else {
            Ok(RelationType { value })
        }
    }
}

} // verus!
