//! The repository that belongs to a post.

use crate::post::exception::{outcome, Exception, ExceptionView};
use crate::text::{is_blank, is_blank_seq};
use vstd::prelude::*;

verus! {

/// The identifier of a repository.
#[derive(Debug, PartialEq, Eq, Hash)]
pub struct Repository {
    pub identifier: String,
}

impl View for Repository {
    type V = Seq<char>;

    open spec fn view(&self) -> Seq<char> {
        self.identifier@
    }
}

/// A repository keeps its identifier as given; it is refused where the identifier is blank.
pub open spec fn repository_outcome(text: Seq<char>) -> Result<Seq<char>, ExceptionView> {
    if is_blank_seq(text) {
        Err(ExceptionView::IllegalArgumentException("Repositories can't have an empty identifier."@))
    } else {
        Ok(text)
    }
}

/// A repository identifier that is not blank is kept exactly as given, letter case
/// included; a blank one is refused.
pub proof fn law_repository_kept_as_given(text: Seq<char>)
    ensures
        !is_blank_seq(text) ==> repository_outcome(text) == Ok::<Seq<char>, ExceptionView>(text),
        is_blank_seq(text) ==> repository_outcome(text) is Err,
{
}

impl Repository {
    /// The repository with the identifier, or an `IllegalArgumentException` for a blank one.
    pub fn new(identifier: String) -> (r: Result<Repository, Exception>)
        ensures
            outcome(r) == repository_outcome(identifier@),
    {
        if is_blank(identifier.as_str()) {
            Err(Exception::IllegalArgumentException(String::from_str("Repositories can't have an empty identifier.")))
        } else {
            Ok(Repository { identifier })
        }
    }
}

} // verus!
