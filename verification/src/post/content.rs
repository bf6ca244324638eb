//! The content of a post: the lines of its file after the front matter.

use crate::text::strings_view;
use vstd::prelude::*;

verus! {

/// The lines of a post's body.
#[derive(Debug)]
pub struct Content {
    lines: Vec<String>,
}

impl View for Content {
    type V = Seq<Seq<char>>;

    closed spec fn view(&self) -> Seq<Seq<char>> {
        strings_view(self.lines@)
    }
}

impl Content {
    /// The content made of `lines`.
    pub fn new(lines: Vec<String>) -> (r: Content)
        ensures
            r@ == strings_view(lines@),
    {
        Content { lines }
    }

    /// The lines of the content.
    pub fn get(self) -> (r: Vec<String>)
        ensures
            strings_view(r@) == self@,
    {
        self.lines
    }
}

} // verus!
