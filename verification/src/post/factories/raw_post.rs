//! A post as read from its file: the entries of its front matter and its content.

use crate::post::content::Content;
use crate::post::factories::raw_front_matter::RawFrontMatter;
use vstd::prelude::*;

verus! {

/// The front matter and the content of a post's file.
#[derive(Debug)]
pub struct RawPost {
    front_matter: RawFrontMatter,
    content: Content,
}

impl View for RawPost {
    type V = (Map<Seq<char>, Seq<char>>, Seq<Seq<char>>);

    closed spec fn view(&self) -> (Map<Seq<char>, Seq<char>>, Seq<Seq<char>>) {
        (self.front_matter@, self.content@)
    }
}

impl RawPost {
    /// The post with the front matter and the content.
    pub fn new(front_matter: RawFrontMatter, content: Content) -> (r: RawPost)
        ensures
            r@ == (front_matter@, content@),
    {
        RawPost { front_matter, content }
    }

    /// The front matter of the post.
    pub fn front_matter(&self) -> (r: &RawFrontMatter)
        ensures
            r@ == self@.0,
    {
        &self.front_matter
    }

    /// The content of the post.
    pub fn content(self) -> (r: Content)
        ensures
            r@ == self@.1,
    {
        self.content
    }
}

} // verus!
