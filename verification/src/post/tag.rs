//! Tags of a post and the parsing of a tag list such as `[a, b]`.

use crate::article::tag::{tag_list, tag_texts};
use crate::post::exception::Exception;
use crate::text::strings_view;
use vstd::prelude::*;

verus! {

/// A tag of a post.
#[derive(Debug, PartialEq, Eq, Hash, PartialOrd, Ord)]
pub struct Tag {
    pub text: String,
}

impl View for Tag {
    type V = Seq<char>;

    open spec fn view(&self) -> Seq<char> {
        self.text@
    }
}

/// The texts of a list of tags.
pub open spec fn tags_view(tags: Seq<Tag>) -> Seq<Seq<char>> {
    tags.map_values(|t: Tag| t@)
}

impl Tag {
    /// The tag with the text.
    pub fn new(text: String) -> (r: Tag)
        ensures
            r@ == text@,
    {
        Tag { text }
    }

    /// The set of tags that a tag list such as `[a, b]` names, each once.
    pub fn from(tags_text: &str) -> (r: Result<Vec<Tag>, Exception>)
        ensures
            r matches Ok(tags) && tags_view(tags@) == tag_texts(tags_text@),
    {
        let mut texts = tag_list(tags_text);
        let ghost all = strings_view(texts@);
        let mut tags: Vec<Tag> = Vec::new();
        while texts.len() > 0
            invariant
                all == tags_view(tags@) + strings_view(texts@),
            decreases texts.len(),
        {
            let text = texts.remove(0);
            let ghost before = tags@;
            tags.push(Tag::new(text));
            assert(tags_view(tags@) =~= tags_view(before).push(text@));
            assert(all =~= tags_view(tags@) + strings_view(texts@));
        }
        assert(tags_view(tags@) =~= all);
        Ok(tags)
    }

    /// A copy of the tags.
    pub fn copy_of(tags: &Vec<Tag>) -> (r: Vec<Tag>)
        ensures
            tags_view(r@) == tags_view(tags@),
    {
        let mut out: Vec<Tag> = Vec::new();
        let mut i: usize = 0;
        while i < tags.len()
            invariant
                i <= tags.len(),
                tags_view(out@) == tags_view(tags@).take(i as int),
            decreases tags.len() - i,
        {
            let ghost before = out@;
            out.push(Tag { text: tags[i].text.clone() });
            assert(tags_view(out@) =~= tags_view(before).push(tags@[i as int]@));
            assert(tags_view(tags@).take(i + 1) =~= tags_view(tags@).take(i as int).push(tags@[i as int]@));
            i = i + 1;
        }
        assert(tags_view(tags@).take(tags.len() as int) =~= tags_view(tags@));
        out
    }
}

} // verus!
