//! A talk: a post about a conference talk, with its slides and, where there
//! is one, its recording.

use crate::date::Date;
use crate::post::article::option_view;
use crate::post::description::Description;
use crate::post::slug::Slug;
use crate::post::tag::{tags_view, Tag};
use crate::post::title::Title;
use crate::post::uri::Uri;
use crate::post::video_slug::VideoSlug;
use vstd::prelude::*;
use vstd::std_specs::cmp::PartialEqSpecImpl;

verus! {

/// A talk with its front matter entries.
#[derive(Debug)]
pub struct Talk {
    pub title: Title,
    pub tags: Vec<Tag>,
    pub date: Date,
    pub description: Description,
    pub slug: Slug,
    pub slides: Uri,
    pub video: Option<VideoSlug>,
}

/// A [`Talk`] with its texts taken as sequences of characters.
pub struct TalkView {
    pub title: Seq<char>,
    pub tags: Seq<Seq<char>>,
    pub date: Date,
    pub description: Seq<char>,
    pub slug: Seq<char>,
    pub slides: Seq<char>,
    pub video: Option<Seq<char>>,
}

impl View for Talk {
    type V = TalkView;

    open spec fn view(&self) -> TalkView {
        TalkView {
            title: self.title@,
            tags: tags_view(self.tags@),
            date: self.date,
            description: self.description@,
            slug: self.slug@,
            slides: self.slides@,
            video: option_view(self.video),
        }
    }
}

impl Talk {
    /// The talk with the given parts.
    pub fn new(
        title: Title,
        tags: Vec<Tag>,
        date: Date,
        description: Description,
        slug: Slug,
        slides: Uri,
        video: Option<VideoSlug>,
    ) -> (r: Talk)
        ensures
            r@ == (TalkView {
                title: title@,
                tags: tags_view(tags@),
                date,
                description: description@,
                slug: slug@,
                slides: slides@,
                video: option_view(video),
            }),
    {
        Talk { title, tags, date, description, slug, slides, video }
    }

    /// A copy of the tags of the talk.
    pub fn tags(&self) -> (r: Vec<Tag>)
        ensures
            tags_view(r@) == self@.tags,
    {
        Tag::copy_of(&self.tags)
    }
}

/// Two talks are the same talk when their slugs are equal.
impl PartialEq for Talk {
    fn eq(&self, other: &Self) -> (r: bool) {
        self.slug.value == other.slug.value
    }
}

impl PartialEqSpecImpl for Talk {
    open spec fn obeys_eq_spec() -> bool {
        true
    }

    open spec fn eq_spec(&self, other: &Self) -> bool {
        self.slug@ == other.slug@
    }
}

impl Eq for Talk {}

} // verus!
