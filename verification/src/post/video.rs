//! A video: a post about a video on the video platform.

use crate::date::Date;
use crate::post::article::option_view;
use crate::post::description::Description;
use crate::post::repository::Repository;
use crate::post::slug::Slug;
use crate::post::tag::{tags_view, Tag};
use crate::post::title::Title;
use crate::post::video_slug::VideoSlug;
use vstd::prelude::*;
use vstd::std_specs::cmp::PartialEqSpecImpl;

verus! {

/// A video with its front matter entries.
#[derive(Debug)]
pub struct Video {
    pub title: Title,
    pub tags: Vec<Tag>,
    pub date: Date,
    pub description: Description,
    pub slug: Slug,
    pub video: VideoSlug,
    pub repository: Option<Repository>,
}

/// A [`Video`] with its texts taken as sequences of characters.
pub struct VideoView {
    pub title: Seq<char>,
    pub tags: Seq<Seq<char>>,
    pub date: Date,
    pub description: Seq<char>,
    pub slug: Seq<char>,
    pub video: Seq<char>,
    pub repository: Option<Seq<char>>,
}

impl View for Video {
    type V = VideoView;

    open spec fn view(&self) -> VideoView {
        VideoView {
            title: self.title@,
            tags: tags_view(self.tags@),
            date: self.date,
            description: self.description@,
            slug: self.slug@,
            video: self.video@,
            repository: option_view(self.repository),
        }
    }
}

impl Video {
    /// The video with the given parts.
    pub fn new(
        title: Title,
        tags: Vec<Tag>,
        date: Date,
        description: Description,
        slug: Slug,
        video: VideoSlug,
        repository: Option<Repository>,
    ) -> (r: Video)
        ensures
            r@ == (VideoView {
                title: title@,
                tags: tags_view(tags@),
                date,
                description: description@,
                slug: slug@,
                video: video@,
                repository: option_view(repository),
            }),
    {
        Video { title, tags, date, description, slug, video, repository }
    }

    /// A copy of the tags of the video.
    pub fn tags(&self) -> (r: Vec<Tag>)
        ensures
            tags_view(r@) == self@.tags,
    {
        Tag::copy_of(&self.tags)
    }
}

/// Two videos are the same video when their slugs are equal.
impl PartialEq for Video {
    fn eq(&self, other: &Self) -> (r: bool) {
        self.slug.value == other.slug.value
    }
}

impl PartialEqSpecImpl for Video {
    open spec fn obeys_eq_spec() -> bool {
        true
    }

    open spec fn eq_spec(&self, other: &Self) -> bool {
        self.slug@ == other.slug@
    }
}

impl Eq for Video {}

} // verus!
