//! Articles read from markdown files with a front matter.

pub mod article_factory;
pub mod content;
pub mod description;
pub mod slug;
pub mod tag;
pub mod title;

use crate::article::content::Content;
use crate::article::description::Description;
use crate::article::slug::Slug;
use crate::article::tag::{tags_view, Tag};
use crate::article::title::Title;
use crate::date::Date;
use crate::exception::ExceptionView;
use vstd::prelude::*;
use vstd::std_specs::cmp::PartialEqSpecImpl;

verus! {

/// An article: its front matter entries and its content.
#[derive(Debug)]
pub struct Article {
    pub title: Title,
    pub tags: Vec<Tag>,
    pub date: Date,
    pub description: Description,
    pub slug: Slug,
    pub content: Content,
}

/// An [`Article`] with its texts taken as sequences of characters.
pub struct ArticleView {
    pub title: Seq<char>,
    pub tags: Seq<Seq<char>>,
    pub date: Date,
    pub description: Seq<char>,
    pub slug: Seq<char>,
    pub content: Seq<Result<Seq<char>, ExceptionView>>,
}

impl View for Article {
    type V = ArticleView;

    open spec fn view(&self) -> ArticleView {
        ArticleView {
            title: self.title@,
            tags: tags_view(self.tags@),
            date: self.date,
            description: self.description@,
            slug: self.slug@,
            content: self.content@,
        }
    }
}

/// Two articles are the same article when their slugs are equal.
impl PartialEq for Article {
    fn eq(&self, other: &Self) -> (r: bool) {
        self.slug.value == other.slug.value
    }
}

impl PartialEqSpecImpl for Article {
    open spec fn obeys_eq_spec() -> bool {
        true
    }

    open spec fn eq_spec(&self, other: &Self) -> bool {
        self.slug@ == other.slug@
    }
}

impl Eq for Article {}

} // verus!
