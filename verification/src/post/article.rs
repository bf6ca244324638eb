//! An article: a post written for the blog.

use crate::date::Date;
use crate::post::content::Content;
use crate::post::description::Description;
use crate::post::repository::Repository;
use crate::post::slug::Slug;
use crate::post::tag::{tags_view, Tag};
use crate::post::title::Title;
use vstd::prelude::*;
use vstd::std_specs::cmp::PartialEqSpecImpl;

verus! {

/// An article with its front matter entries and its content.
#[derive(Debug)]
pub struct Article {
    pub title: Title,
    pub tags: Vec<Tag>,
    pub date: Date,
    pub description: Description,
    pub slug: Slug,
    pub repository: Option<Repository>,
    pub content: Content,
}

/// An [`Article`] with its texts taken as sequences of characters.
pub struct ArticleView {
    pub title: Seq<char>,
    pub tags: Seq<Seq<char>>,
    pub date: Date,
    pub description: Seq<char>,
    pub slug: Seq<char>,
    pub repository: Option<Seq<char>>,
    pub content: Seq<Seq<char>>,
}

/// An optional value taken by its view.
pub open spec fn option_view<T: View>(o: Option<T>) -> Option<T::V> {
    match o {
        Some(v) => Some(v@),
        None => None,
    }
}

impl View for Article {
    type V = ArticleView;

    open spec fn view(&self) -> ArticleView {
        ArticleView {
            title: self.title@,
            tags: tags_view(self.tags@),
            date: self.date,
            description: self.description@,
            slug: self.slug@,
            repository: option_view(self.repository),
            content: self.content@,
        }
    }
}

impl Article {
    /// The article with the given parts.
    pub fn new(
        title: Title,
        tags: Vec<Tag>,
        date: Date,
        description: Description,
        slug: Slug,
        repository: Option<Repository>,
        content: Content,
    ) -> (r: Article)
        ensures
            r@ == (ArticleView {
                title: title@,
                tags: tags_view(tags@),
                date,
                description: description@,
                slug: slug@,
                repository: option_view(repository),
                content: content@,
            }),
    {
        Article { title, tags, date, description, slug, repository, content }
    }

    /// A copy of the tags of the article.
    pub fn tags(&self) -> (r: Vec<Tag>)
        ensures
            tags_view(r@) == self@.tags,
    {
        Tag::copy_of(&self.tags)
    }
}

/// Two articles are the same article when their slugs are equal.
impl PartialEq for Article {
    fn eq(&self, other: &Self) -> (r: bool) {
        self.slug.value == other.slug.value
    }
}

impl PartialEqSpecImpl for Article {
    open spec fn obeys_eq_spec() -> bool {
        true
    }

    open spec fn eq_spec(&self, other: &Self) -> bool {
        self.slug@ == other.slug@
    }
}

impl Eq for Article {}

} // verus!
