//! Creation of articles from markdown files.

use crate::post::article::{Article, ArticleView};
use crate::post::description::Description;
use crate::post::exception::{failure_in_file, outcome, Exception, ExceptionView};
use crate::post::factories::post_factory::{raw_post_from_file_outcome, raw_post_outcome, read_view, PostFactory};
use crate::post::factories::raw_post::RawPost;
use crate::post::factories::{date_entry, description_entry, parse_date, repository_entry, slug_entry, tags_entry, title_entry};
use crate::post::repository::Repository;
use crate::post::slug::Slug;
use crate::post::tag::Tag;
use crate::post::title::Title;
use crate::text::strings_view;
use vstd::prelude::*;

verus! {

/// The article that the entries of a front matter and a content give: title,
/// tags, date, description and slug are required and checked in this order,
/// the repository is optional.
pub open spec fn article_outcome(m: Map<Seq<char>, Seq<char>>, content: Seq<Seq<char>>) -> Result<ArticleView, ExceptionView> {
    match title_entry(m) {
        Err(e) => Err(e),
        Ok(title) => match tags_entry(m) {
            Err(e) => Err(e),
            Ok(tags) => match date_entry(m) {
                Err(e) => Err(e),
                Ok(date) => match description_entry(m) {
                    Err(e) => Err(e),
                    Ok(description) => match slug_entry(m) {
                        Err(e) => Err(e),
                        Ok(slug) => match repository_entry(m) {
                            Err(e) => Err(e),
                            Ok(repository) => Ok(ArticleView { title, tags, date, description, slug, repository, content }),
                        },
                    },
                },
            },
        },
    }
}

/// The article that the lines of a markdown file describe.
pub open spec fn article_from_lines_outcome(lines: Seq<Seq<char>>) -> Result<ArticleView, ExceptionView> {
    match raw_post_outcome(lines) {
        Err(e) => Err(e),
        Ok(p) => article_outcome(p.0, p.1),
    }
}

/// The article that a file describes, where `read` is the outcome of reading
/// its lines; a failure is reported as a `RuntimeException` that names the file.
pub open spec fn article_from_file_outcome(file: Seq<char>, read: Result<Seq<Seq<char>>, ExceptionView>) -> Result<ArticleView, ExceptionView> {
    match raw_post_from_file_outcome(file, read) {
        Err(e) => Err(failure_in_file("Creating article failed: "@, file, e)),
        Ok(p) => match article_outcome(p.0, p.1) {
            Err(e) => Err(failure_in_file("Creating article failed: "@, file, e)),
            Ok(a) => Ok(a),
        },
    }
}

/// Creates articles from markdown files; it has no instances (its field is private).
pub struct ArticleFactory {
    no_instances: (),
}

impl ArticleFactory {
    /// The article that a file describes, where `file_lines` is the outcome
    /// of reading its lines; a failure is reported as a `RuntimeException`
    /// that names the file.
    pub fn create_article(file: &str, file_lines: Result<Vec<String>, Exception>) -> (r: Result<Article, Exception>)
        ensures
            outcome(r) == article_from_file_outcome(file@, read_view(file_lines)),
    {
        let post = match PostFactory::read_post_from_path(file, file_lines) {
            Ok(post) => post,
            Err(e) => return Err(Exception::failure_in_file("Creating article failed: ", file, e)),
        };
        match Self::create_article_from_raw_post(post) {
            Ok(article) => Ok(article),
            Err(e) => Err(Exception::failure_in_file("Creating article failed: ", file, e)),
        }
    }

    /// The article that the lines of a markdown file describe.
    pub fn create_article_from_lines(file_lines: Vec<String>) -> (r: Result<Article, Exception>)
        ensures
            outcome(r) == article_from_lines_outcome(strings_view(file_lines@)),
    {
        let post = match PostFactory::read_post(file_lines) {
            Ok(post) => post,
            Err(e) => return Err(e),
        };
        Self::create_article_from_raw_post(post)
    }

    /// The article that the front matter and the content of a post describe.
    fn create_article_from_raw_post(post: RawPost) -> (r: Result<Article, Exception>)
        ensures
            outcome(r) == article_outcome(post@.0, post@.1),
    {
        let front_matter = post.front_matter();
        let title = match front_matter.required_value_of(PostFactory::TITLE) {
            Err(e) => return Err(e),
            Ok(text) => match Title::new(text.as_str()) {
                Err(e) => return Err(e),
                Ok(t) => t,
            },
        };
        let tags = match front_matter.required_value_of(PostFactory::TAGS) {
            Err(e) => return Err(e),
            Ok(text) => match Tag::from(text.as_str()) {
                Err(e) => return Err(e),
                Ok(t) => t,
            },
        };
        let date = match front_matter.required_value_of(PostFactory::DATE) {
            Err(e) => return Err(e),
            Ok(text) => match parse_date(text.as_str()) {
                Err(e) => return Err(e),
                Ok(d) => d,
            },
        };
        let description = match front_matter.required_value_of(PostFactory::DESCRIPTION) {
            Err(e) => return Err(e),
            Ok(text) => match Description::new(text) {
                Err(e) => return Err(e),
                Ok(d) => d,
            },
        };
        let slug = match front_matter.required_value_of(PostFactory::SLUG) {
            Err(e) => return Err(e),
            Ok(text) => match Slug::new(text) {
                Err(e) => return Err(e),
                Ok(s) => s,
            },
        };
        let repository = match front_matter.value_of(PostFactory::REPOSITORY) {
            None => None,
            Some(text) => match Repository::new(text) {
                Err(e) => return Err(e),
                Ok(r) => Some(r),
            },
        };
        Ok(Article::new(title, tags, date, description, slug, repository, post.content()))
    }
}

} // verus!
