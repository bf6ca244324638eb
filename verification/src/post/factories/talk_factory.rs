//! Creation of talks from markdown files.

use crate::post::description::Description;
use crate::post::exception::{failure_in_file, outcome, Exception, ExceptionView};
use crate::post::factories::post_factory::{raw_post_from_file_outcome, read_view, PostFactory};
use crate::post::factories::raw_post::RawPost;
use crate::post::factories::{date_entry, description_entry, optional_video_entry, parse_date, slides_entry, slug_entry, tags_entry, title_entry};
use crate::post::slug::Slug;
use crate::post::tag::Tag;
use crate::post::talk::{Talk, TalkView};
use crate::post::title::Title;
use crate::post::uri::Uri;
use crate::post::video_slug::VideoSlug;
use vstd::prelude::*;

verus! {

/// The talk that the entries of a front matter give: title, tags, date,
/// description, slug and slides are required and checked in this order, the
/// video slug is optional.
pub open spec fn talk_outcome(m: Map<Seq<char>, Seq<char>>) -> Result<TalkView, ExceptionView> {
    match title_entry(m) {
        Err(e) => Err(e),
        Ok(title) => match tags_entry(m) {
            Err(e) => Err(e),
            Ok(tags) => match date_entry(m) {
                Err(e) => Err(e),
                Ok(date) => match description_entry(m) {
                    Err(e) => Err(e),
                    Ok(description) => match slug_entry(m) {
                        Err(e) => Err(e),
                        Ok(slug) => match slides_entry(m) {
                            Err(e) => Err(e),
                            Ok(slides) => match optional_video_entry(m) {
                                Err(e) => Err(e),
                                Ok(video) => Ok(TalkView { title, tags, date, description, slug, slides, video }),
                            },
                        },
                    },
                },
            },
        },
    }
}

/// The talk that a file describes, where `read` is the outcome of reading
/// its lines; a failure is reported as a `RuntimeException` that names the file.
pub open spec fn talk_from_file_outcome(file: Seq<char>, read: Result<Seq<Seq<char>>, ExceptionView>) -> Result<TalkView, ExceptionView> {
    match raw_post_from_file_outcome(file, read) {
        Err(e) => Err(failure_in_file("Creating talk failed: "@, file, e)),
        Ok(p) => match talk_outcome(p.0) {
            Err(e) => Err(failure_in_file("Creating talk failed: "@, file, e)),
            Ok(t) => Ok(t),
        },
    }
}

/// A talk that is created keeps the slug and the address of the slides of
/// its front matter as written, and a video slug where it names one.
pub proof fn law_talk_keeps_its_entries(m: Map<Seq<char>, Seq<char>>)
    ensures
        talk_outcome(m) matches Ok(t) ==> m.contains_key("slides"@) && t.slides == m["slides"@]
            && m.contains_key("slug"@) && t.slug == m["slug"@]
            && (t.video == if m.contains_key("videoSlug"@) { Some(m["videoSlug"@]) } else { None::<Seq<char>> }),
{
    crate::post::uri::law_plain_uris_are_accepted(m["slides"@]);
}

/// Creates talks from markdown files; it has no instances (its field is private).
pub struct TalkFactory {
    no_instances: (),
}

impl TalkFactory {
    /// The talk that a file describes, where `file_lines` is the outcome of
    /// reading its lines; a failure is reported as a `RuntimeException` that
    /// names the file.
    pub fn create_talk(file: &str, file_lines: Result<Vec<String>, Exception>) -> (r: Result<Talk, Exception>)
        ensures
            outcome(r) == talk_from_file_outcome(file@, read_view(file_lines)),
    {
        let post = match PostFactory::read_post_from_path(file, file_lines) {
            Ok(post) => post,
            Err(e) => return Err(Exception::failure_in_file("Creating talk failed: ", file, e)),
        };
        match Self::create_talk_from_raw_post(post) {
            Ok(talk) => Ok(talk),
            Err(e) => Err(Exception::failure_in_file("Creating talk failed: ", file, e)),
        }
    }

    /// The talk that the front matter of a post describes; a malformed
    /// address of the slides is reported as an `IllegalArgumentException`.
    fn create_talk_from_raw_post(post: RawPost) -> (r: Result<Talk, Exception>)
        ensures
            outcome(r) == talk_outcome(post@.0),
    {
        let front_matter = post.front_matter();
        let title = match front_matter.required_value_of(PostFactory::TITLE) {
            Err(e) => return Err(e),
            Ok(text) => match Title::new(text.as_str()) {
                Err(e) => return Err(e),
                Ok(t) => t,
            },
        };
        let tags = match front_matter.required_value_of(PostFactory::TAGS) {
            Err(e) => return Err(e),
            Ok(text) => match Tag::from(text.as_str()) {
                Err(e) => return Err(e),
                Ok(t) => t,
            },
        };
        let date = match front_matter.required_value_of(PostFactory::DATE) {
            Err(e) => return Err(e),
            Ok(text) => match parse_date(text.as_str()) {
                Err(e) => return Err(e),
                Ok(d) => d,
            },
        };
        let description = match front_matter.required_value_of(PostFactory::DESCRIPTION) {
            Err(e) => return Err(e),
            Ok(text) => match Description::new(text) {
                Err(e) => return Err(e),
                Ok(d) => d,
            },
        };
        let slug = match front_matter.required_value_of(PostFactory::SLUG) {
            Err(e) => return Err(e),
            Ok(text) => match Slug::new(text) {
                Err(e) => return Err(e),
                Ok(s) => s,
            },
        };
        let slides = match front_matter.required_value_of(PostFactory::SLIDES) {
            Err(e) => return Err(e),
            Ok(text) => match Uri::new(text) {
                Ok(u) => u,
                Err(Exception::URISyntaxException(message)) => return Err(Exception::IllegalArgumentException(message)),
                Err(e) => return Err(e),
            },
        };
        let video = match front_matter.value_of(PostFactory::VIDEO) {
            None => None,
            Some(text) => match VideoSlug::new(text) {
                Err(e) => return Err(e),
                Ok(v) => Some(v),
            },
        };
        Ok(Talk::new(title, tags, date, description, slug, slides, video))
    }
}

} // verus!
