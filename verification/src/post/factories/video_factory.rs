//! Creation of videos from markdown files.

use crate::post::description::Description;
use crate::post::exception::{failure_in_file, outcome, Exception, ExceptionView};
use crate::post::factories::post_factory::{raw_post_from_file_outcome, read_view, PostFactory};
use crate::post::factories::raw_post::RawPost;
use crate::post::factories::{date_entry, description_entry, parse_date, repository_entry, slug_entry, tags_entry, title_entry, video_entry};
use crate::post::repository::Repository;
use crate::post::slug::Slug;
use crate::post::tag::Tag;
use crate::post::title::Title;
use crate::post::video::{Video, VideoView};
use crate::post::video_slug::VideoSlug;
use vstd::prelude::*;

verus! {

/// The video that the entries of a front matter give: title, tags, date,
/// description, slug and video slug are required and checked in this order,
/// the repository is optional.
pub open spec fn video_outcome(m: Map<Seq<char>, Seq<char>>) -> Result<VideoView, ExceptionView> {
    match title_entry(m) {
        Err(e) => Err(e),
        Ok(title) => match tags_entry(m) {
            Err(e) => Err(e),
            Ok(tags) => match date_entry(m) {
                Err(e) => Err(e),
                Ok(date) => match description_entry(m) {
                    Err(e) => Err(e),
                    Ok(description) => match slug_entry(m) {
                        Err(e) => Err(e),
                        Ok(slug) => match video_entry(m) {
                            Err(e) => Err(e),
                            Ok(video) => match repository_entry(m) {
                                Err(e) => Err(e),
                                Ok(repository) => Ok(VideoView { title, tags, date, description, slug, video, repository }),
                            },
                        },
                    },
                },
            },
        },
    }
}

/// The video that a file describes, where `read` is the outcome of reading
/// its lines; a failure is reported as a `RuntimeException` that names the file.
pub open spec fn video_from_file_outcome(file: Seq<char>, read: Result<Seq<Seq<char>>, ExceptionView>) -> Result<VideoView, ExceptionView> {
    match raw_post_from_file_outcome(file, read) {
        Err(e) => Err(failure_in_file("Creating video failed: "@, file, e)),
        Ok(p) => match video_outcome(p.0) {
            Err(e) => Err(failure_in_file("Creating video failed: "@, file, e)),
            Ok(v) => Ok(v),
        },
    }
}

/// A video that is created keeps the title, slug and video slug of its front
/// matter as written (the title without outer quotation marks).
pub proof fn law_video_keeps_its_entries(m: Map<Seq<char>, Seq<char>>)
    ensures
        video_outcome(m) matches Ok(v) ==> m.contains_key("videoSlug"@) && v.video == m["videoSlug"@]
            && m.contains_key("slug"@) && v.slug == m["slug"@]
            && m.contains_key("title"@) && v.title == crate::utils::unquoted(m["title"@]),
{
}

/// Creates videos from markdown files; it has no instances (its field is private).
pub struct VideoFactory {
    no_instances: (),
}

impl VideoFactory {
    /// The video that a file describes, where `file_lines` is the outcome of
    /// reading its lines; a failure is reported as a `RuntimeException` that
    /// names the file.
    pub fn create_video(file: &str, file_lines: Result<Vec<String>, Exception>) -> (r: Result<Video, Exception>)
        ensures
            outcome(r) == video_from_file_outcome(file@, read_view(file_lines)),
    {
        let post = match PostFactory::read_post_from_path(file, file_lines) {
            Ok(post) => post,
            Err(e) => return Err(Exception::failure_in_file("Creating video failed: ", file, e)),
        };
        match Self::create_video_from_raw_post(post) {
            Ok(video) => Ok(video),
            Err(e) => Err(Exception::failure_in_file("Creating video failed: ", file, e)),
        }
    }

    /// The video that the front matter of a post describes.
    fn create_video_from_raw_post(post: RawPost) -> (r: Result<Video, Exception>)
        ensures
            outcome(r) == video_outcome(post@.0),
    {
        let front_matter = post.front_matter();
        let title = match front_matter.required_value_of(PostFactory::TITLE) {
            Err(e) => return Err(e),
            Ok(text) => match Title::new(text.as_str()) {
                Err(e) => return Err(e),
                Ok(t) => t,
            },
        };
        let tags = match front_matter.required_value_of(PostFactory::TAGS) {
            Err(e) => return Err(e),
            Ok(text) => match Tag::from(text.as_str()) {
                Err(e) => return Err(e),
                Ok(t) => t,
            },
        };
        let date = match front_matter.required_value_of(PostFactory::DATE) {
            Err(e) => return Err(e),
            Ok(text) => match parse_date(text.as_str()) {
                Err(e) => return Err(e),
                Ok(d) => d,
            },
        };
        let description = match front_matter.required_value_of(PostFactory::DESCRIPTION) {
            Err(e) => return Err(e),
            Ok(text) => match Description::new(text) {
                Err(e) => return Err(e),
                Ok(d) => d,
            },
        };
        let slug = match front_matter.required_value_of(PostFactory::SLUG) {
            Err(e) => return Err(e),
            Ok(text) => match Slug::new(text) {
                Err(e) => return Err(e),
                Ok(s) => s,
            },
        };
        let video = match front_matter.required_value_of(PostFactory::VIDEO) {
            Err(e) => return Err(e),
            Ok(text) => match VideoSlug::new(text) {
                Err(e) => return Err(e),
                Ok(v) => v,
            },
        };
        let repository = match front_matter.value_of(PostFactory::REPOSITORY) {
            None => None,
            Some(text) => match Repository::new(text) {
                Err(e) => return Err(e),
                Ok(r) => Some(r),
            },
        };
        Ok(Video::new(title, tags, date, description, slug, video, repository))
    }
}

} // verus!
