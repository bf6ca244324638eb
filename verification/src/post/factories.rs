//! Creation of posts (articles, talks and videos) from markdown files.

pub mod article_factory;
pub mod post_factory;
pub mod raw_front_matter;
pub mod raw_post;
pub mod talk_factory;
pub mod video_factory;

use crate::article::tag::tag_texts;
use crate::date::{parsed_iso_date, Date};
use crate::post::description::description_outcome;
use crate::post::exception::{Exception, ExceptionView};
use crate::post::factories::raw_front_matter::required;
use crate::post::repository::repository_outcome;
use crate::post::slug::slug_outcome;
use crate::post::title::title_outcome;
use crate::post::uri::uri_outcome;
use crate::post::video_slug::video_slug_outcome;
use vstd::prelude::*;

verus! {

/// The date that `text` gives in the format `%Y-%m-%d`, or a `DateTimeParseException`.
pub open spec fn date_outcome(text: Seq<char>) -> Result<Date, ExceptionView> {
    match parsed_iso_date(text) {
        Some(d) => Ok(d),
        None => Err(ExceptionView::DateTimeParseException),
    }
}

/// Parses a date written as `YYYY-MM-DD`.
pub fn parse_date(text: &str) -> (r: Result<Date, Exception>)
    ensures
        match r {
            Ok(d) => date_outcome(text@) == Ok::<Date, ExceptionView>(d),
            Err(e) => date_outcome(text@) == Err::<Date, ExceptionView>(e@),
        },
{
    match Date::parse_iso(text) {
        Some(d) => Ok(d),
        None => Err(Exception::DateTimeParseException),
    }
}

/// The title that the front matter gives, or the error that refuses it.
pub open spec fn title_entry(m: Map<Seq<char>, Seq<char>>) -> Result<Seq<char>, ExceptionView> {
    match required(m, "title"@) {
        Err(e) => Err(e),
        Ok(t) => title_outcome(t),
    }
}

/// The tags that the front matter gives, or the error that refuses them.
pub open spec fn tags_entry(m: Map<Seq<char>, Seq<char>>) -> Result<Seq<Seq<char>>, ExceptionView> {
    match required(m, "tags"@) {
        Err(e) => Err(e),
        Ok(t) => Ok(tag_texts(t)),
    }
}

/// The date that the front matter gives, or the error that refuses it.
pub open spec fn date_entry(m: Map<Seq<char>, Seq<char>>) -> Result<Date, ExceptionView> {
    match required(m, "date"@) {
        Err(e) => Err(e),
        Ok(t) => date_outcome(t),
    }
}

/// The description that the front matter gives, or the error that refuses it.
pub open spec fn description_entry(m: Map<Seq<char>, Seq<char>>) -> Result<Seq<char>, ExceptionView> {
    match required(m, "description"@) {
        Err(e) => Err(e),
        Ok(t) => description_outcome(t),
    }
}

/// The slug that the front matter gives, or the error that refuses it.
pub open spec fn slug_entry(m: Map<Seq<char>, Seq<char>>) -> Result<Seq<char>, ExceptionView> {
    match required(m, "slug"@) {
        Err(e) => Err(e),
        Ok(t) => slug_outcome(t),
    }
}

/// The repository that the front matter gives, if it names one, or the error that refuses it.
pub open spec fn repository_entry(m: Map<Seq<char>, Seq<char>>) -> Result<Option<Seq<char>>, ExceptionView> {
    if m.contains_key("repo"@) {
        match repository_outcome(m["repo"@]) {
            Err(e) => Err(e),
            Ok(r) => Ok(Some(r)),
        }
    } else {
        Ok(None)
    }
}

/// The address of the slides that the front matter gives, or the error that
/// refuses it (a malformed address is an `IllegalArgumentException`).
pub open spec fn slides_entry(m: Map<Seq<char>, Seq<char>>) -> Result<Seq<char>, ExceptionView> {
    match required(m, "slides"@) {
        Err(e) => Err(e),
        Ok(t) => match uri_outcome(t) {
            Ok(u) => Ok(u),
            Err(ExceptionView::URISyntaxException(message)) => Err(ExceptionView::IllegalArgumentException(message)),
            Err(e) => Err(e),
        },
    }
}

/// The video slug that the front matter gives, or the error that refuses it.
pub open spec fn video_entry(m: Map<Seq<char>, Seq<char>>) -> Result<Seq<char>, ExceptionView> {
    match required(m, "videoSlug"@) {
        Err(e) => Err(e),
        Ok(t) => video_slug_outcome(t),
    }
}

/// The video slug that the front matter gives, if it names one, or the error that refuses it.
pub open spec fn optional_video_entry(m: Map<Seq<char>, Seq<char>>) -> Result<Option<Seq<char>>, ExceptionView> {
    if m.contains_key("videoSlug"@) {
        match video_slug_outcome(m["videoSlug"@]) {
            Err(e) => Err(e),
            Ok(v) => Ok(Some(v)),
        }
    } else {
        Ok(None)
    }
}

} // verus!
