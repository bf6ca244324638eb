//! The slug of a video, which identifies it on the video platform.

use crate::post::exception::{outcome, Exception, ExceptionView};
use crate::text::{is_blank, is_blank_seq};
use vstd::prelude::*;

verus! {

/// The slug of a video.
#[derive(Debug, PartialEq, Eq, Hash, PartialOrd, Ord)]
pub struct VideoSlug {
    pub value: String,
}

impl View for VideoSlug {
    type V = Seq<char>;

    open spec fn view(&self) -> Seq<char> {
        self.value@
    }
}

/// A video slug keeps its value as given; it is refused where the value is blank.
pub open spec fn video_slug_outcome(text: Seq<char>) -> Result<Seq<char>, ExceptionView> {
    if is_blank_seq(text) {
        Err(ExceptionView::IllegalArgumentException("Slugs can't have an empty value."@))
    } else {
        Ok(text)
    }
}

/// A video slug that is not blank is kept exactly as given, letter case
/// included; a blank one is refused.
pub proof fn law_video_slug_kept_as_given(text: Seq<char>)
    ensures
        !is_blank_seq(text) ==> video_slug_outcome(text) == Ok::<Seq<char>, ExceptionView>(text),
        is_blank_seq(text) ==> video_slug_outcome(text) is Err,
{
}

impl VideoSlug {
    /// The video slug with the value, or an `IllegalArgumentException` for a blank one.
    pub fn new(value: String) -> (r: Result<VideoSlug, Exception>)
        ensures
            outcome(r) == video_slug_outcome(value@),
    {
        if is_blank(value.as_str()) {
            Err(Exception::IllegalArgumentException(String::from_str("Slugs can't have an empty value.")))
        } else {
            Ok(VideoSlug { value })
        }
    }
}

} // verus!
