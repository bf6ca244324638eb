//! Posts of the blog (articles, talks and videos) and how they are read from
//! markdown files with a front matter.

pub mod article;
pub mod content;
pub mod description;
pub mod exception;
pub mod factories;
pub mod repository;
pub mod slug;
pub mod tag;
pub mod talk;
pub mod text_parser_tests;
pub mod title;
pub mod uri;
pub mod video;
pub mod video_slug;

use crate::post::article::Article;
use crate::post::slug::Slug;
use crate::post::talk::Talk;
use crate::post::video::Video;
use std::rc::Rc;
use vstd::prelude::*;
use vstd::std_specs::cmp::PartialEqSpecImpl;

verus! {

/// A post of the blog: an article, a talk or a video, shared by reference.
#[derive(Debug)]
pub enum Post {
    Article(Rc<Article>),
    Talk(Rc<Talk>),
    Video(Rc<Video>),
}

/// Which kind of post a post is, and its slug: two posts are the same post
/// when both agree.
pub open spec fn post_key(p: Post) -> (int, Seq<char>) {
    match p {
        Post::Article(a) => (0, a.slug@),
        Post::Talk(t) => (1, t.slug@),
        Post::Video(v) => (2, v.slug@),
    }
}

/// Another pointer to the same value (`Rc::clone`).
///
/// Trusted: the result points to the value that `rc` points to, as the
/// documentation of `Rc::clone` states.
#[verifier::external_body]
fn share<T>(rc: &Rc<T>) -> (r: Rc<T>)
    ensures
        r == *rc,
{
    Rc::clone(rc)
}

impl Post {
    /// The slug of the post.
    pub fn slug(&self) -> (r: &Slug)
        ensures
            r@ == post_key(*self).1,
    {
        match self {
            Post::Article(a) => &a.slug,
            Post::Talk(t) => &t.slug,
            Post::Video(v) => &v.slug,
        }
    }

    /// Another handle on the same post.
    pub fn share(&self) -> (r: Post)
        ensures
            r == *self,
    {
        match self {
            Post::Article(a) => Post::Article(share(a)),
            Post::Talk(t) => Post::Talk(share(t)),
            Post::Video(v) => Post::Video(share(v)),
        }
    }

    /// Whether both are the same post: of the same kind and with equal slugs.
    pub fn same_post(&self, other: &Post) -> (r: bool)
        ensures
            r == (post_key(*self) == post_key(*other)),
    {
        match (self, other) {
            (Post::Article(a), Post::Article(b)) => a.slug.value == b.slug.value,
            (Post::Talk(a), Post::Talk(b)) => a.slug.value == b.slug.value,
            (Post::Video(a), Post::Video(b)) => a.slug.value == b.slug.value,
            _ => false,
        }
    }

    /// The article as a post.
    pub fn from_article(article: Article) -> (r: Post)
        ensures
            r == Post::Article(Rc::new(article)),
    {
        Post::Article(Rc::new(article))
    }

    /// The talk as a post.
    pub fn from_talk(talk: Talk) -> (r: Post)
        ensures
            r == Post::Talk(Rc::new(talk)),
    {
        Post::Talk(Rc::new(talk))
    }

    /// The video as a post.
    pub fn from_video(video: Video) -> (r: Post)
        ensures
            r == Post::Video(Rc::new(video)),
    {
        Post::Video(Rc::new(video))
    }
}

/// Two posts are equal when they are of the same kind and their slugs are equal.
impl PartialEq for Post {
    fn eq(&self, other: &Self) -> (r: bool) {
        self.same_post(other)
    }
}

impl PartialEqSpecImpl for Post {
    open spec fn obeys_eq_spec() -> bool {
        true
    }

    open spec fn eq_spec(&self, other: &Self) -> bool {
        post_key(*self) == post_key(*other)
    }
}

impl Eq for Post {}

} // verus!
