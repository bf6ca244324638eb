//! A scored relation between two posts.

use crate::post::Post;
use vstd::prelude::*;

verus! {

/// How strongly `post1` relates to `post2`: the higher the score, the more
/// `post2` is worth recommending to readers of `post1`.
#[derive(Debug)]
pub struct Relation {
    pub post1: Post,
    pub post2: Post,
    pub score: u64,
}

impl Relation {
    /// The relation of `post1` to `post2` with the score.
    pub fn new(post1: Post, post2: Post, score: u64) -> (r: Relation)
        ensures
            r == (Relation { post1, post2, score }),
    {
        Relation { post1, post2, score }
    }
}

} // verus!
