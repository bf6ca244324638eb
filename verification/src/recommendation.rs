//! Recommendations of posts to the readers of a post.

pub mod recommender;

use crate::post::exception::{Exception, ExceptionView};
use crate::post::{post_key, Post};
use crate::text::{push_signed_decimal, signed_decimal_seq};
use vstd::prelude::*;
use vstd::std_specs::cmp::PartialEqSpecImpl;

verus! {

/// At most the first `n` elements of `s` (all of them where there are fewer).
pub open spec fn limit<A>(s: Seq<A>, n: int) -> Seq<A> {
    if 0 <= n < s.len() {
        s.take(n)
    } else {
        s
    }
}

/// The posts recommended to the readers of a post, best first.
#[derive(Debug)]
pub struct Recommendation {
    pub post: Post,
    pub recommended_posts: Vec<Post>,
}

impl Recommendation {
    /// The recommendation of `recommended_posts` to the readers of `post`.
    pub fn new(post: Post, recommended_posts: Vec<Post>) -> (r: Recommendation)
        ensures
            r.post == post,
            r.recommended_posts@ == recommended_posts@,
    {
        Recommendation { post, recommended_posts }
    }

    /// The recommendation of the first `per_post` of `sorted_recommendations`
    /// to the readers of `post`; a negative `per_post` is refused with an
    /// `IllegalArgumentException` whose message is the number.
    pub fn from(post: Post, sorted_recommendations: Vec<Post>, per_post: i32) -> (r: Result<Recommendation, Exception>)
        ensures
            r is Err <==> per_post < 0,
            r matches Ok(rec) ==> rec.post == post && rec.recommended_posts@ == limit(
                sorted_recommendations@,
                per_post as int,
            ),
            r matches Err(e) ==> e@ == ExceptionView::IllegalArgumentException(signed_decimal_seq(per_post as int)),
    {
        if per_post < 0 {
            let mut message = String::new();
            push_signed_decimal(&mut message, per_post);
            assert(message@ =~= signed_decimal_seq(per_post as int));
            return Err(Exception::IllegalArgumentException(message));
        }
        let mut recommendations = sorted_recommendations;
        let n: usize = per_post as usize;
        recommendations.truncate(n);
        assert(recommendations@ =~= limit(sorted_recommendations@, per_post as int));
        Ok(Recommendation { post, recommended_posts: recommendations })
    }

    /// A copy of the recommended posts.
    pub fn recommended_posts(&self) -> (r: Vec<Post>)
        ensures
            r@ == self.recommended_posts@,
    {
        let mut out: Vec<Post> = Vec::new();
        let mut i: usize = 0;
        while i < self.recommended_posts.len()
            invariant
                i <= self.recommended_posts.len(),
                out@ == self.recommended_posts@.take(i as int),
            decreases self.recommended_posts.len() - i,
        {
            out.push(self.recommended_posts[i].share());
            assert(out@ =~= self.recommended_posts@.take(i + 1));
            i = i + 1;
        }
        assert(out@ =~= self.recommended_posts@);
        out
    }
}

/// Two lists name the same posts, in the same order.
pub open spec fn same_posts(a: Seq<Post>, b: Seq<Post>) -> bool {
    a.len() == b.len() && forall|i: int| 0 <= i < a.len() ==> post_key(#[trigger] a[i]) == post_key(b[i])
}

/// Two recommendations are equal when they are for the same post and
/// recommend the same posts in the same order.
impl PartialEq for Recommendation {
    fn eq(&self, other: &Self) -> (r: bool) {
        if !self.post.same_post(&other.post) || self.recommended_posts.len() != other.recommended_posts.len() {
            return false;
        }
        let mut i: usize = 0;
        while i < self.recommended_posts.len()
            invariant
                i <= self.recommended_posts.len(),
                self.recommended_posts.len() == other.recommended_posts.len(),
                forall|k: int| 0 <= k < i ==> post_key(#[trigger] self.recommended_posts@[k]) == post_key(other.recommended_posts@[k]),
            decreases self.recommended_posts.len() - i,
        {
            if !self.recommended_posts[i].same_post(&other.recommended_posts[i]) {
                return false;
            }
            i = i + 1;
        }
        true
    }
}

impl PartialEqSpecImpl for Recommendation {
    open spec fn obeys_eq_spec() -> bool {
        true
    }

    open spec fn eq_spec(&self, other: &Self) -> bool {
        post_key(self.post) == post_key(other.post) && same_posts(self.recommended_posts@, other.recommended_posts@)
    }
}

impl Eq for Recommendation {}

} // verus!
