//! A relation between two articles as one genealogist sees it.

use crate::article::Article;
use crate::exception::{Exception, ExceptionView};
use crate::genealogist::relation_type::RelationType;
use crate::text::{decimal_seq, push_decimal};
use vstd::prelude::*;

verus! {

/// How strongly `article1` relates to `article2` in the respect that
/// `relation_type` names.
#[derive(Debug)]
pub struct TypedRelation {
    pub article1: Article,
    pub article2: Article,
    pub relation_type: RelationType,
    pub score: u64,
}

/// Whether a score is accepted: from 0 up to 100, both included.
pub open spec fn valid_score(score: int) -> bool {
    0 <= score <= 100
}

/// The message that refuses a score.
pub open spec fn score_message(score: nat) -> Seq<char> {
    "Score should be in interval [0; 100]: "@ + decimal_seq(score)
}

impl TypedRelation {
    /// The relation of the two articles with the type and the score; a score
    /// above 100 is refused with an `IllegalArgument` error.
    pub fn new(article1: Article, article2: Article, relation_type: RelationType, score: u64) -> (r: Result<TypedRelation, Exception>)
        ensures
            r is Ok <==> valid_score(score as int),
            r matches Ok(t) ==> t.article1 == article1 && t.article2 == article2 && t.relation_type == relation_type && t.score == score,
            r matches Err(e) ==> e@ == ExceptionView::IllegalArgument(score_message(score as nat)),
    {
        if score > 100 {
            let mut message = String::from_str("Score should be in interval [0; 100]: ");
            push_decimal(&mut message, score);
            return Err(Exception::IllegalArgument(message));
        }
        Ok(TypedRelation { article1, article2, relation_type, score })
    }
}

} // verus!
