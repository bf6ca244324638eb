//! Genealogists: judges of how strongly one article relates to another.

pub mod relation_type;
pub mod typed_relation;

use crate::article::Article;
use crate::genealogist::typed_relation::TypedRelation;
use vstd::prelude::*;

verus! {

/// Infers how strongly one article relates to another, in one respect (its
/// relation type). Implemented by the users of the library.
pub trait Genealogist {
    fn infer(&self, article1: Article, article2: Article) -> TypedRelation;
}

/// Provides a genealogist, prepared with all the articles it will judge.
/// Implemented by the users of the library.
pub trait GenealogistService {
    /// The genealogist that this service provides.
    type Procured: Genealogist;

    fn procure(&self, articles: Vec<Article>) -> Self::Procured;
}

} // verus!
