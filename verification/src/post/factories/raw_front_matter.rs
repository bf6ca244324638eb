//! The key/value entries of a post's front matter.

use crate::article::article_factory::{lookup, pairs_map};
use crate::post::exception::{Exception, ExceptionView};
use vstd::prelude::*;

verus! {

/// The value of `key` in `m`, or the `IllegalArgumentException` that reports it missing.
pub open spec fn required(m: Map<Seq<char>, Seq<char>>, key: Seq<char>) -> Result<Seq<char>, ExceptionView> {
    if m.contains_key(key) {
        Ok(m[key])
    } else {
        Err(
            ExceptionView::IllegalArgumentException(
                "Required key '"@ + key + "' not present in front matter."@,
            ),
        )
    }
}

/// The entries of a front matter: a value for each key.
#[derive(Debug)]
pub struct RawFrontMatter {
    lines: Vec<(String, String)>,
}

impl View for RawFrontMatter {
    type V = Map<Seq<char>, Seq<char>>;

    closed spec fn view(&self) -> Map<Seq<char>, Seq<char>> {
        pairs_map(self.lines@)
    }
}

impl RawFrontMatter {
    /// The front matter of the key/value pairs; a later pair replaces an
    /// earlier one with the same key.
    pub fn new(lines: Vec<(String, String)>) -> (r: RawFrontMatter)
        ensures
            r@ == pairs_map(lines@),
    {
        RawFrontMatter { lines }
    }

    /// The value of `key`, if the front matter has one.
    pub fn value_of(&self, key: &str) -> (r: Option<String>)
        ensures
            r is None <==> !self@.contains_key(key@),
            r matches Some(v) ==> v@ == self@[key@],
    {
        lookup(&self.lines, key)
    }

    /// The value of `key`, or an `IllegalArgumentException` where the front matter has none.
    pub fn required_value_of(&self, key: &str) -> (r: Result<String, Exception>)
        ensures
            match r {
                Ok(v) => required(self@, key@) == Ok::<Seq<char>, ExceptionView>(v@),
                Err(e) => required(self@, key@) == Err::<Seq<char>, ExceptionView>(e@),
            },
    {
        match self.value_of(key) {
            Some(v) => Ok(v),
            None => {
                let mut message = String::from_str("Required key '");
                message.append(key);
                message.append("' not present in front matter.");
                Err(Exception::IllegalArgumentException(message))
            },
        }
    }
}

} // verus!
