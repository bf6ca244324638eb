//! The content of an article: the lines after its front matter.

use crate::exception::{Exception, ExceptionView};
use crate::try_iterator::view_result;
use vstd::prelude::*;

verus! {

/// The items of a list of lines, each taken by its view.
pub open spec fn items_view(items: Seq<Result<String, Exception>>) -> Seq<Result<Seq<char>, ExceptionView>> {
    items.map_values(|r: Result<String, Exception>| match r {
        Ok(line) => Ok(line@),
        Err(e) => Err(e@),
    })
}

/// The same items with their errors taken by their views.
pub open spec fn errors_view(items: Seq<Result<Seq<char>, Exception>>) -> Seq<Result<Seq<char>, ExceptionView>> {
    items.map_values(|r: Result<Seq<char>, Exception>| match r {
        Ok(line) => Ok(line),
        Err(e) => Err(e@),
    })
}

/// The lines of an article's body, as read (a failed read is an error item).
#[derive(Debug)]
pub struct Content {
    pub items: Vec<Result<String, Exception>>,
}

impl View for Content {
    type V = Seq<Result<Seq<char>, ExceptionView>>;

    open spec fn view(&self) -> Seq<Result<Seq<char>, ExceptionView>> {
        items_view(self.items@)
    }
}

impl Content {
    /// The content made of `items`.
    pub fn new(items: Vec<Result<String, Exception>>) -> (r: Content)
        ensures
            r@ == items_view(items@),
    {
        Content { items }
    }

    /// The content made of lines that were all read.
    pub fn from_lines(lines: Vec<String>) -> (r: Content)
        ensures
            r@ == lines@.map_values(|l: String| Ok::<Seq<char>, ExceptionView>(l@)),
    {
        let mut items: Vec<Result<String, Exception>> = Vec::new();
        let mut i: usize = 0;
        while i < lines.len()
            invariant
                i <= lines.len(),
                items@.len() == i,
                items_view(items@) == lines@.take(i as int).map_values(|l: String| Ok::<Seq<char>, ExceptionView>(l@)),
            decreases lines.len() - i,
        {
            let ghost before = items@;
            let line = lines[i].clone();
            assert(line@ == lines@[i as int]@);
            items.push(Ok(line));
            assert forall|k: int| 0 <= k < i + 1 implies #[trigger] items_view(items@)[k] == lines@.take(i + 1).map_values(|l: String| Ok::<Seq<char>, ExceptionView>(l@))[k] by {
                if k < i {
                    assert(items@[k] == before[k]);
                    assert(items_view(before)[k] == items_view(items@)[k]);
                }
            }
            assert(items_view(items@) =~= lines@.take(i + 1).map_values(|l: String| Ok::<Seq<char>, ExceptionView>(l@)));
            i = i + 1;
        }
        assert(lines@.take(lines.len() as int) =~= lines@);
        Content { items }
    }
}

} // verus!
