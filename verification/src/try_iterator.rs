//! Iterator adapters over fallible items (`Result`s): they act on the `Ok`
//! values and pass errors through. Each adapter is described by the sequence
//! of items it still yields (`remaining`), as a function of the sequence its
//! inner iterator still yields.

use std::collections::VecDeque;
use vstd::prelude::*;

verus! {

/// An item with its `Ok` value taken by its view.
pub open spec fn view_result<T: View, E>(r: Result<T, E>) -> Result<T::V, E> {
    match r {
        Ok(v) => Ok(v@),
        Err(e) => Err(e),
    }
}

/// The items of a list, each with its `Ok` value taken by its view.
pub open spec fn views_of<T: View, E>(items: Seq<Result<T, E>>) -> Seq<Result<T::V, E>> {
    items.map_values(|x: Result<T, E>| view_result(x))
}

/// Every `Ok` value of `s` replaced by its image under `f`.
pub open spec fn map_ok_seq<A, B, E>(s: Seq<Result<A, E>>, f: spec_fn(A) -> B) -> Seq<Result<B, E>> {
    s.map_values(
        |r: Result<A, E>|
            match r {
                Ok(v) => Ok(f(v)),
                Err(e) => Err(e),
            },
    )
}

/// `s` without its longest prefix of `Ok` values that satisfy `p`.
pub open spec fn skip_while_ok<T, E>(s: Seq<Result<T, E>>, p: spec_fn(T) -> bool) -> Seq<Result<T, E>>
    decreases s.len(),
{
    if s.len() > 0 && s[0] is Ok && p(s[0]->Ok_0) {
        skip_while_ok(s.drop_first(), p)
    } else {
        s
    }
}

/// `s` without its first `n` `Ok` values; the errors among them stay.
pub open spec fn skip_ok<T, E>(s: Seq<Result<T, E>>, n: nat) -> Seq<Result<T, E>>
    decreases s.len(),
{
    if n == 0 || s.len() == 0 {
        s
    } else if s[0] is Err {
        seq![s[0]] + skip_ok(s.drop_first(), n)
    } else {
        skip_ok(s.drop_first(), (n - 1) as nat)
    }
}

/// The items of `s` up to (not including) its first `Ok` value that fails `p`.
pub open spec fn take_while_ok<T, E>(s: Seq<Result<T, E>>, p: spec_fn(T) -> bool) -> Seq<Result<T, E>>
    decreases s.len(),
{
    if s.len() == 0 {
        s
    } else if s[0] is Ok && !p(s[0]->Ok_0) {
        Seq::empty()
    } else {
        seq![s[0]] + take_while_ok(s.drop_first(), p)
    }
}

/// The items of `s` up to and including its first error.
pub open spec fn fuse_seq<T, E>(s: Seq<Result<T, E>>) -> Seq<Result<T, E>>
    decreases s.len(),
{
    if s.len() == 0 {
        s
    } else if s[0] is Err {
        seq![s[0]]
    } else {
        seq![s[0]] + fuse_seq(s.drop_first())
    }
}

/// The values of `s`, each as an `Ok` item.
pub open spec fn oks<T, E>(s: Seq<T>) -> Seq<Result<T, E>> {
    s.map_values(|x: T| Ok::<T, E>(x))
}

/// Once an error comes, nothing follows: the items that `fuse_seq` keeps are
/// the first ones of `s`, and only the last of them can be an error.
pub proof fn law_fuse_stops_after_first_error<T, E>(s: Seq<Result<T, E>>)
    ensures
        fuse_seq(s).len() <= s.len(),
        fuse_seq(s) == s.take(fuse_seq(s).len() as int),
        forall|i: int| 0 <= i < fuse_seq(s).len() - 1 ==> (#[trigger] fuse_seq(s)[i]) is Ok,
        fuse_seq(s).len() < s.len() ==> fuse_seq(s).len() > 0 && fuse_seq(s).last() is Err,
    decreases s.len(),
{
    if s.len() > 0 && s[0] is Ok {
        law_fuse_stops_after_first_error(s.drop_first());
        let rest = fuse_seq(s.drop_first());
        assert(fuse_seq(s) =~= seq![s[0]] + rest);
        assert(s.take(fuse_seq(s).len() as int) =~= seq![s[0]] + s.drop_first().take(rest.len() as int));
        assert forall|i: int| 0 <= i < fuse_seq(s).len() - 1 implies (#[trigger] fuse_seq(s)[i]) is Ok by {
            if i > 0 {
                assert(fuse_seq(s)[i] == rest[i - 1]);
            }
        }
        if fuse_seq(s).len() < s.len() {
            assert(fuse_seq(s).last() == rest.last());
        }
    } else if s.len() > 0 {
        assert(s.take(1) =~= seq![s[0]]);
    } else {
        assert(s.take(0) =~= s);
    }
}

/// Items that are all `Ok` pass through `fuse_seq` unchanged.
pub proof fn lemma_fuse_oks<T, E>(s: Seq<T>)
    ensures
        fuse_seq(oks::<T, E>(s)) == oks::<T, E>(s),
    decreases s.len(),
{
    if s.len() > 0 {
        lemma_fuse_oks::<T, E>(s.drop_first());
        assert(oks::<T, E>(s).drop_first() =~= oks::<T, E>(s.drop_first()));
        assert(seq![oks::<T, E>(s)[0]] + oks::<T, E>(s.drop_first()) =~= oks::<T, E>(s));
    }
}

/// Mapping the `Ok` values of all-`Ok` items maps the values.
pub proof fn lemma_map_ok_oks<A, B, E>(s: Seq<A>, f: spec_fn(A) -> B)
    ensures
        map_ok_seq(oks::<A, E>(s), f) == oks::<B, E>(s.map_values(f)),
{
    assert(map_ok_seq(oks::<A, E>(s), f) =~= oks::<B, E>(s.map_values(f)));
}

/// Skipping one `Ok` value of all-`Ok` items drops the first one.
pub proof fn lemma_skip_one_ok<T, E>(s: Seq<T>)
    requires
        s.len() > 0,
    ensures
        skip_ok(oks::<T, E>(s), 1) == oks::<T, E>(s.drop_first()),
{
    assert(oks::<T, E>(s).drop_first() =~= oks::<T, E>(s.drop_first()));
    assert(skip_ok(oks::<T, E>(s).drop_first(), 0) == oks::<T, E>(s).drop_first());
}

/// Skipping all-`Ok` items while they pass `p` drops the items before the first that fails it.
pub proof fn lemma_skip_while_oks<T, E>(pre: Seq<T>, rest: Seq<T>, p: spec_fn(T) -> bool)
    requires
        forall|i: int| 0 <= i < pre.len() ==> p(#[trigger] pre[i]),
        rest.len() > 0,
        !p(rest[0]),
    ensures
        skip_while_ok(oks::<T, E>(pre + rest), p) == oks::<T, E>(rest),
    decreases pre.len(),
{
    if pre.len() == 0 {
        assert(pre + rest =~= rest);
    } else {
        assert(oks::<T, E>(pre + rest).drop_first() =~= oks::<T, E>(pre.drop_first() + rest));
        assert(p(pre[0]));
        lemma_skip_while_oks::<T, E>(pre.drop_first(), rest, p);
    }
}

/// Taking all-`Ok` items while they pass `p` keeps the items before the first that fails it.
pub proof fn lemma_take_while_oks<T, E>(pre: Seq<T>, rest: Seq<T>, p: spec_fn(T) -> bool)
    requires
        forall|i: int| 0 <= i < pre.len() ==> p(#[trigger] pre[i]),
        rest.len() > 0,
        !p(rest[0]),
    ensures
        take_while_ok(oks::<T, E>(pre + rest), p) == oks::<T, E>(pre),
    decreases pre.len(),
{
    if pre.len() == 0 {
        assert(pre + rest =~= rest);
        assert(oks::<T, E>(pre) =~= Seq::<Result<T, E>>::empty());
    } else {
        assert(oks::<T, E>(pre + rest).drop_first() =~= oks::<T, E>(pre.drop_first() + rest));
        assert(p(pre[0]));
        lemma_take_while_oks::<T, E>(pre.drop_first(), rest, p);
        assert(seq![oks::<T, E>(pre + rest)[0]] + oks::<T, E>(pre.drop_first()) =~= oks::<T, E>(pre));
    }
}

/// A function applied to the `Ok` values of a [`TryIterator`].
pub trait OkMapper<In: View> {
    type Output: View;

    spec fn spec_apply(&self, v: In::V) -> <Self::Output as View>::V;

    fn apply(&self, v: In) -> (r: Self::Output)
        ensures
            r@ == self.spec_apply(v@),
    ;
}

/// A test on the `Ok` values of a [`TryIterator`].
pub trait OkPredicate<T: View> {
    spec fn spec_test(&self, v: T::V) -> bool;

    fn test(&self, v: &T) -> (r: bool)
        ensures
            r == self.spec_test(v@),
    ;
}

/// The test `p` as a spec function.
pub open spec fn test_of<T: View, P: OkPredicate<T>>(p: P) -> spec_fn(T::V) -> bool {
    |v: T::V| p.spec_test(v)
}

/// The function `m` as a spec function.
pub open spec fn apply_of<In: View, M: OkMapper<In>>(m: M) -> spec_fn(In::V) -> <M::Output as View>::V {
    |v: In::V| m.spec_apply(v)
}

/// A source of fallible items, consumed front to back (an iterator whose
/// items are `Result`s).
pub trait ResultSource: Sized {
    type Ok: View;

    type Error;

    /// The items still to come, in order.
    spec fn remaining(&self) -> Seq<Result<<Self::Ok as View>::V, Self::Error>>;

    /// The next item, or `None` once no item is left.
    fn next_item(&mut self) -> (r: Option<Result<Self::Ok, Self::Error>>)
        ensures
            old(self).remaining().len() == 0 ==> r is None && final(self).remaining().len() == 0,
            old(self).remaining().len() > 0 ==> r is Some && view_result(r->Some_0) == old(
                self,
            ).remaining()[0] && final(self).remaining() == old(self).remaining().drop_first(),
    ;
}

/// The adapters on fallible items, available on every [`ResultSource`].
pub trait TryIterator: ResultSource {
    /// The next item, or `None` once no item is left.
    fn try_next(&mut self) -> (r: Option<Result<Self::Ok, Self::Error>>)
        ensures
            old(self).remaining().len() == 0 ==> r is None && final(self).remaining().len() == 0,
            old(self).remaining().len() > 0 ==> r is Some && view_result(r->Some_0) == old(
                self,
            ).remaining()[0] && final(self).remaining() == old(self).remaining().drop_first(),
    ;

    /// The `Ok` values mapped by `mapper`, up to and including the first error.
    fn map_ok<M: OkMapper<Self::Ok>>(self, mapper: M) -> (r: TryFused<MapOk<Self, M>>)
        ensures
            r.remaining() == fuse_seq(map_ok_seq(self.remaining(), apply_of::<Self::Ok, M>(mapper))),
    ;

    /// The items without the first `amount` `Ok` values, up to and including the first error.
    fn try_skip(self, amount: usize) -> (r: TryFused<TrySkip<Self>>)
        ensures
            r.remaining() == fuse_seq(skip_ok(self.remaining(), amount as nat)),
    ;

    /// The items from the first error or the first `Ok` value that fails
    /// `predicate` on, up to and including the first error.
    fn try_skip_while<P: OkPredicate<Self::Ok>>(self, predicate: P) -> (r: TryFused<TrySkipWhile<Self, P>>)
        ensures
            r.remaining() == fuse_seq(skip_while_ok(self.remaining(), test_of::<Self::Ok, P>(predicate))),
    ;

    /// The items before the first `Ok` value that fails `predicate`, up to and
    /// including the first error.
    fn try_take_while<P: OkPredicate<Self::Ok>>(self, predicate: P) -> (r: TryFused<TryTakeWhile<Self, P>>)
        ensures
            r.remaining() == fuse_seq(take_while_ok(self.remaining(), test_of::<Self::Ok, P>(predicate))),
    ;

    /// The items up to and including the first error.
    fn try_fused(self) -> (r: TryFused<Self>)
        ensures
            r.remaining() == fuse_seq(self.remaining()),
    ;
}

impl<I: ResultSource> TryIterator for I {
    fn try_next(&mut self) -> (r: Option<Result<Self::Ok, Self::Error>>) {
        self.next_item()
    }

    fn map_ok<M: OkMapper<Self::Ok>>(self, mapper: M) -> (r: TryFused<MapOk<Self, M>>) {
        TryFused::new(MapOk { try_iterator: self, mapper })
    }

    fn try_skip(self, amount: usize) -> (r: TryFused<TrySkip<Self>>) {
        TryFused::new(TrySkip { try_iterator: self, remaining: amount })
    }

    fn try_skip_while<P: OkPredicate<Self::Ok>>(self, predicate: P) -> (r: TryFused<TrySkipWhile<Self, P>>) {
        TryFused::new(TrySkipWhile { try_iterator: self, predicate, finished_skipping: false })
    }

    fn try_take_while<P: OkPredicate<Self::Ok>>(self, predicate: P) -> (r: TryFused<TryTakeWhile<Self, P>>) {
        TryFused::new(TryTakeWhile { try_iterator: self, predicate, still_taking: true })
    }

    fn try_fused(self) -> (r: TryFused<Self>) {
        TryFused::new(self)
    }
}

/// Applies a mapper to the `Ok` values of the inner iterator.
pub struct MapOk<TryIter, Mapper> {
    try_iterator: TryIter,
    mapper: Mapper,
}

impl<I: ResultSource, M: OkMapper<I::Ok>> ResultSource for MapOk<I, M> {
    type Ok = M::Output;

    type Error = I::Error;

    closed spec fn remaining(&self) -> Seq<Result<<M::Output as View>::V, I::Error>> {
        map_ok_seq(self.try_iterator.remaining(), apply_of::<I::Ok, M>(self.mapper))
    }

    fn next_item(&mut self) -> (r: Option<Result<M::Output, I::Error>>) {
        let r = match self.try_iterator.next_item() {
            None => None,
            Some(Ok(value)) => Some(Ok(self.mapper.apply(value))),
            Some(Err(error)) => Some(Err(error)),
        };
        assert(self.remaining() =~= old(self).remaining().drop_first() || old(self).remaining().len()
            == 0);
        r
    }
}

/// Skips the `Ok` values of the inner iterator while they pass a test.
pub struct TrySkipWhile<TryIter, Predicate> {
    try_iterator: TryIter,
    predicate: Predicate,
    finished_skipping: bool,
}

impl<I: ResultSource, P: OkPredicate<I::Ok>> ResultSource for TrySkipWhile<I, P> {
    type Ok = I::Ok;

    type Error = I::Error;

    closed spec fn remaining(&self) -> Seq<Result<<I::Ok as View>::V, I::Error>> {
        if self.finished_skipping {
            self.try_iterator.remaining()
        } else {
            skip_while_ok(self.try_iterator.remaining(), test_of::<I::Ok, P>(self.predicate))
        }
    }

    fn next_item(&mut self) -> (r: Option<Result<I::Ok, I::Error>>) {
        if self.finished_skipping {
            return self.try_iterator.next_item();
        }
        loop
            invariant
                !self.finished_skipping,
                self.predicate == old(self).predicate,
                old(self).remaining() == skip_while_ok(
                    self.try_iterator.remaining(),
                    test_of::<I::Ok, P>(self.predicate),
                ),
            decreases self.try_iterator.remaining().len(),
        {
            match self.try_iterator.next_item() {
                None => {
                    self.finished_skipping = true;
                    return None;
                },
                Some(Ok(value)) => {
                    if !self.predicate.test(&value) {
                        self.finished_skipping = true;
                        return Some(Ok(value));
                    }
                },
                Some(Err(error)) => {
                    self.finished_skipping = true;
                    return Some(Err(error));
                },
            }
        }
    }
}

/// Ends the iteration after the first error of the inner iterator.
pub struct TryFused<TryIter> {
    try_iterator: TryIter,
    finished: bool,
}

impl<I: ResultSource> TryFused<I> {
    /// Whether the iteration has ended: after the inner iterator gave an
    /// error or ran out, no item is ever pulled from it again.
    pub closed spec fn is_finished(&self) -> bool {
        self.finished
    }

    /// An iterator that yields the items of `try_iterator` up to and including the first error.
    pub fn new(try_iterator: I) -> (r: Self)
        ensures
            r.remaining() == fuse_seq(try_iterator.remaining()),
            !r.is_finished(),
    {
        TryFused { try_iterator, finished: false }
    }
}

impl<I: ResultSource> ResultSource for TryFused<I> {
    type Ok = I::Ok;

    type Error = I::Error;

    closed spec fn remaining(&self) -> Seq<Result<<I::Ok as View>::V, I::Error>> {
        if self.finished {
            Seq::empty()
        } else {
            fuse_seq(self.try_iterator.remaining())
        }
    }

    /// Once the iteration has ended, every call gives `None` and leaves the
    /// adapter, its inner iterator included, as it was; it ends with the
    /// first error or the first `None` of the inner iterator.
    fn next_item(&mut self) -> (r: Option<Result<I::Ok, I::Error>>)
        ensures
            old(self).is_finished() ==> r is None && *final(self) == *old(self),
            (r is None || r matches Some(Err(_))) ==> final(self).is_finished(),
            r matches Some(Ok(_)) ==> !final(self).is_finished(),
    {
        if self.finished {
            None
        } else {
            match self.try_iterator.next_item() {
                None => {
                    self.finished = true;
                    None
                },
                Some(result) => {
                    self.finished = result.is_err();
                    Some(result)
                },
            }
        }
    }
}

/// Skips a number of `Ok` values of the inner iterator, passing errors through.
pub struct TrySkip<TryIter> {
    try_iterator: TryIter,
    remaining: usize,
}

impl<I: ResultSource> ResultSource for TrySkip<I> {
    type Ok = I::Ok;

    type Error = I::Error;

    closed spec fn remaining(&self) -> Seq<Result<<I::Ok as View>::V, I::Error>> {
        skip_ok(self.try_iterator.remaining(), self.remaining as nat)
    }

    fn next_item(&mut self) -> (r: Option<Result<I::Ok, I::Error>>) {
        while self.remaining > 0
            invariant
                old(self).remaining() == skip_ok(self.try_iterator.remaining(), self.remaining as nat),
            decreases self.try_iterator.remaining().len(),
        {
            match self.try_iterator.next_item() {
                None => return None,
                Some(result) => {
                    if result.is_err() {
                        return Some(result);
                    }
                },
            }
            self.remaining = self.remaining - 1;
        }
        self.try_iterator.next_item()
    }
}

/// Yields the items of the inner iterator until an `Ok` value fails a test.
pub struct TryTakeWhile<TryIter, Predicate> {
    try_iterator: TryIter,
    predicate: Predicate,
    still_taking: bool,
}

impl<I: ResultSource, P: OkPredicate<I::Ok>> TryTakeWhile<I, P> {
    /// Whether the adapter still takes items: it stops for good at the first
    /// `Ok` value that fails its test.
    pub closed spec fn is_taking(&self) -> bool {
        self.still_taking
    }

    /// Whether the next call ends the taking: the adapter still takes, and
    /// the next item of the inner iterator is an `Ok` value that fails the test.
    pub closed spec fn stops_next(&self) -> bool {
        &&& self.still_taking
        &&& self.try_iterator.remaining().len() > 0
        &&& self.try_iterator.remaining()[0] is Ok
        &&& !self.predicate.spec_test(self.try_iterator.remaining()[0]->Ok_0)
    }
}

impl<I: ResultSource, P: OkPredicate<I::Ok>> ResultSource for TryTakeWhile<I, P> {
    type Ok = I::Ok;

    type Error = I::Error;

    closed spec fn remaining(&self) -> Seq<Result<<I::Ok as View>::V, I::Error>> {
        if self.still_taking {
            take_while_ok(self.try_iterator.remaining(), test_of::<I::Ok, P>(self.predicate))
        } else {
            Seq::empty()
        }
    }

    /// Once taking has stopped, every call gives `None` and leaves the
    /// adapter, its inner iterator included, as it was (nothing more is
    /// pulled); an error of the inner iterator is passed on without stopping.
    fn next_item(&mut self) -> (r: Option<Result<I::Ok, I::Error>>)
        ensures
            !old(self).is_taking() ==> r is None && *final(self) == *old(self),
            old(self).stops_next() ==> r is None && !final(self).is_taking(),
            r matches Some(Ok(_)) ==> final(self).is_taking(),
            r matches Some(Err(_)) ==> final(self).is_taking(),
            old(self).is_taking() && r is None ==> final(self).remaining().len() == 0,
    {
        if self.still_taking {
            match self.try_iterator.next_item() {
                None => None,
                Some(Ok(value)) => {
                    if self.predicate.test(&value) {
                        Some(Ok(value))
                    } else {
                        self.still_taking = false;
                        None
                    }
                },
                Some(Err(error)) => Some(Err(error)),
            }
        } else {
            None
        }
    }
}

/// A [`TryIterator`] over the items of a list.
pub struct TryItems<T, E> {
    items: VecDeque<Result<T, E>>,
}

impl<T: View, E> TryItems<T, E> {
    /// An iterator that yields `items` in order.
    pub fn new(items: Vec<Result<T, E>>) -> (r: Self)
        ensures
            r.remaining() == views_of(items@),
    {
        let mut items = items;
        let ghost all = items@;
        let mut queue: VecDeque<Result<T, E>> = VecDeque::new();
        while items.len() > 0
            invariant
                all == queue@ + items@,
            decreases items.len(),
        {
            let item = items.remove(0);
            queue.push_back(item);
            assert(all == queue@ + items@);
        }
        assert(queue@ =~= all);
        TryItems { items: queue }
    }
}

impl<T: View, E> ResultSource for TryItems<T, E> {
    type Ok = T;

    type Error = E;

    closed spec fn remaining(&self) -> Seq<Result<T::V, E>> {
        views_of(self.items@)
    }

    fn next_item(&mut self) -> (r: Option<Result<T, E>>) {
        let r = self.items.pop_front();
        assert(self.remaining() =~= old(self).remaining().drop_first() || old(self).remaining().len()
            == 0);
        r
    }
}

} // verus!
