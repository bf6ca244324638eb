//! Turns the relations between posts into recommendations: for each post,
//! the posts it relates to most strongly.

use crate::genealogy::relation::Relation;
use crate::post::exception::{Exception, ExceptionView};
use crate::post::{post_key, Post};
use crate::recommendation::{limit, Recommendation};
use crate::text::{dedup_seq, lemma_dedup_contains, lemma_dedup_distinct, push_signed_decimal, signed_decimal_seq};
use vstd::prelude::*;

verus! {

/// `s` with `r` placed after the relations whose score is at least its own
/// (in a list sorted by decreasing score, `r` goes after its equals).
pub open spec fn insert_by_score(s: Seq<Relation>, r: Relation) -> Seq<Relation>
    decreases s.len(),
{
    if s.len() == 0 {
        seq![r]
    } else if s[0].score >= r.score {
        seq![s[0]] + insert_by_score(s.drop_first(), r)
    } else {
        seq![r] + s
    }
}

/// The relations of `rels` from the post with `key`, by decreasing score;
/// relations with equal scores keep their order.
pub open spec fn sorted_group(rels: Seq<Relation>, key: (int, Seq<char>)) -> Seq<Relation>
    decreases rels.len(),
{
    if rels.len() == 0 {
        Seq::empty()
    } else {
        let g = sorted_group(rels.drop_last(), key);
        if post_key(rels.last().post1) == key {
            insert_by_score(g, rels.last())
        } else {
            g
        }
    }
}

/// The posts that the relations start from, as keys, in order.
pub open spec fn post1_keys(rels: Seq<Relation>) -> Seq<(int, Seq<char>)> {
    rels.map_values(|r: Relation| post_key(r.post1))
}

/// The posts that get a recommendation: each post that a relation starts
/// from, once, in order of first occurrence.
pub open spec fn recommended_keys(rels: Seq<Relation>) -> Seq<(int, Seq<char>)> {
    dedup_seq(post1_keys(rels))
}

/// The recommendation for the post with `key`: the post itself (as the
/// relation with the best score names it) and the posts of its best
/// `per_post` relations, best first.
pub open spec fn recommendation_for(rels: Seq<Relation>, key: (int, Seq<char>), per_post: int) -> (Post, Seq<Post>) {
    let g = sorted_group(rels, key);
    (g[0].post1, limit(g.map_values(|r: Relation| r.post2), per_post))
}

/// The post and the recommended posts of each recommendation.
pub open spec fn recommendations_view(recs: Seq<Recommendation>) -> Seq<(Post, Seq<Post>)> {
    recs.map_values(|r: Recommendation| (r.post, r.recommended_posts@))
}

/// What recommending `per_post` posts for each post of `rels` gives.
pub open spec fn recommend_outcome(rels: Seq<Relation>, per_post: int) -> Result<Seq<(Post, Seq<Post>)>, ExceptionView> {
    if per_post < 1 {
        Err(
            ExceptionView::IllegalArgumentException(
                "Number of recommendations per post must be greater zero: "@ + signed_decimal_seq(per_post),
            ),
        )
    } else {
        Ok(recommended_keys(rels).map_values(|k: (int, Seq<char>)| recommendation_for(rels, k, per_post)))
    }
}

/// The relations at the given indices of `rels`.
pub open spec fn at_indices(idx: Seq<usize>, rels: Seq<Relation>) -> Seq<Relation> {
    idx.map_values(|k: usize| rels[k as int])
}

/// `insert_by_score` puts `r` at the first index whose score is lower than `r`'s.
proof fn lemma_insert_at(s: Seq<Relation>, r: Relation, j: int)
    requires
        0 <= j <= s.len(),
        forall|t: int| 0 <= t < j ==> (#[trigger] s[t]).score >= r.score,
        j < s.len() ==> s[j].score < r.score,
    ensures
        insert_by_score(s, r) == s.insert(j, r),
    decreases s.len(),
{
    if s.len() == 0 {
        assert(s.insert(j, r) =~= seq![r]);
    } else if j == 0 {
        assert(s.insert(0, r) =~= seq![r] + s);
    } else {
        assert forall|t: int| 0 <= t < j - 1 implies (#[trigger] s.drop_first()[t]).score >= r.score by {
            assert(s.drop_first()[t] == s[t + 1]);
        }
        lemma_insert_at(s.drop_first(), r, j - 1);
        assert(seq![s[0]] + s.drop_first().insert(j - 1, r) =~= s.insert(j, r));
    }
}

/// `insert_by_score(s, r)` holds the relations of `s` and `r`.
proof fn lemma_insert_len_and_elements(s: Seq<Relation>, r: Relation)
    ensures
        insert_by_score(s, r).len() == s.len() + 1,
        forall|t: int| 0 <= t < insert_by_score(s, r).len() ==> #[trigger] insert_by_score(s, r)[t] == r || s.contains(insert_by_score(s, r)[t]),
    decreases s.len(),
{
    if s.len() > 0 && s[0].score >= r.score {
        lemma_insert_len_and_elements(s.drop_first(), r);
        let rest = insert_by_score(s.drop_first(), r);
        assert forall|t: int| 0 <= t < insert_by_score(s, r).len() implies #[trigger] insert_by_score(s, r)[t] == r || s.contains(insert_by_score(s, r)[t]) by {
            if t == 0 {
                assert(s.contains(s[0]));
            } else {
                assert(insert_by_score(s, r)[t] == rest[t - 1]);
                if rest[t - 1] != r {
                    let k = choose|k: int| 0 <= k < s.drop_first().len() && s.drop_first()[k] == rest[t - 1];
                    assert(s[k + 1] == rest[t - 1]);
                }
            }
        }
    } else if s.len() > 0 {
        assert forall|t: int| 0 <= t < insert_by_score(s, r).len() implies #[trigger] insert_by_score(s, r)[t] == r || s.contains(insert_by_score(s, r)[t]) by {
            if t > 0 {
                assert(insert_by_score(s, r)[t] == s[t - 1]);
            }
        }
    }
}

/// Every relation of `sorted_group(rels, key)` starts from the post with `key`.
proof fn lemma_sorted_group_keys(rels: Seq<Relation>, key: (int, Seq<char>))
    ensures
        forall|t: int| 0 <= t < sorted_group(rels, key).len() ==> post_key((#[trigger] sorted_group(rels, key)[t]).post1) == key,
    decreases rels.len(),
{
    if rels.len() > 0 {
        lemma_sorted_group_keys(rels.drop_last(), key);
        let g = sorted_group(rels.drop_last(), key);
        if post_key(rels.last().post1) == key {
            lemma_insert_len_and_elements(g, rels.last());
            assert forall|t: int| 0 <= t < sorted_group(rels, key).len() implies post_key((#[trigger] sorted_group(rels, key)[t]).post1) == key by {
                let x = insert_by_score(g, rels.last())[t];
                if x != rels.last() {
                    let k = choose|k: int| 0 <= k < g.len() && g[k] == x;
                    assert(post_key(g[k].post1) == key);
                }
            }
        }
    }
}

/// The group of a key is empty exactly where no relation starts from the post with it.
proof fn lemma_sorted_group_empty(rels: Seq<Relation>, key: (int, Seq<char>))
    ensures
        (sorted_group(rels, key).len() == 0) <==> !post1_keys(rels).contains(key),
    decreases rels.len(),
{
    if rels.len() > 0 {
        lemma_sorted_group_empty(rels.drop_last(), key);
        let g = sorted_group(rels.drop_last(), key);
        assert(post1_keys(rels.drop_last()) =~= post1_keys(rels).drop_last());
        if post_key(rels.last().post1) == key {
            lemma_insert_len_and_elements(g, rels.last());
            assert(post1_keys(rels)[rels.len() - 1] == key);
        } else {
            if post1_keys(rels).contains(key) {
                let k = choose|k: int| 0 <= k < post1_keys(rels).len() && post1_keys(rels)[k] == key;
                assert(k < rels.len() - 1);
                assert(post1_keys(rels.drop_last())[k] == key);
            }
            if post1_keys(rels.drop_last()).contains(key) {
                let k = choose|k: int| 0 <= k < post1_keys(rels.drop_last()).len() && post1_keys(rels.drop_last())[k] == key;
                assert(post1_keys(rels)[k] == key);
            }
        }
    }
}

/// The relations at the given indices, with `k` inserted at position `j`.
proof fn lemma_at_indices_insert(idx: Seq<usize>, rels: Seq<Relation>, j: int, k: usize)
    requires
        0 <= j <= idx.len(),
    ensures
        at_indices(idx.insert(j, k), rels) == at_indices(idx, rels).insert(j, rels[k as int]),
{
    assert(at_indices(idx.insert(j, k), rels) =~= at_indices(idx, rels).insert(j, rels[k as int]));
}

/// The index of the first relation of `s` whose score is lower than that of `r`
/// (the length of `s` where there is none).
pub open spec fn first_lower(s: Seq<Relation>, r: Relation) -> int
    decreases s.len(),
{
    if s.len() == 0 || s[0].score < r.score {
        0
    } else {
        first_lower(s.drop_first(), r) + 1
    }
}

proof fn lemma_first_lower(s: Seq<Relation>, r: Relation)
    ensures
        0 <= first_lower(s, r) <= s.len(),
        forall|t: int| 0 <= t < first_lower(s, r) ==> (#[trigger] s[t]).score >= r.score,
        first_lower(s, r) < s.len() ==> s[first_lower(s, r)].score < r.score,
    decreases s.len(),
{
    if s.len() > 0 && s[0].score >= r.score {
        lemma_first_lower(s.drop_first(), r);
        assert forall|t: int| 0 <= t < first_lower(s, r) implies (#[trigger] s[t]).score >= r.score by {
            if t > 0 {
                assert(s[t] == s.drop_first()[t - 1]);
            }
        }
    }
}

/// Scores do not increase along `s`.
pub open spec fn by_decreasing_score(s: Seq<Relation>) -> bool {
    forall|a: int, b: int| 0 <= a < b < s.len() ==> #[trigger] s[a].score >= #[trigger] s[b].score
}

proof fn lemma_insert_keeps_order(s: Seq<Relation>, r: Relation)
    requires
        by_decreasing_score(s),
    ensures
        by_decreasing_score(insert_by_score(s, r)),
{
    lemma_first_lower(s, r);
    let j = first_lower(s, r);
    lemma_insert_at(s, r, j);
    let t = s.insert(j, r);
    assert forall|a: int, b: int| 0 <= a < b < t.len() implies #[trigger] t[a].score >= #[trigger] t[b].score by {
        if b < j {
            assert(t[a] == s[a] && t[b] == s[b]);
        } else if b == j {
            assert(t[a] == s[a]);
        } else if a < j {
            assert(t[a] == s[a] && t[b] == s[b - 1]);
        } else if a == j {
            assert(t[b] == s[b - 1]);
            assert(s[j].score < r.score);
        } else {
            assert(t[a] == s[a - 1] && t[b] == s[b - 1]);
        }
    }
}

/// The relations of a post come by decreasing score, so that a recommendation
/// names the posts of the best relations first, and no relation left out of
/// it scores higher than one that is in it.
pub proof fn law_group_by_decreasing_score(rels: Seq<Relation>, key: (int, Seq<char>))
    ensures
        by_decreasing_score(sorted_group(rels, key)),
    decreases rels.len(),
{
    if rels.len() > 0 {
        law_group_by_decreasing_score(rels.drop_last(), key);
        if post_key(rels.last().post1) == key {
            lemma_insert_keeps_order(sorted_group(rels.drop_last(), key), rels.last());
        }
    }
}

/// The group of a post holds exactly the relations that start from it, each
/// as often as it occurs among the relations.
pub proof fn law_group_holds_the_post_relations(rels: Seq<Relation>, key: (int, Seq<char>))
    ensures
        sorted_group(rels, key).to_multiset() == rels.filter(|r: Relation| post_key(r.post1) == key).to_multiset(),
    decreases rels.len(),
{
    broadcast use vstd::seq_lib::group_to_multiset_ensures;
    reveal(Seq::filter);
    if rels.len() == 0 {
        assert(rels.filter(|r: Relation| post_key(r.post1) == key) =~= Seq::<Relation>::empty());
    } else {
        law_group_holds_the_post_relations(rels.drop_last(), key);
        let g = sorted_group(rels.drop_last(), key);
        if post_key(rels.last().post1) == key {
            lemma_first_lower(g, rels.last());
            lemma_insert_at(g, rels.last(), first_lower(g, rels.last()));
            vstd::seq_lib::to_multiset_insert(g, first_lower(g, rels.last()), rels.last());
        }
    }
}

/// Each post that a relation starts from gets exactly one recommendation: the
/// recommended posts are the posts the relations start from, each once; each
/// recommendation is for its own post and names at most `per_post` posts.
pub proof fn law_one_recommendation_per_post(rels: Seq<Relation>, per_post: int)
    requires
        per_post >= 1,
    ensures
        recommend_outcome(rels, per_post) is Ok,
        recommend_outcome(rels, per_post)->Ok_0.len() == recommended_keys(rels).len(),
        forall|k: (int, Seq<char>)| #[trigger] recommended_keys(rels).contains(k) <==> post1_keys(rels).contains(k),
        forall|a: int, b: int| 0 <= a < b < recommended_keys(rels).len() ==> recommended_keys(rels)[a] != recommended_keys(rels)[b],
        forall|g: int| 0 <= g < recommended_keys(rels).len() ==> post_key(#[trigger] recommend_outcome(rels, per_post)->Ok_0[g].0) == recommended_keys(rels)[g],
        forall|g: int| 0 <= g < recommended_keys(rels).len() ==> (#[trigger] recommend_outcome(rels, per_post)->Ok_0[g]).1.len() <= per_post,
{
    lemma_dedup_contains(post1_keys(rels));
    lemma_dedup_distinct(post1_keys(rels));
    let keys = recommended_keys(rels);
    assert forall|g: int| 0 <= g < keys.len() implies post_key(#[trigger] recommend_outcome(rels, per_post)->Ok_0[g].0) == keys[g] by {
        assert(post1_keys(rels).contains(keys[g]));
        lemma_sorted_group_empty(rels, keys[g]);
        lemma_sorted_group_keys(rels, keys[g]);
        assert(post_key(sorted_group(rels, keys[g])[0].post1) == keys[g]);
    }
}

/// Each recommendation names as many posts as `per_post` asks for, or all the
/// posts its post relates to where there are fewer: the second posts of its
/// relations, best score first.
pub proof fn law_recommendation_size(rels: Seq<Relation>, per_post: int, g: int)
    requires
        per_post >= 1,
        0 <= g < recommended_keys(rels).len(),
    ensures
        ({
            let key = recommended_keys(rels)[g];
            let count = rels.filter(|r: Relation| post_key(r.post1) == key).len() as int;
            let posts = recommend_outcome(rels, per_post)->Ok_0[g].1;
            &&& posts.len() == if per_post < count { per_post } else { count }
            &&& forall|i: int| 0 <= i < posts.len() ==> #[trigger] posts[i] == sorted_group(rels, key)[i].post2
        }),
{
    let key = recommended_keys(rels)[g];
    law_group_holds_the_post_relations(rels, key);
    vstd::seq_lib::to_multiset_len(sorted_group(rels, key));
    vstd::seq_lib::to_multiset_len(rels.filter(|r: Relation| post_key(r.post1) == key));
}

/// Recommends posts to the readers of other posts.
pub struct Recommender;

impl Recommender {
    /// A recommender.
    pub fn new() -> (r: Recommender) {
        Recommender
    }

    /// For each post that a relation starts from, the posts of its `per_post`
    /// best relations, by decreasing score (relations with equal scores keep
    /// their order); a `per_post` below one is refused with an
    /// `IllegalArgumentException`. The recommendations come in the order in
    /// which their posts first occur among the relations.
    pub fn recommend(&self, relations: Vec<Relation>, per_post: i32) -> (r: Result<Vec<Recommendation>, Exception>)
        ensures
            match r {
                Ok(recs) => recommend_outcome(relations@, per_post as int) == Ok::<_, ExceptionView>(recommendations_view(recs@)),
                Err(e) => recommend_outcome(relations@, per_post as int) == Err::<Seq<(Post, Seq<Post>)>, _>(e@),
            },
    {
        if per_post < 1 {
            let mut message = String::from_str("Number of recommendations per post must be greater zero: ");
            push_signed_decimal(&mut message, per_post);
            return Err(Exception::IllegalArgumentException(message));
        }
        let ghost rels = relations@;
        let n = relations.len();
        let mut groups: Vec<Vec<usize>> = Vec::new();
        let mut i: usize = 0;
        assert(rels.take(0) =~= Seq::<Relation>::empty());
        assert(recommended_keys(rels.take(0)) =~= Seq::<(int, Seq<char>)>::empty());
        while i < n
            invariant
                i <= n,
                n == rels.len(),
                rels == relations@,
                groups@.len() == recommended_keys(rels.take(i as int)).len(),
                forall|g: int| 0 <= g < groups@.len() ==> at_indices(#[trigger] groups@[g]@, rels) == sorted_group(rels.take(i as int), recommended_keys(rels.take(i as int))[g]),
                forall|g: int| 0 <= g < groups@.len() ==> (#[trigger] groups@[g]@).len() > 0,
                forall|g: int, t: int| 0 <= g < groups@.len() && 0 <= t < groups@[g]@.len() ==> #[trigger] groups@[g]@[t] < i,
            decreases n - i,
        {
            let ghost keys = recommended_keys(rels.take(i as int));
            let ghost key = post_key(rels[i as int].post1);
            proof {
                assert(rels.take(i + 1).drop_last() =~= rels.take(i as int));
                assert(rels.take(i + 1).last() == rels[i as int]);
                assert(post1_keys(rels.take(i + 1)) =~= post1_keys(rels.take(i as int)).push(key));
                lemma_dedup_contains(post1_keys(rels.take(i as int)));
            }
            let mut found = false;
            let mut g: usize = 0;
            while g < groups.len()
                invariant
                    g <= groups@.len(),
                    i < n,
                    n == rels.len(),
                    rels == relations@,
                    keys == recommended_keys(rels.take(i as int)),
                    key == post_key(rels[i as int].post1),
                    groups@.len() == keys.len(),
                    forall|h: int| 0 <= h < groups@.len() ==> at_indices(#[trigger] groups@[h]@, rels) == sorted_group(rels.take(i as int), keys[h]),
                    forall|h: int| 0 <= h < groups@.len() ==> (#[trigger] groups@[h]@).len() > 0,
                    forall|h: int, t: int| 0 <= h < groups@.len() && 0 <= t < groups@[h]@.len() ==> #[trigger] groups@[h]@[t] < i,
                    !found ==> forall|h: int| 0 <= h < g ==> keys[h] != key,
                    found ==> g < groups@.len() && keys[g as int] == key,
                ensures
                    !found ==> g >= groups@.len(),
                decreases groups@.len() - g,
            {
                let first = groups[g][0];
                proof {
                    lemma_sorted_group_keys(rels.take(i as int), keys[g as int]);
                    assert(at_indices(groups@[g as int]@, rels)[0] == rels[first as int]);
                    assert(sorted_group(rels.take(i as int), keys[g as int])[0] == rels[first as int]);
                }
                if relations[first].post1.same_post(&relations[i].post1) {
                    found = true;
                    break;
                }
                g = g + 1;
            }
            if found {
                let score = relations[i].score;
                let len = groups[g].len();
                let mut j: usize = 0;
                while j < len && relations[groups[g][j]].score >= score
                    invariant
                        j <= len,
                        g < groups@.len(),
                        len == groups@[g as int]@.len(),
                        score == rels[i as int].score,
                        rels == relations@,
                        forall|t: int| 0 <= t < groups@[g as int]@.len() ==> #[trigger] groups@[g as int]@[t] < i,
                        i < n,
                        n == rels.len(),
                        forall|t: int| 0 <= t < j ==> (#[trigger] at_indices(groups@[g as int]@, rels)[t]).score >= score,
                    decreases len - j,
                {
                    j = j + 1;
                }
                let ghost old_groups = groups@;
                let ghost s = at_indices(old_groups[g as int]@, rels);
                proof {
                    lemma_insert_at(s, rels[i as int], j as int);
                    lemma_at_indices_insert(old_groups[g as int]@, rels, j as int, i);
                    assert(keys.contains(key));
                    let pk = post1_keys(rels.take(i + 1));
                    assert(pk.drop_last() =~= post1_keys(rels.take(i as int)));
                    assert(pk.last() == key);
                    assert(recommended_keys(rels.take(i + 1)) == keys);
                }
                groups[g].insert(j, i);
                proof {
                    assert forall|h: int| 0 <= h < groups@.len() implies at_indices(#[trigger] groups@[h]@, rels) == sorted_group(rels.take(i + 1), recommended_keys(rels.take(i + 1))[h]) by {
                        if h != g {
                            assert(groups@[h] == old_groups[h]);
                            lemma_dedup_distinct(post1_keys(rels.take(i as int)));
                        }
                    }
                    assert forall|h: int, t: int| 0 <= h < groups@.len() && 0 <= t < groups@[h]@.len() implies #[trigger] groups@[h]@[t] < i + 1 by {
                        if h != g {
                            assert(groups@[h] == old_groups[h]);
                        } else if t != j {
                            if t < j {
                                assert(groups@[h]@[t] == old_groups[h]@[t]);
                            } else {
                                assert(groups@[h]@[t] == old_groups[h]@[t - 1]);
                            }
                        }
                    }
                    assert forall|h: int| 0 <= h < groups@.len() implies (#[trigger] groups@[h]@).len() > 0 by {
                        if h != g {
                            assert(groups@[h] == old_groups[h]);
                        }
                    }
                }
            } else {
                let ghost old_groups = groups@;
                proof {
                    assert(!keys.contains(key));
                    let pk = post1_keys(rels.take(i + 1));
                    assert(pk.drop_last() =~= post1_keys(rels.take(i as int)));
                    assert(pk.last() == key);
                    lemma_sorted_group_empty(rels.take(i as int), key);
                    assert(sorted_group(rels.take(i as int), key) =~= Seq::<Relation>::empty());
                    assert(recommended_keys(rels.take(i + 1)) == keys.push(key));
                }
                let mut group: Vec<usize> = Vec::new();
                group.push(i);
                groups.push(group);
                proof {
                    assert(at_indices(groups@[groups@.len() - 1]@, rels) =~= seq![rels[i as int]]);
                    assert forall|h: int| 0 <= h < groups@.len() implies at_indices(#[trigger] groups@[h]@, rels) == sorted_group(rels.take(i + 1), recommended_keys(rels.take(i + 1))[h]) by {
                        if h < old_groups.len() {
                            assert(groups@[h] == old_groups[h]);
                            assert(keys[h] != key);
                        }
                    }
                    assert forall|h: int, t: int| 0 <= h < groups@.len() && 0 <= t < groups@[h]@.len() implies #[trigger] groups@[h]@[t] < i + 1 by {
                        if h < old_groups.len() {
                            assert(groups@[h] == old_groups[h]);
                        }
                    }
                    assert forall|h: int| 0 <= h < groups@.len() implies (#[trigger] groups@[h]@).len() > 0 by {
                        if h < old_groups.len() {
                            assert(groups@[h] == old_groups[h]);
                        }
                    }
                }
            }
            i = i + 1;
        }
        assert(rels.take(n as int) =~= rels);
        let ghost keys = recommended_keys(rels);
        let mut recommendations: Vec<Recommendation> = Vec::new();
        let mut g: usize = 0;
        while g < groups.len()
            invariant
                g <= groups@.len(),
                per_post >= 1,
                n == rels.len(),
                rels == relations@,
                keys == recommended_keys(rels),
                groups@.len() == keys.len(),
                forall|h: int| 0 <= h < groups@.len() ==> at_indices(#[trigger] groups@[h]@, rels) == sorted_group(rels, keys[h]),
                forall|h: int| 0 <= h < groups@.len() ==> (#[trigger] groups@[h]@).len() > 0,
                forall|h: int, t: int| 0 <= h < groups@.len() && 0 <= t < groups@[h]@.len() ==> #[trigger] groups@[h]@[t] < n,
                recommendations_view(recommendations@) == keys.take(g as int).map_values(|k: (int, Seq<char>)| recommendation_for(rels, k, per_post as int)),
            decreases groups@.len() - g,
        {
            let ghost members = at_indices(groups@[g as int]@, rels);
            let first = groups[g][0];
            let post = relations[first].post1.share();
            let mut posts: Vec<Post> = Vec::new();
            let mut t: usize = 0;
            while t < groups[g].len()
                invariant
                    g < groups@.len(),
                    t <= groups@[g as int]@.len(),
                    rels == relations@,
                    members == at_indices(groups@[g as int]@, rels),
                    forall|u: int| 0 <= u < groups@[g as int]@.len() ==> #[trigger] groups@[g as int]@[u] < n,
                    n == rels.len(),
                    posts@ == members.take(t as int).map_values(|r: Relation| r.post2),
                decreases groups@[g as int]@.len() - t,
            {
                let k = groups[g][t];
                posts.push(relations[k].post2.share());
                assert(members[t as int] == rels[k as int]);
                assert(posts@ =~= members.take(t + 1).map_values(|r: Relation| r.post2));
                t = t + 1;
            }
            assert(members.take(members.len() as int) =~= members);
            let recommendation = match Recommendation::from(post, posts, per_post) {
                Ok(rec) => rec,
                Err(e) => return Err(e),
            };
            let ghost before = recommendations@;
            recommendations.push(recommendation);
            proof {
                assert(members[0] == rels[first as int]);
                assert(recommendations_view(recommendations@) =~= recommendations_view(before).push(
                    recommendation_for(rels, keys[g as int], per_post as int),
                ));
                assert(keys.take(g + 1) =~= keys.take(g as int).push(keys[g as int]));
                assert(keys.take(g + 1).map_values(|k: (int, Seq<char>)| recommendation_for(rels, k, per_post as int)) =~= keys.take(g as int).map_values(|k: (int, Seq<char>)| recommendation_for(rels, k, per_post as int)).push(recommendation_for(rels, keys[g as int], per_post as int)));
            }
            g = g + 1;
        }
        assert(keys.take(keys.len() as int) =~= keys);
        Ok(recommendations)
    }
}

} // verus!
