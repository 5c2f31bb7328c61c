use vstd::prelude::*;
use vstd::multiset::Multiset;

use crate::article::Article;

verus! {

broadcast use vstd::seq_lib::group_to_multiset_ensures;

/// An article qualifies as new exactly when its identifier has not been seen
/// and its publish instant lies strictly after the watermark (a missing
/// watermark excludes nothing).
pub open spec fn qualifies(a: Article, seen: Set<i64>, watermark: Option<i64>) -> bool {
    &&& !seen.contains(a.id)
    &&& (watermark is None || a.data > watermark->0)
}

/// The identifiers occurring in a sequence of articles.
pub open spec fn ids_of(fetched: Seq<Article>) -> Set<i64> {
    fetched.map_values(|a: Article| a.id).to_set()
}

/// The articles of `fetched` that qualify as new, in fetched order. An
/// identifier counts once per batch: of two fetched articles sharing an
/// identifier, only the first qualifies — each article is delivered exactly
/// once.
pub open spec fn spec_filter_new(
    fetched: Seq<Article>,
    seen: Set<i64>,
    watermark: Option<i64>,
) -> Seq<Article>
    decreases fetched.len(),
{
    if fetched.len() == 0 {
        Seq::empty()
    } else {
        let rest = spec_filter_new(fetched.drop_last(), seen, watermark);
        let a = fetched.last();
        if qualifies(a, seen, watermark) && !ids_of(fetched.drop_last()).contains(a.id) {
            rest.push(a)
        } else {
            rest
        }
    }
}

/// The identifiers of `ids` not contained in `seen`, first occurrences only,
/// in order.
pub open spec fn spec_unseen(ids: Seq<i64>, seen: Set<i64>) -> Seq<i64>
    decreases ids.len(),
{
    if ids.len() == 0 {
        Seq::empty()
    } else {
        let rest = spec_unseen(ids.drop_last(), seen);
        let x = ids.last();
        if !seen.contains(x) && !ids.drop_last().contains(x) {
            rest.push(x)
        } else {
            rest
        }
    }
}

/// Delivery order: ascending publish instant, ties broken by ascending identifier.
pub open spec fn key_le(a: Article, b: Article) -> bool {
    a.data < b.data || (a.data == b.data && a.id <= b.id)
}

/// Whether the articles stand in delivery order.
pub open spec fn sorted_by_key(s: Seq<Article>) -> bool {
    forall|i: int, j: int| 0 <= i < j < s.len() ==> key_le(s[i], s[j])
}

/// The dedup and watermark state of the poll loop: the set of identifiers
/// already observed, and the greatest publish instant among articles already
/// handed out for delivery.
pub struct Tracker {
    seen: Vec<i64>,
    watermark: Option<i64>,
}

impl Tracker {
    /// The identifiers already observed.
    pub closed spec fn seen_ids(&self) -> Set<i64> {
        self.seen@.to_set()
    }

    /// The watermark: the greatest publish instant already handed out, if any.
    pub closed spec fn watermark_spec(&self) -> Option<i64> {
        self.watermark
    }

    /// A fresh tracker: nothing seen, no watermark.
    pub fn new() -> (t: Tracker)
        ensures
            t.seen_ids() == Set::<i64>::empty(),
            t.watermark_spec() is None,
    {
        let t = Tracker { seen: Vec::new(), watermark: None };
        proof {
            assert(t.seen@.to_set() =~= Set::<i64>::empty());
        }
        t
    }

    pub fn watermark(&self) -> (w: Option<i64>)
        ensures
            w == self.watermark_spec(),
    {
        self.watermark
    }

    /// Whether the identifier has been observed already.
    pub fn contains_id(&self, id: i64) -> (b: bool)
        ensures
            b == self.seen_ids().contains(id),
    {
        let r = vec_contains(&self.seen, id);
        proof {
            assert(self.seen@.to_set().contains(id) == self.seen@.contains(id));
        }
        r
    }

    /// The identifiers of `ids` that have not been observed yet, each once,
    /// in order: the ones whose article details are worth fetching.
    pub fn unseen_ids(&self, ids: &Vec<i64>) -> (r: Vec<i64>)
        ensures
            r@ == spec_unseen(ids@, self.seen_ids()),
            r@.no_duplicates(),
    {
        let mut r: Vec<i64> = Vec::new();
        let mut k: usize = 0;
        while k < ids.len()
            invariant
                k <= ids.len(),
                r@ == spec_unseen(ids@.subrange(0, k as int), self.seen_ids()),
            decreases ids.len() - k,
        {
            let ghost prefix = ids@.subrange(0, k as int);
            let id = ids[k];
            if !self.contains_id(id) && !vec_contains(&r, id) {
                r.push(id);
            }
            proof {
                lemma_unseen_contains(prefix, self.seen_ids());
                assert(ids@.subrange(0, k + 1 as int) =~= prefix.push(id));
                lemma_unseen_push(prefix, id, self.seen_ids());
            }
            k = k + 1;
        }
        proof {
            assert(ids@.subrange(0, ids@.len() as int) =~= ids@);
            lemma_unseen_distinct(ids@, self.seen_ids());
        }
        r
    }

    /// Splits `fetched` into the articles that qualify as new against the
    /// tracker's state, returned oldest-first with each identifier at most
    /// once, and records every fetched identifier as seen. The watermark
    /// moves to the greatest publish instant among the qualifying articles
    /// and stays where it was when none qualify; it never moves backwards.
    pub fn filter_new(&mut self, fetched: Vec<Article>) -> (fresh: Vec<Article>)
        ensures
            sorted_by_key(fresh@),
            forall|i: int|
                0 <= i < fresh@.len() ==> qualifies(
                    #[trigger] fresh@[i],
                    old(self).seen_ids(),
                    old(self).watermark_spec(),
                ),
            forall|i: int|
                0 <= i < fresh@.len() && old(self).watermark_spec() is Some ==> (
                #[trigger] fresh@[i]).data > old(self).watermark_spec()->0,
            forall|i: int, j: int|
                0 <= i < j < fresh@.len() ==> (#[trigger] fresh@[i]).id != (
                #[trigger] fresh@[j]).id,
            fresh@.to_multiset() == spec_filter_new(
                fetched@,
                old(self).seen_ids(),
                old(self).watermark_spec(),
            ).to_multiset(),
            final(self).seen_ids() == old(self).seen_ids() + ids_of(fetched@),
            final(self).watermark_spec() == if fresh@.len() == 0 {
                old(self).watermark_spec()
            } else {
                Some(fresh@.last().data)
            },
            old(self).watermark_spec() is Some ==> final(self).watermark_spec() is Some
                && final(self).watermark_spec()->0 >= old(self).watermark_spec()->0,
    {
        let ghost seen0 = self.seen_ids();
        let ghost wm0 = self.watermark;
        let ghost all = fetched@;
        let mut fetched = fetched;
        let mut fresh: Vec<Article> = Vec::new();
        let ghost mut processed: Seq<Article> = Seq::empty();
        proof {
            assert(ids_of(processed) =~= Set::<i64>::empty());
            assert(self.seen@.to_set() =~= seen0 + ids_of(processed));
        }
        while fetched.len() > 0
            invariant
                processed + fetched@ == all,
                fresh@ == spec_filter_new(processed, seen0, wm0),
                self.seen_ids() == seen0 + ids_of(processed),
                self.watermark == wm0,
            decreases fetched.len(),
        {
            let ghost fetched0 = fetched@;
            let a = fetched.remove(0);
            proof {
                assert(fetched0 =~= seq![a] + fetched@);
                assert(processed.push(a) + fetched@ =~= all);
            }
            let dup = self.contains_id(a.id);
            let q = !dup && match self.watermark {
                None => true,
                Some(w) => a.data > w,
            };
            let ghost seen_before = self.seen@;
            if !dup {
                self.seen.push(a.id);
                proof {
                    assert(seen_before.push(a.id) =~= seen_before + seq![a.id]);
                    Seq::lemma_to_set_insert_commutes(seen_before, a.id);
                }
            }
            proof {
                lemma_filter_new_push(processed, a, seen0, wm0);
                assert(q == (qualifies(a, seen0, wm0) && !ids_of(processed).contains(a.id)));
                let proc_ids = processed.map_values(|ar: Article| ar.id);
                assert(processed.push(a).map_values(|ar: Article| ar.id) =~= proc_ids.push(a.id));
                assert(proc_ids.push(a.id) =~= proc_ids + seq![a.id]);
                Seq::lemma_to_set_insert_commutes(proc_ids, a.id);
                assert(ids_of(processed.push(a)) =~= ids_of(processed).insert(a.id));
                assert(self.seen_ids() =~= seen0 + ids_of(processed.push(a)));
            }
            if q {
                fresh.push(a);
            }
            proof {
                processed = processed.push(a);
            }
        }
        proof {
            assert(processed =~= all);
        }

        // Delivery order, and the new watermark.
        let fresh = sort_articles(fresh);
        proof {
            let filtered = spec_filter_new(all, seen0, wm0);
            lemma_filter_new_qualifies(all, seen0, wm0);
            assert forall|i: int| 0 <= i < fresh@.len() implies qualifies(
                #[trigger] fresh@[i],
                seen0,
                wm0,
            ) by {
                assert(fresh@.to_multiset().contains(fresh@[i]));
                assert(filtered.to_multiset().contains(fresh@[i]));
                assert(filtered.contains(fresh@[i]));
                let w = choose|w: int| 0 <= w < filtered.len() && filtered[w] == fresh@[i];
                assert(qualifies(filtered[w], seen0, wm0));
            }
            lemma_filter_new_distinct(all, seen0, wm0);
            lemma_multiset_keeps_distinct_ids(filtered, fresh@);
        }
        if fresh.len() > 0 {
            self.watermark = Some(fresh[fresh.len() - 1].data);
        }
        fresh
    }
}

/// Law: filtering is idempotent. `filter_new` records every fetched
/// identifier as seen, so a second call on the same articles, against the
/// state the first call left behind, qualifies nothing — whatever the
/// watermark has become in between.
pub proof fn lemma_filter_new_idempotent(
    fetched: Seq<Article>,
    seen: Set<i64>,
    watermark: Option<i64>,
)
    ensures
        spec_filter_new(fetched, seen + ids_of(fetched), watermark).len() == 0,
{
    let seen2 = seen + ids_of(fetched);
    assert forall|i: int| 0 <= i < fetched.len() implies !qualifies(
        #[trigger] fetched[i],
        seen2,
        watermark,
    ) by {
        let ids = fetched.map_values(|a: Article| a.id);
        assert(ids[i] == fetched[i].id);
        assert(ids.contains(fetched[i].id));
        assert(ids.to_set().contains(fetched[i].id));
    }
    lemma_filter_new_none(fetched, seen2, watermark);
}

/// If nothing qualifies, the filter keeps nothing.
proof fn lemma_filter_new_none(fetched: Seq<Article>, seen: Set<i64>, watermark: Option<i64>)
    requires
        forall|i: int| 0 <= i < fetched.len() ==> !qualifies(#[trigger] fetched[i], seen, watermark),
    ensures
        spec_filter_new(fetched, seen, watermark).len() == 0,
    decreases fetched.len(),
{
    if fetched.len() > 0 {
        lemma_filter_new_none(fetched.drop_last(), seen, watermark);
    }
}

/// Filtering a batch extended by one article keeps the old result and
/// appends the article exactly when it qualifies and carries a batch-new
/// identifier.
proof fn lemma_filter_new_push(s: Seq<Article>, x: Article, seen: Set<i64>, wm: Option<i64>)
    ensures
        spec_filter_new(s.push(x), seen, wm) == if qualifies(x, seen, wm) && !ids_of(s).contains(
            x.id,
        ) {
            spec_filter_new(s, seen, wm).push(x)
        } else {
            spec_filter_new(s, seen, wm)
        },
{
    assert(s.push(x).drop_last() =~= s);
    assert(s.push(x).last() == x);
}

/// Every article that the qualification filter keeps does qualify.
proof fn lemma_filter_new_qualifies(s: Seq<Article>, seen: Set<i64>, wm: Option<i64>)
    ensures
        forall|k: int|
            0 <= k < spec_filter_new(s, seen, wm).len() ==> qualifies(
                #[trigger] spec_filter_new(s, seen, wm)[k],
                seen,
                wm,
            ),
    decreases s.len(),
{
    if s.len() > 0 {
        lemma_filter_new_qualifies(s.drop_last(), seen, wm);
        let rest = spec_filter_new(s.drop_last(), seen, wm);
        let whole = spec_filter_new(s, seen, wm);
        assert forall|k: int| 0 <= k < whole.len() implies qualifies(
            #[trigger] whole[k],
            seen,
            wm,
        ) by {
            if k < rest.len() {
                assert(whole[k] == rest[k]);
                assert(qualifies(rest[k], seen, wm));
            } else {
                assert(whole[k] == s.last());
            }
        }
    }
}

/// Every identifier the filter keeps occurs in the batch.
proof fn lemma_filter_new_ids(s: Seq<Article>, seen: Set<i64>, wm: Option<i64>)
    ensures
        forall|k: int|
            0 <= k < spec_filter_new(s, seen, wm).len() ==> ids_of(s).contains(
                (#[trigger] spec_filter_new(s, seen, wm)[k]).id,
            ),
    decreases s.len(),
{
    if s.len() > 0 {
        lemma_filter_new_ids(s.drop_last(), seen, wm);
        let rest = spec_filter_new(s.drop_last(), seen, wm);
        let whole = spec_filter_new(s, seen, wm);
        assert forall|k: int| 0 <= k < whole.len() implies ids_of(s).contains(
            (#[trigger] whole[k]).id,
        ) by {
            if k < rest.len() {
                assert(whole[k] == rest[k]);
                lemma_ids_of_drop_last(s, rest[k].id);
            } else {
                assert(whole[k] == s.last());
                let ids = s.map_values(|a: Article| a.id);
                assert(ids[s.len() - 1] == s.last().id);
                assert(ids.contains(s.last().id));
            }
        }
    }
}

/// An identifier of a batch's prefix occurs in the whole batch.
proof fn lemma_ids_of_drop_last(s: Seq<Article>, id: i64)
    requires
        s.len() > 0,
        ids_of(s.drop_last()).contains(id),
    ensures
        ids_of(s).contains(id),
{
    let short = s.drop_last().map_values(|a: Article| a.id);
    let long = s.map_values(|a: Article| a.id);
    assert(short.contains(id));
    let k = choose|k: int| 0 <= k < short.len() && short[k] == id;
    assert(long[k] == id);
    assert(long.contains(id));
}

/// The filter keeps each identifier at most once.
proof fn lemma_filter_new_distinct(s: Seq<Article>, seen: Set<i64>, wm: Option<i64>)
    ensures
        forall|i: int, j: int|
            0 <= i < j < spec_filter_new(s, seen, wm).len() ==> (#[trigger] spec_filter_new(
                s,
                seen,
                wm,
            )[i]).id != (#[trigger] spec_filter_new(s, seen, wm)[j]).id,
    decreases s.len(),
{
    if s.len() > 0 {
        lemma_filter_new_distinct(s.drop_last(), seen, wm);
        lemma_filter_new_ids(s.drop_last(), seen, wm);
        let rest = spec_filter_new(s.drop_last(), seen, wm);
        let whole = spec_filter_new(s, seen, wm);
        assert forall|i: int, j: int| 0 <= i < j < whole.len() implies (#[trigger] whole[i]).id
            != (#[trigger] whole[j]).id by {
            if j < rest.len() {
                assert(whole[i] == rest[i] && whole[j] == rest[j]);
            } else {
                assert(whole[i] == rest[i]);
                assert(whole[j] == s.last());
                assert(ids_of(s.drop_last()).contains(rest[i].id));
            }
        }
    }
}

/// Pairwise-distinct identifiers survive any reordering: a sequence with the
/// same multiset of articles has them too.
proof fn lemma_multiset_keeps_distinct_ids(s: Seq<Article>, t: Seq<Article>)
    requires
        forall|i: int, j: int| 0 <= i < j < s.len() ==> (#[trigger] s[i]).id != (#[trigger] s[j]).id,
        t.to_multiset() == s.to_multiset(),
    ensures
        forall|i: int, j: int| 0 <= i < j < t.len() ==> (#[trigger] t[i]).id != (#[trigger] t[j]).id,
{
    assert(s.no_duplicates()) by {
        assert forall|i: int, j: int|
            0 <= i < s.len() && 0 <= j < s.len() && i != j implies s[i] != s[j] by {
            if i < j {
                assert(s[i].id != s[j].id);
            } else {
                assert(s[j].id != s[i].id);
            }
        }
    }
    s.lemma_multiset_has_no_duplicates();
    t.lemma_multiset_has_no_duplicates_conv();
    assert forall|i: int, j: int| 0 <= i < j < t.len() implies (#[trigger] t[i]).id != (
    #[trigger] t[j]).id by {
        if t[i].id == t[j].id {
            assert(t[i] != t[j]);
            assert(t.contains(t[i]));
            assert(t.contains(t[j]));
            assert(s.to_multiset().contains(t[i]));
            assert(s.to_multiset().contains(t[j]));
            assert(s.contains(t[i]));
            assert(s.contains(t[j]));
            let ki = choose|k: int| 0 <= k < s.len() && s[k] == t[i];
            let kj = choose|k: int| 0 <= k < s.len() && s[k] == t[j];
            assert(ki != kj);
            if ki < kj {
                assert(s[ki].id != s[kj].id);
            } else {
                assert(s[kj].id != s[ki].id);
            }
            assert(false);
        }
    }
}

/// One step of the unseen filter.
proof fn lemma_unseen_push(s: Seq<i64>, x: i64, seen: Set<i64>)
    ensures
        spec_unseen(s.push(x), seen) == if !seen.contains(x) && !s.contains(x) {
            spec_unseen(s, seen).push(x)
        } else {
            spec_unseen(s, seen)
        },
{
    assert(s.push(x).drop_last() =~= s);
    assert(s.push(x).last() == x);
}

/// The unseen filter returns exactly the unseen members of `ids`.
proof fn lemma_unseen_contains(ids: Seq<i64>, seen: Set<i64>)
    ensures
        forall|x: i64|
            #[trigger] spec_unseen(ids, seen).contains(x) <==> (ids.contains(x) && !seen.contains(
                x,
            )),
    decreases ids.len(),
{
    if ids.len() > 0 {
        lemma_unseen_contains(ids.drop_last(), seen);
        let prefix = ids.drop_last();
        let rest = spec_unseen(prefix, seen);
        let whole = spec_unseen(ids, seen);
        let x0 = ids.last();
        assert forall|x: i64| #[trigger] whole.contains(x) implies (ids.contains(x)
            && !seen.contains(x)) by {
            let k = choose|k: int| 0 <= k < whole.len() && whole[k] == x;
            if k < rest.len() {
                assert(whole[k] == rest[k]);
                assert(rest.contains(x));
                assert(prefix.contains(x));
                let m = choose|m: int| 0 <= m < prefix.len() && prefix[m] == x;
                assert(ids[m] == x);
                assert(ids.contains(x));
            } else {
                assert(x == x0);
                assert(ids[ids.len() - 1] == x);
                assert(ids.contains(x));
            }
        }
        assert forall|x: i64| ids.contains(x) && !seen.contains(x) implies #[trigger] whole.contains(
            x,
        ) by {
            let k = choose|k: int| 0 <= k < ids.len() && ids[k] == x;
            if k < ids.len() - 1 {
                assert(prefix[k] == x);
                assert(prefix.contains(x));
                assert(rest.contains(x));
                let m = choose|m: int| 0 <= m < rest.len() && rest[m] == x;
                assert(whole[m] == x);
                assert(whole.contains(x));
            } else {
                assert(x == x0);
                if !prefix.contains(x0) {
                    assert(whole == rest.push(x0));
                    assert(whole[whole.len() - 1] == x);
                    assert(whole.contains(x));
                } else {
                    assert(rest.contains(x));
                    let m = choose|m: int| 0 <= m < rest.len() && rest[m] == x;
                    assert(whole[m] == x);
                    assert(whole.contains(x));
                }
            }
        }
    }
}

/// The unseen filter never returns an identifier twice.
proof fn lemma_unseen_distinct(ids: Seq<i64>, seen: Set<i64>)
    ensures
        spec_unseen(ids, seen).no_duplicates(),
    decreases ids.len(),
{
    if ids.len() > 0 {
        lemma_unseen_distinct(ids.drop_last(), seen);
        lemma_unseen_contains(ids.drop_last(), seen);
        let rest = spec_unseen(ids.drop_last(), seen);
        let x = ids.last();
        if !seen.contains(x) && !ids.drop_last().contains(x) {
            assert(!rest.contains(x));
            assert forall|i: int, j: int|
                0 <= i < j < rest.push(x).len() implies rest.push(x)[i] != rest.push(x)[j] by {
                if j < rest.len() {
                } else {
                    assert(rest.push(x)[j] == x);
                    assert(rest.contains(rest[i]));
                }
            }
        }
    }
}

/// Sorts articles into delivery order: ascending publish instant, ties broken
/// by ascending identifier. Insertion sort; keeps the multiset of articles.
fn sort_articles(v: Vec<Article>) -> (r: Vec<Article>)
    ensures
        sorted_by_key(r@),
        r@.to_multiset() == v@.to_multiset(),
{
    let ghost all = v@;
    let mut input = v;
    let mut out: Vec<Article> = Vec::new();
    proof {
        assert(out@.to_multiset().add(input@.to_multiset()) =~= all.to_multiset());
    }
    while input.len() > 0
        invariant
            sorted_by_key(out@),
            out@.to_multiset().add(input@.to_multiset()) == all.to_multiset(),
        decreases input.len(),
    {
        let ghost input0 = input@;
        let x = match input.pop() {
            Some(x) => x,
            None => vstd::pervasive::unreached(),
        };
        proof {
            assert(input@ =~= input0.remove(input0.len() - 1));
            assert(input0.to_multiset() =~= input@.to_multiset().insert(x));
        }
        let mut p: usize = 0;
        while p < out.len() && key_le_exec(&out[p], &x)
            invariant
                p <= out@.len(),
                forall|m: int| 0 <= m < p ==> key_le(#[trigger] out@[m], x),
            decreases out@.len() - p,
        {
            p = p + 1;
        }
        let ghost before = out@;
        out.insert(p, x);
        proof {
            let new = out@;
            assert(forall|q: int| 0 <= q < p ==> new[q] == before[q]);
            assert(new[p as int] == x);
            assert(forall|q: int| p < q < new.len() ==> new[q] == before[q - 1]);
            assert forall|i: int, j: int| 0 <= i < j < new.len() implies key_le(
                new[i],
                new[j],
            ) by {
                if i == p && j > p {
                    assert(!key_le(before[p as int], x));
                    assert(key_le(x, before[p as int]));
                    if p < j - 1 {
                        assert(key_le(before[p as int], before[j - 1]));
                    }
                } else if i < p && j > p {
                    assert(key_le(before[i], x));
                    if i < j - 1 {
                        assert(key_le(before[i], before[j - 1]));
                    }
                } else if i < p && j == p {
                    assert(key_le(before[i], x));
                }
            }
            assert(out@.to_multiset() =~= before.to_multiset().insert(x));
        }
    }
    proof {
        assert(input@.to_multiset() =~= Multiset::<Article>::empty());
        assert(out@.to_multiset() =~= all.to_multiset());
    }
    out
}

/// Executable comparison in delivery order.
fn key_le_exec(a: &Article, b: &Article) -> (r: bool)
    ensures
        r == key_le(*a, *b),
{
    a.data < b.data || (a.data == b.data && a.id <= b.id)
}

/// Whether the vector holds the identifier.
fn vec_contains(v: &Vec<i64>, x: i64) -> (b: bool)
    ensures
        b == v@.contains(x),
{
    let mut k: usize = 0;
    while k < v.len()
        invariant
            k <= v.len(),
            forall|m: int| 0 <= m < k ==> v@[m] != x,
        decreases v.len() - k,
    {
        if v[k] == x {
            proof {
                assert(v@.contains(x));
            }
            return true;
        }
        k = k + 1;
    }
    proof {
        assert(!v@.contains(x));
    }
    false
}

} // verus!
