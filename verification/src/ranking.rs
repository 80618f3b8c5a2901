//! Ranking of candidate documents: descending by score, and among equal
//! scores in the order in which the index returned them.

use vstd::prelude::*;
use crate::entities_ai::{score, score_of, AISearchResultValue};

verus! {

/// The candidate at `i` ranks strictly before the one at `j`: its score is
/// higher, or the scores are equal and it came first.
pub open spec fn outranks(docs: Seq<AISearchResultValue>, i: int, j: int) -> bool {
    score_of(docs[i]) > score_of(docs[j]) || (score_of(docs[i]) == score_of(docs[j]) && i < j)
}

/// `order` lists every index of `docs` once, each ranking strictly before
/// the next.
pub open spec fn is_ranking(docs: Seq<AISearchResultValue>, order: Seq<int>) -> bool {
    &&& order.len() == docs.len()
    &&& forall|k: int| 0 <= k < order.len() ==> 0 <= #[trigger] order[k] < docs.len()
    &&& forall|a: int, b: int|
        0 <= a < b < order.len() ==> outranks(docs, #[trigger] order[a], #[trigger] order[b])
    &&& forall|i: int| 0 <= i < docs.len() ==> #[trigger] order.contains(i)
}

/// The candidates at the given indices.
pub open spec fn pick(docs: Seq<AISearchResultValue>, order: Seq<int>) -> Seq<AISearchResultValue> {
    order.map_values(|i: int| docs[i])
}

/// The number of candidates that `top_n` keeps.
pub open spec fn kept(len: nat, n: nat) -> nat {
    if n < len {
        n
    } else {
        len
    }
}

/// `top` is the first `n` of `docs` in rank order, or all of them where
/// there are fewer.
pub open spec fn is_top_n(
    docs: Seq<AISearchResultValue>,
    n: nat,
    top: Seq<AISearchResultValue>,
) -> bool {
    exists|order: Seq<int>|
        is_ranking(docs, order) && top == #[trigger] pick(docs, order.take(kept(docs.len(), n) as int))
}

/// The first `n` of `docs` in rank order, or all of them where there are
/// fewer.
pub open spec fn top_n(docs: Seq<AISearchResultValue>, n: nat) -> Seq<AISearchResultValue> {
    choose|top: Seq<AISearchResultValue>| is_top_n(docs, n, top)
}

/// There is one ranking of given candidates.
pub proof fn lemma_ranking_unique(docs: Seq<AISearchResultValue>, p: Seq<int>, q: Seq<int>)
    requires
        is_ranking(docs, p),
        is_ranking(docs, q),
    ensures
        p == q,
{
    lemma_ordered_same_indices(docs, p, q);
}

spec fn ordered(docs: Seq<AISearchResultValue>, p: Seq<int>) -> bool {
    forall|a: int, b: int|
        0 <= a < b < p.len() ==> outranks(docs, #[trigger] p[a], #[trigger] p[b])
}

proof fn lemma_ordered_front(docs: Seq<AISearchResultValue>, p: Seq<int>, q: Seq<int>, k: int)
    requires
        ordered(docs, p),
        ordered(docs, q),
        forall|i: int| p.contains(i) <==> q.contains(i),
        p.len() > 0,
        q.len() > 0,
        p.last() == q.last(),
    ensures
        p.drop_last().contains(k) ==> q.drop_last().contains(k),
{
    let p0 = p.drop_last();
    if p0.contains(k) {
        let i = choose|i: int| 0 <= i < p0.len() && p0[i] == k;
        assert(p[i] == k);
        assert(p.contains(k));
        assert(outranks(docs, p[i], p[p.len() - 1]));
        assert(q.contains(k));
        let m = choose|m: int| 0 <= m < q.len() && q[m] == k;
        assert(m < q.len() - 1);
        assert(q.drop_last()[m] == k);
    }
}

proof fn lemma_ordered_same_indices(docs: Seq<AISearchResultValue>, p: Seq<int>, q: Seq<int>)
    requires
        ordered(docs, p),
        ordered(docs, q),
        forall|i: int| p.contains(i) <==> q.contains(i),
    ensures
        p == q,
    decreases p.len(),
{
    if p.len() == 0 {
        if q.len() > 0 {
            assert(q.contains(q[0]));
        }
        assert(p =~= q);
    } else if q.len() == 0 {
        assert(p.contains(p[0]));
    } else {
        let x = p.last();
        let y = q.last();
        assert(p.contains(x));
        assert(q.contains(y));
        let i = choose|i: int| 0 <= i < q.len() && q[i] == x;
        let j = choose|j: int| 0 <= j < p.len() && p[j] == y;
        if x != y {
            if i < q.len() - 1 {
                assert(outranks(docs, q[i], q[q.len() - 1]));
            }
            if j < p.len() - 1 {
                assert(outranks(docs, p[j], p[p.len() - 1]));
            }
        }
        assert(x == y);
        let p0 = p.drop_last();
        let q0 = q.drop_last();
        assert(ordered(docs, p0)) by {
            assert forall|a: int, b: int| 0 <= a < b < p0.len() implies outranks(
                docs,
                #[trigger] p0[a],
                #[trigger] p0[b],
            ) by {
                assert(outranks(docs, p[a], p[b]));
            }
        }
        assert(ordered(docs, q0)) by {
            assert forall|a: int, b: int| 0 <= a < b < q0.len() implies outranks(
                docs,
                #[trigger] q0[a],
                #[trigger] q0[b],
            ) by {
                assert(outranks(docs, q[a], q[b]));
            }
        }
        assert forall|k: int| p0.contains(k) <==> q0.contains(k) by {
            lemma_ordered_front(docs, p, q, k);
            lemma_ordered_front(docs, q, p, k);
        }
        lemma_ordered_same_indices(docs, p0, q0);
        assert(p =~= p0.push(x));
        assert(q =~= q0.push(y));
    }
}

/// What `top_n` returns is fixed by its arguments.
pub proof fn lemma_top_n_unique(
    docs: Seq<AISearchResultValue>,
    n: nat,
    a: Seq<AISearchResultValue>,
    b: Seq<AISearchResultValue>,
)
    requires
        is_top_n(docs, n, a),
        is_top_n(docs, n, b),
    ensures
        a == b,
{
    let k = kept(docs.len(), n) as int;
    let p = choose|p: Seq<int>| is_ranking(docs, p) && a == #[trigger] pick(docs, p.take(k));
    let q = choose|q: Seq<int>| is_ranking(docs, q) && b == #[trigger] pick(docs, q.take(k));
    lemma_ranking_unique(docs, p, q);
}

/// Of at most `n` candidates all are kept, each once, in descending order
/// of score. Of more than `n`, exactly `n` are kept, in descending order of
/// score, and none that is left out scores higher than one that is kept.
pub proof fn lemma_top_n_keeps_the_best(
    docs: Seq<AISearchResultValue>,
    n: nat,
    top: Seq<AISearchResultValue>,
)
    requires
        is_top_n(docs, n, top),
    ensures
        docs.len() <= n ==> top.len() == docs.len(),
        docs.len() > n ==> top.len() == n,
        forall|a: int, b: int|
            0 <= a < b < top.len() ==> score_of(#[trigger] top[a]) >= score_of(#[trigger] top[b]),
        exists|order: Seq<int>|
            {
                &&& #[trigger] order.len() == top.len()
                &&& forall|k: int|
                    0 <= k < order.len() ==> 0 <= #[trigger] order[k] < docs.len() && top[k]
                        == docs[order[k]]
                &&& forall|a: int, b: int|
                    0 <= a < b < order.len() ==> #[trigger] order[a] != #[trigger] order[b]
                &&& docs.len() <= n ==> forall|i: int|
                    0 <= i < docs.len() ==> #[trigger] order.contains(i)
                &&& forall|i: int, k: int|
                    0 <= i < docs.len() && !order.contains(i) && 0 <= k < top.len() ==> score_of(
                        #[trigger] top[k],
                    ) >= score_of(#[trigger] docs[i])
            },
{
    let m = kept(docs.len(), n) as int;
    let full = choose|p: Seq<int>| is_ranking(docs, p) && top == #[trigger] pick(docs, p.take(m));
    let order = full.take(m);
    assert forall|a: int, b: int| 0 <= a < b < top.len() implies score_of(#[trigger] top[a])
        >= score_of(#[trigger] top[b]) by {
        assert(outranks(docs, full[a], full[b]));
    }
    assert forall|a: int, b: int| 0 <= a < b < order.len() implies #[trigger] order[a]
        != #[trigger] order[b] by {
        assert(outranks(docs, full[a], full[b]));
    }
    if docs.len() <= n {
        assert(order =~= full);
    }
    assert forall|i: int, k: int|
        0 <= i < docs.len() && !order.contains(i) && 0 <= k < top.len() implies score_of(
        #[trigger] top[k],
    ) >= score_of(#[trigger] docs[i]) by {
        assert(full.contains(i));
        let at = choose|at: int| 0 <= at < full.len() && full[at] == i;
        if at < m {
            assert(order[at] == i);
        }
        assert(outranks(docs, full[k], full[at]));
    }
    assert(order.len() == top.len());
}

/// The first `n` of the candidates in rank order: descending by score,
/// equal scores in the order in which they came.
pub fn sort_ai_search_result_by_score_get_n_top(
    value: Vec<AISearchResultValue>,
    n: usize,
) -> (top: Vec<AISearchResultValue>)
    ensures
        is_top_n(value@, n as nat, top@),
        top@ == top_n(value@, n as nat),
{
    let ghost docs = value@;
    let mut v = value;
    let ghost mut order: Seq<int> = Seq::new(docs.len(), |i: int| i);
    let mut i: usize = 0;
    while i < v.len()
        invariant
            i <= v.len(),
            v.len() == docs.len(),
            order.len() == docs.len(),
            forall|m: int|
                0 <= m < order.len() ==> 0 <= #[trigger] order[m] < docs.len() && v@[m]
                    == docs[order[m]],
            forall|a: int, b: int|
                0 <= a < b < i ==> outranks(docs, #[trigger] order[a], #[trigger] order[b]),
            forall|m: int| 0 <= m < i ==> #[trigger] order[m] < i,
            forall|m: int| i <= m < order.len() ==> #[trigger] order[m] == m,
            forall|j: int| 0 <= j < i ==> #[trigger] order.take(i as int).contains(j),
        decreases v.len() - i,
    {
        let ghost before_v = v@;
        let ghost before = order;
        let x = v.remove(i);
        let s = score(&x);
        let mut k: usize = 0;
        while k < i && score(&v[k]) >= s
            invariant
                k <= i,
                i < before_v.len(),
                v@ == before_v.remove(i as int),
                s == score_of(x),
                forall|m: int| 0 <= m < k ==> score_of(#[trigger] before_v[m]) >= s,
            decreases i - k,
        {
            k += 1;
        }
        v.insert(k, x);
        proof {
            order = before.remove(i as int).insert(k as int, i as int);
            assert(before[i as int] == i);
            assert(before_v[i as int] == docs[before[i as int]]);
            assert(x == docs[i as int]);
            assert forall|m: int| 0 <= m < order.len() implies 0 <= #[trigger] order[m]
                < docs.len() && v@[m] == docs[order[m]] by {
                if m < k {
                    assert(order[m] == before[m]);
                    assert(v@[m] == before_v[m]);
                } else if m == k {
                } else if m <= i {
                    assert(order[m] == before[m - 1]);
                    assert(v@[m] == before_v[m - 1]);
                } else {
                    assert(order[m] == before[m]);
                    assert(v@[m] == before_v[m]);
                }
            }
            assert forall|m: int| 0 <= m < i + 1 implies #[trigger] order[m] < i + 1 by {
                if m < k {
                    assert(order[m] == before[m]);
                } else if m == k {
                } else {
                    assert(order[m] == before[m - 1]);
                }
            }
            assert forall|m: int| i + 1 <= m < order.len() implies #[trigger] order[m] == m by {
                assert(order[m] == before[m]);
            }
            assert forall|a: int, b: int| 0 <= a < b < i + 1 implies outranks(
                docs,
                #[trigger] order[a],
                #[trigger] order[b],
            ) by {
                if b < k {
                    assert(order[a] == before[a] && order[b] == before[b]);
                } else if b == k {
                    assert(order[a] == before[a]);
                    assert(before_v[a] == docs[before[a]]);
                    assert(score_of(before_v[a]) >= s);
                    assert(before[a] < i);
                } else if a < k {
                    assert(order[a] == before[a] && order[b] == before[b - 1]);
                    assert(outranks(docs, before[a], before[b - 1]));
                } else if a == k {
                    assert(order[b] == before[b - 1]);
                    assert(before_v[k as int] == docs[before[k as int]]);
                    assert(score_of(before_v[k as int]) < s);
                    if b - 1 > k {
                        assert(outranks(docs, before[k as int], before[b - 1]));
                    }
                } else {
                    assert(order[a] == before[a - 1] && order[b] == before[b - 1]);
                    assert(outranks(docs, before[a - 1], before[b - 1]));
                }
            }
            assert forall|j: int| 0 <= j < i + 1 implies #[trigger] order.take(i + 1).contains(
                j,
            ) by {
                if j == i {
                    assert(order.take(i + 1)[k as int] == j);
                } else {
                    assert(before.take(i as int).contains(j));
                    let m = choose|m: int|
                        0 <= m < before.take(i as int).len() && before.take(i as int)[m] == j;
                    assert(before[m] == j);
                    if m < k {
                        assert(order.take(i + 1)[m] == j);
                    } else {
                        assert(order[m + 1] == before[m]);
                        assert(order.take(i + 1)[m + 1] == j);
                    }
                }
            }
        }
        i += 1;
    }
    proof {
        assert(order.take(order.len() as int) =~= order);
        assert(is_ranking(docs, order));
    }
    if n < v.len() {
        v.truncate(n);
    }
    proof {
        let m = kept(docs.len(), n as nat) as int;
        assert(v@ =~= pick(docs, order.take(m)));
        assert(is_top_n(docs, n as nat, v@));
        lemma_top_n_unique(docs, n as nat, v@, top_n(docs, n as nat));
    }
    v
}

} // verus!
