//! What the ranking of mirror candidates guarantees.
use vstd::prelude::*;

use crate::mirror::resolver::{
    CandidateView, healthy, insert_ranked, is_healthy, rank_order, rank_sort, ranked,
    score_of, seq_order,
};

verus! {

/// Each candidate comes no later than every candidate after it.
pub open spec fn is_ranked(s: Seq<CandidateView>) -> bool {
    forall|i: int, j: int| 0 <= i < j < s.len() ==> rank_order(#[trigger] s[i], #[trigger] s[j]) <= 0
}

proof fn lemma_seq_order_antisym(a: Seq<char>, b: Seq<char>)
    ensures
        seq_order(a, b) == -seq_order(b, a),
    decreases a.len(),
{
    if a.len() > 0 && b.len() > 0 && (a[0] as u32) == (b[0] as u32) {
        lemma_seq_order_antisym(a.drop_first(), b.drop_first());
    }
}

proof fn lemma_seq_order_trans(a: Seq<char>, b: Seq<char>, c: Seq<char>)
    requires
        seq_order(a, b) <= 0,
        seq_order(b, c) <= 0,
    ensures
        seq_order(a, c) <= 0,
    decreases a.len(),
{
    if a.len() > 0 && b.len() > 0 && c.len() > 0 && (a[0] as u32) == (b[0] as u32) && (b[0] as u32)
        == (c[0] as u32) {
        lemma_seq_order_trans(a.drop_first(), b.drop_first(), c.drop_first());
    }
}

proof fn lemma_cross_ge(x1: int, n1: int, x2: int, n2: int, x3: int, n3: int)
    by (nonlinear_arith)
    requires
        n1 > 0,
        n2 > 0,
        n3 > 0,
        x1 * n2 >= x2 * n1,
        x2 * n3 >= x3 * n2,
    ensures
        x1 * n3 >= x3 * n1,
{
    assert(x1 * n2 * n3 >= x2 * n1 * n3);
    assert(x2 * n3 * n1 >= x3 * n2 * n1);
    assert(x1 * n3 * n2 >= x3 * n1 * n2);
}

proof fn lemma_cross_gt_left(x1: int, n1: int, x2: int, n2: int, x3: int, n3: int)
    by (nonlinear_arith)
    requires
        n1 > 0,
        n2 > 0,
        n3 > 0,
        x1 * n2 > x2 * n1,
        x2 * n3 >= x3 * n2,
    ensures
        x1 * n3 > x3 * n1,
{
    assert(x1 * n2 * n3 > x2 * n1 * n3);
    assert(x2 * n3 * n1 >= x3 * n2 * n1);
    assert(x1 * n3 * n2 > x3 * n1 * n2);
}

proof fn lemma_cross_gt_right(x1: int, n1: int, x2: int, n2: int, x3: int, n3: int)
    by (nonlinear_arith)
    requires
        n1 > 0,
        n2 > 0,
        n3 > 0,
        x1 * n2 >= x2 * n1,
        x2 * n3 > x3 * n2,
    ensures
        x1 * n3 > x3 * n1,
{
    assert(x1 * n2 * n3 >= x2 * n1 * n3);
    assert(x2 * n3 * n1 > x3 * n2 * n1);
    assert(x1 * n3 * n2 > x3 * n1 * n2);
}

/// Swapping the two candidates reverses the ranking order.
pub proof fn lemma_rank_order_antisym(a: CandidateView, b: CandidateView)
    ensures
        rank_order(a, b) == -rank_order(b, a),
{
    lemma_seq_order_antisym(a.base_url, b.base_url);
}

/// The ranking order is transitive.
pub proof fn lemma_rank_order_trans(a: CandidateView, b: CandidateView, c: CandidateView)
    requires
        rank_order(a, b) <= 0,
        rank_order(b, c) <= 0,
    ensures
        rank_order(a, c) <= 0,
{
    let sa = score_of(a.heartbeats);
    let sb = score_of(b.heartbeats);
    let sc = score_of(c.heartbeats);
    if sa.sample_count == 0 || sb.sample_count == 0 || sc.sample_count == 0 {
    } else {
        let (xa, na) = (sa.success_count as int, sa.sample_count as int);
        let (xb, nb) = (sb.success_count as int, sb.sample_count as int);
        let (xc, nc) = (sc.success_count as int, sc.sample_count as int);
        // a's rate is at least b's, and b's at least c's
        assert(xa * nb >= xb * na);
        assert(xb * nc >= xc * nb);
        lemma_cross_ge(xa, na, xb, nb, xc, nc);
        if xa * nb > xb * na {
            lemma_cross_gt_left(xa, na, xb, nb, xc, nc);
        } else if xb * nc > xc * nb {
            lemma_cross_gt_right(xa, na, xb, nb, xc, nc);
        } else {
            // equal rates: a's rate equals c's
            lemma_cross_ge(xc, nc, xb, nb, xa, na);
            if sa.average_ping == sb.average_ping && sb.average_ping == sc.average_ping {
                lemma_seq_order_trans(a.base_url, b.base_url, c.base_url);
            }
        }
    }
}

/// The candidates in `insert_ranked(s, x)` are `x` and those of `s`.
proof fn lemma_insert_ranked_multiset(s: Seq<CandidateView>, x: CandidateView)
    ensures
        insert_ranked(s, x).to_multiset() == s.to_multiset().insert(x),
    decreases s.len(),
{
    broadcast use vstd::seq_lib::group_to_multiset_ensures;

    if s.len() == 0 {
        assert(seq![x] =~= Seq::<CandidateView>::empty().push(x));
    } else if rank_order(x, s.last()) < 0 {
        lemma_insert_ranked_multiset(s.drop_last(), x);
        assert(s =~= s.drop_last().push(s.last()));
        assert(insert_ranked(s, x).to_multiset() =~= s.to_multiset().insert(x));
    }
}

proof fn lemma_insert_ranked_sorted(s: Seq<CandidateView>, x: CandidateView)
    requires
        is_ranked(s),
    ensures
        is_ranked(insert_ranked(s, x)),
    decreases s.len(),
{
    broadcast use vstd::seq_lib::group_to_multiset_ensures;

    if s.len() == 0 {
    } else if rank_order(x, s.last()) < 0 {
        let t = s.drop_last();
        assert(is_ranked(t)) by {
            assert forall|i: int, j: int| 0 <= i < j < t.len() implies rank_order(
                #[trigger] t[i],
                #[trigger] t[j],
            ) <= 0 by {
                assert(t[i] == s[i] && t[j] == s[j]);
            }
        }
        lemma_insert_ranked_sorted(t, x);
        lemma_insert_ranked_multiset(t, x);
        let u = insert_ranked(t, x);
        let last = s.last();
        assert forall|k: int| 0 <= k < u.len() implies rank_order(#[trigger] u[k], last) <= 0 by {
            assert(u.to_multiset().count(u[k]) > 0);
            assert(t.to_multiset().insert(x).count(u[k]) > 0);
            if u[k] != x {
                assert(t.to_multiset().count(u[k]) > 0);
                assert(t.contains(u[k]));
                let m = choose|m: int| 0 <= m < t.len() && t[m] == u[k];
                assert(s[m] == t[m]);
                assert(rank_order(s[m], s[s.len() - 1]) <= 0);
            }
        }
        let r = u.push(last);
        assert(insert_ranked(s, x) == r);
        assert forall|i: int, j: int| 0 <= i < j < r.len() implies rank_order(
            #[trigger] r[i],
            #[trigger] r[j],
        ) <= 0 by {
            if j < u.len() {
                assert(r[i] == u[i] && r[j] == u[j]);
            } else {
                assert(r[i] == u[i]);
            }
        }
    } else {
        let r = s.push(x);
        let last = s.last();
        lemma_rank_order_antisym(x, last);
        assert forall|i: int, j: int| 0 <= i < j < r.len() implies rank_order(
            #[trigger] r[i],
            #[trigger] r[j],
        ) <= 0 by {
            if j < s.len() {
                assert(r[i] == s[i] && r[j] == s[j]);
            } else if i == s.len() - 1 {
                assert(r[i] == last);
            } else {
                assert(r[i] == s[i]);
                assert(rank_order(s[i], s[s.len() - 1]) <= 0);
                lemma_rank_order_trans(s[i], last, x);
            }
        }
    }
}

proof fn lemma_rank_sort(s: Seq<CandidateView>)
    ensures
        is_ranked(rank_sort(s)),
        rank_sort(s).to_multiset() == s.to_multiset(),
    decreases s.len(),
{
    broadcast use vstd::seq_lib::group_to_multiset_ensures;

    if s.len() > 0 {
        lemma_rank_sort(s.drop_last());
        lemma_insert_ranked_sorted(rank_sort(s.drop_last()), s.last());
        lemma_insert_ranked_multiset(rank_sort(s.drop_last()), s.last());
        assert(s =~= s.drop_last().push(s.last()));
    }
}

proof fn lemma_healthy(s: Seq<CandidateView>)
    ensures
        forall|k: int| 0 <= k < healthy(s).len() ==> is_healthy(#[trigger] healthy(s)[k]),
        forall|c: CandidateView| #[trigger]
            healthy(s).to_multiset().count(c) == if is_healthy(c) {
                s.to_multiset().count(c)
            } else {
                0
            },
    decreases s.len(),
{
    broadcast use vstd::seq_lib::group_to_multiset_ensures;

    if s.len() > 0 {
        lemma_healthy(s.drop_last());
        assert(s =~= s.drop_last().push(s.last()));
        let h = healthy(s.drop_last());
        if is_healthy(s.last()) {
            assert forall|k: int| 0 <= k < healthy(s).len() implies is_healthy(
                #[trigger] healthy(s)[k],
            ) by {
                if k < h.len() {
                    assert(healthy(s)[k] == h[k]);
                }
            }
        }
    }
}

/// The ranking keeps exactly the healthy candidates, as many times as they
/// are given, and puts them best first: no candidate comes after one that
/// follows it, and candidates with checks come before those without.
pub proof fn lemma_ranking(candidates: Seq<CandidateView>)
    ensures
        is_ranked(ranked(candidates)),
        forall|c: CandidateView| #[trigger]
            ranked(candidates).to_multiset().count(c) == if is_healthy(c) {
                candidates.to_multiset().count(c)
            } else {
                0
            },
        forall|i: int, j: int|
            0 <= i < j < ranked(candidates).len() && score_of(
                (#[trigger] ranked(candidates)[j]).heartbeats,
            ).sample_count > 0 ==> score_of(
                (#[trigger] ranked(candidates)[i]).heartbeats,
            ).sample_count > 0,
{
    lemma_healthy(candidates);
    lemma_rank_sort(healthy(candidates));
    let r = ranked(candidates);
    assert forall|i: int, j: int|
        0 <= i < j < r.len() && score_of((#[trigger] r[j]).heartbeats).sample_count > 0 implies score_of(
        (#[trigger] r[i]).heartbeats,
    ).sample_count > 0 by {
        assert(rank_order(r[i], r[j]) <= 0);
    }
}

} // verus!
