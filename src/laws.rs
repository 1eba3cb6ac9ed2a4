//! Properties of the index and the shingler that hold across calls.

use crate::index::{agree, shares, Hit, LSH, Threshold};
use crate::sketch::Shingler;
use vstd::prelude::*;

verus! {

/// `a` agrees with `b` in every slot where `a` is a prefix of `b`.
proof fn lemma_agree_prefix(a: Seq<u32>, b: Seq<u32>)
    requires
        a.len() <= b.len(),
        forall|i: int| 0 <= i < a.len() ==> a[i] == b[i],
    ensures
        agree(a, b) == a.len(),
    decreases a.len(),
{
    if a.len() > 0 {
        lemma_agree_prefix(a.drop_last(), b);
    }
}

/// A non-empty signature shares a value with itself, and agrees with itself
/// in all of its slots.
proof fn lemma_self_match(q: Seq<u32>, t: Threshold)
    requires
        q.len() > 0,
        t.num <= t.den,
    ensures
        shares(q, q),
        agree(q, q) == q.len(),
        agree(q, q) * t.den >= t.num * q.len(),
{
    assert(q.contains(q[0]));
    lemma_agree_prefix(q, q);
    let k = q.len() as int;
    assert(k * t.den >= t.num * k) by (nonlinear_arith)
        requires
            k > 0,
            t.num <= t.den,
    ;
}

/// A list of hits that all name position 0, with no position twice, has at most one hit.
proof fn lemma_one_position(l: LSH, q: Seq<u32>, t: Threshold, r: Seq<Hit>)
    requires
        l.sigs().len() == 1,
        l.reports(q, t, r),
    ensures
        r.len() <= 1,
{
    if r.len() > 1 {
        assert(l.hit_ok(q, t, r[0]));
        assert(l.hit_ok(q, t, r[1]));
        assert(r[0].index != r[1].index);
    }
}

/// Nothing is reported from an empty index.
pub proof fn lemma_empty_index(l: LSH, q: Seq<u32>, t: Threshold, r: Seq<Hit>)
    requires
        l.sigs().len() == 0,
        l.reports(q, t, r),
    ensures
        r.len() == 0,
{
    if r.len() > 0 {
        assert(l.hit_ok(q, t, r[0]));
    }
}

/// Against an index that holds only `id1` with signature `q`, a query with
/// `q` itself reports `id1` alone, agreeing in every slot, for any threshold
/// of at most one.
pub proof fn lemma_single_exact_match(l: LSH, id1: Seq<char>, q: Seq<u32>, t: Threshold, r: Seq<Hit>)
    requires
        l.sigs() == seq![q],
        l.names() == seq![id1],
        q.len() > 0,
        t.num <= t.den,
        l.reports(q, t, r),
    ensures
        r.len() == 1,
        r[0].index == 0,
        r[0].id@ == id1,
        r[0].matches == q.len(),
{
    lemma_self_match(q, t);
    assert(l.sigs()[0] == q);
    assert(l.qualifies(q, t, 0));
    lemma_one_position(l, q, t, r);
    let x = choose|x: int| 0 <= x < r.len() && r[x].index == 0;
    assert(l.hit_ok(q, t, r[0]));
}

/// Two `check_and_add` calls with the same signature on an empty index,
/// without `add_if_dup`: the first reports nothing and inserts, the second
/// reports the first id, agreeing in every slot, and inserts nothing.
pub proof fn lemma_check_before_insert(
    l0: LSH,
    l1: LSH,
    l2: LSH,
    id1: Seq<char>,
    id2: Seq<char>,
    q: Seq<u32>,
    t: Threshold,
    r1: Seq<Hit>,
    r2: Seq<Hit>,
)
    requires
        l0.sigs().len() == 0,
        l0.names().len() == 0,
        q.len() > 0,
        t.num <= t.den,
        LSH::checked_then_added(l0, l1, id1, q, t, false, r1),
        LSH::checked_then_added(l1, l2, id2, q, t, false, r2),
    ensures
        r1.len() == 0,
        r2.len() == 1,
        r2[0].id@ == id1,
        r2[0].matches == q.len(),
        l2.sigs() == l1.sigs(),
        l2.names() == l1.names(),
{
    lemma_empty_index(l0, q, t, r1);
    assert(l1.sigs() =~= seq![q]);
    assert(l1.names() =~= seq![id1]);
    lemma_single_exact_match(l1, id1, q, t, r2);
}

/// Adding `id2` with the signature of the only stored document `id1`,
/// without `add_if_dup`: `id1` is reported and the index is unchanged.
pub proof fn lemma_duplicate_not_inserted(
    l0: LSH,
    l1: LSH,
    id1: Seq<char>,
    id2: Seq<char>,
    q: Seq<u32>,
    t: Threshold,
    r: Seq<Hit>,
)
    requires
        l0.sigs() == seq![q],
        l0.names() == seq![id1],
        q.len() > 0,
        t.num <= t.den,
        LSH::checked_then_added(l0, l1, id2, q, t, false, r),
    ensures
        r.len() == 1,
        r[0].id@ == id1,
        r[0].matches == q.len(),
        l1.sigs().len() == 1,
        l1.names() == seq![id1],
{
    lemma_single_exact_match(l0, id1, q, t, r);
}

/// The same with `add_if_dup`: `id1` is still reported, and `id2` is appended.
pub proof fn lemma_duplicate_forced(
    l0: LSH,
    l1: LSH,
    id1: Seq<char>,
    id2: Seq<char>,
    q: Seq<u32>,
    t: Threshold,
    r: Seq<Hit>,
)
    requires
        l0.sigs() == seq![q],
        l0.names() == seq![id1],
        q.len() > 0,
        t.num <= t.den,
        LSH::checked_then_added(l0, l1, id2, q, t, true, r),
    ensures
        r.len() == 1,
        r[0].id@ == id1,
        r[0].matches == q.len(),
        l1.sigs().len() == 2,
        l1.names() == seq![id1, id2],
{
    lemma_single_exact_match(l0, id1, q, t, r);
    assert(l1.names() =~= seq![id1, id2]);
}

/// A stored document that shares a value with `q` and agrees with it in `m`
/// of its `k` slots is reported at a threshold of exactly `m / k`, and not at
/// any threshold above it.
pub proof fn lemma_threshold_boundary(
    l: LSH,
    q: Seq<u32>,
    p: int,
    at: Threshold,
    above: Threshold,
    r_at: Seq<Hit>,
    r_above: Seq<Hit>,
)
    requires
        0 <= p < l.sigs().len(),
        shares(q, l.sigs()[p]),
        at.num * q.len() == agree(q, l.sigs()[p]) * at.den,
        above.num * q.len() > agree(q, l.sigs()[p]) * above.den,
        l.reports(q, at, r_at),
        l.reports(q, above, r_above),
    ensures
        exists|x: int| 0 <= x < r_at.len() && r_at[x].index == p,
        forall|x: int| 0 <= x < r_above.len() ==> r_above[x].index != p,
{
    assert(l.qualifies(q, at, p));
    assert forall|x: int| 0 <= x < r_above.len() implies r_above[x].index != p by {
        assert(l.hit_ok(q, above, r_above[x]));
    }
}

/// Shingling depends only on the configuration and the text: two shinglers
/// with the same n-gram length, toggles and pattern give the same shingles,
/// whatever either was used for before.
pub proof fn lemma_shingles_deterministic(a: Shingler, b: Shingler, s: Seq<char>)
    requires
        a.n() == b.n(),
        a.options() == b.options(),
        a.pattern() == b.pattern(),
    ensures
        a.shingles_of(s) == b.shingles_of(s),
{
}

} // verus!
