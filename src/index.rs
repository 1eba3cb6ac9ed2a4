//! The candidate index: stored signatures, their ids, and an inverted index
//! from each slot value to the documents holding it in any slot.

use crate::buckets::{map_get, map_insert, map_remove, set_insert, set_items};
use fnv::{FnvHashMap, FnvHashSet};
use vstd::prelude::*;

verus! {

broadcast use vstd::std_specs::hash::group_hash_axioms;

/// The least similarity a stored document must reach, as the fraction `num / den`.
#[derive(Clone, Copy, Debug)]
pub struct Threshold {
    pub num: u64,
    pub den: u64,
}

/// A stored document reported by a query: its position in the corpus, its id,
/// and in how many slots its signature agrees with the query.
#[derive(Clone, Debug)]
pub struct Hit {
    pub index: usize,
    pub id: String,
    pub matches: usize,
}

/// Number of positions `i < a.len()` where `a[i] == b[i]`.
pub open spec fn agree(a: Seq<u32>, b: Seq<u32>) -> nat
    decreases a.len(),
{
    if a.len() == 0 {
        0
    } else {
        agree(a.drop_last(), b) + if a.last() == b[a.len() - 1] {
            1nat
        } else {
            0nat
        }
    }
}

/// Some value of `q` occurs somewhere in `s`, at any position.
pub open spec fn shares(q: Seq<u32>, s: Seq<u32>) -> bool {
    exists|i: int| 0 <= i < q.len() && s.contains(#[trigger] q[i])
}

/// `m / k >= t.num / t.den`, cross-multiplied.
pub open spec fn passes(m: nat, k: nat, t: Threshold) -> bool {
    m * t.den >= t.num * k
}

/// The corpus of accepted documents in insertion order, a lookup from id to
/// position, and the buckets: for each slot value, the positions of the
/// documents whose signature holds it in any slot. Nothing is ever removed.
pub struct LSH {
    candidates: FnvHashMap<u32, FnvHashSet<usize>>,
    hashes: Vec<Vec<u32>>,
    ids: Vec<String>,
    id_map: FnvHashMap<String, usize>,
}

impl LSH {
    /// The stored signatures, in insertion order.
    pub closed spec fn sigs(&self) -> Seq<Seq<u32>> {
        self.hashes@.map_values(|h: Vec<u32>| h@)
    }

    /// The stored ids, in insertion order.
    pub closed spec fn names(&self) -> Seq<Seq<char>> {
        self.ids@.map_values(|s: String| s@)
    }

    /// Ids and signatures line up, and the buckets hold exactly the
    /// (value, document) pairs of the stored signatures.
    pub closed spec fn wf(&self) -> bool {
        &&& self.hashes@.len() == self.ids@.len()
        &&& forall|v: u32, p: usize|
            self.candidates@.contains_key(v) && #[trigger] self.candidates@[v]@.contains(p) ==> p
                < self.hashes@.len() && self.hashes@[p as int]@.contains(v)
        &&& forall|p: int, v: u32|
            0 <= p < self.hashes@.len() && #[trigger] self.hashes@[p]@.contains(v)
                ==> self.candidates@.contains_key(v) && self.candidates@[v]@.contains(p as usize)
    }

    /// `q` is empty, or every stored signature is empty or has the length of `q`.
    pub open spec fn fits(&self, q: Seq<u32>) -> bool {
        q.len() == 0 || forall|p: int|
            0 <= p < self.sigs().len() ==> #[trigger] self.sigs()[p].len() == 0
                || self.sigs()[p].len() == q.len()
    }

    /// Stored document `p` is similar enough to `q`: it shares a value with
    /// `q` and agrees with it in at least the threshold fraction of slots.
    pub open spec fn qualifies(&self, q: Seq<u32>, t: Threshold, p: int) -> bool {
        &&& 0 <= p < self.sigs().len()
        &&& shares(q, self.sigs()[p])
        &&& passes(agree(q, self.sigs()[p]), q.len(), t)
    }

    /// `h` describes a qualifying stored document truthfully.
    pub open spec fn hit_ok(&self, q: Seq<u32>, t: Threshold, h: Hit) -> bool {
        &&& self.qualifies(q, t, h.index as int)
        &&& h.id@ == self.names()[h.index as int]
        &&& h.matches == agree(q, self.sigs()[h.index as int])
    }

    /// `r` lists each qualifying stored document exactly once, and nothing else.
    pub open spec fn reports(&self, q: Seq<u32>, t: Threshold, r: Seq<Hit>) -> bool {
        &&& forall|x: int| 0 <= x < r.len() ==> self.hit_ok(q, t, #[trigger] r[x])
        &&& forall|x: int, y: int| 0 <= x < y < r.len() ==> #[trigger] r[x].index != #[trigger] r[y].index
        &&& forall|p: int|
            #[trigger] self.qualifies(q, t, p) ==> exists|x: int| 0 <= x < r.len() && r[x].index == p
    }

    /// What `check_and_add` promises: `r` is the check made on `old`, and
    /// `new` is `old` with `(id, q)` appended exactly when `r` is empty or
    /// `add_if_dup` is set.
    pub open spec fn checked_then_added(
        old: LSH,
        new: LSH,
        id: Seq<char>,
        q: Seq<u32>,
        t: Threshold,
        add_if_dup: bool,
        r: Seq<Hit>,
    ) -> bool {
        &&& new.wf()
        &&& old.reports(q, t, r)
        &&& if r.len() == 0 || add_if_dup {
            &&& new.sigs() == old.sigs().push(q)
            &&& new.names() == old.names().push(id)
        } else {
            &&& new.sigs() == old.sigs()
            &&& new.names() == old.names()
        }
    }

    /// An empty index.
    pub fn new() -> (r: LSH)
        ensures
            r.wf(),
            r.sigs().len() == 0,
            r.names().len() == 0,
    {
        LSH {
            candidates: FnvHashMap::default(),
            hashes: Vec::new(),
            ids: Vec::new(),
            id_map: FnvHashMap::default(),
        }
    }

    /// The stored ids, in insertion order.
    pub fn keys(&self) -> (r: Vec<String>)
        ensures
            r@.map_values(|s: String| s@) == self.names(),
    {
        let mut r: Vec<String> = Vec::new();
        let mut i: usize = 0;
        while i < self.ids.len()
            invariant
                i <= self.ids@.len(),
                r@.len() == i,
                forall|x: int| 0 <= x < i ==> #[trigger] r@[x]@ == self.ids@[x]@,
            decreases self.ids@.len() - i,
        {
            r.push(self.ids[i].clone());
            i += 1;
        }
        assert(r@.map_values(|s: String| s@) =~= self.names());
        r
    }

    /// The stored signatures, in insertion order.
    pub fn values(&self) -> (r: Vec<Vec<u32>>)
        ensures
            r@.map_values(|h: Vec<u32>| h@) == self.sigs(),
    {
        let mut r: Vec<Vec<u32>> = Vec::new();
        let mut i: usize = 0;
        while i < self.hashes.len()
            invariant
                i <= self.hashes@.len(),
                r@.len() == i,
                forall|x: int| 0 <= x < i ==> #[trigger] r@[x]@ == self.hashes@[x]@,
            decreases self.hashes@.len() - i,
        {
            let mut h: Vec<u32> = Vec::new();
            let src = &self.hashes[i];
            let mut j: usize = 0;
            while j < src.len()
                invariant
                    j <= src@.len(),
                    h@ == src@.subrange(0, j as int),
                decreases src@.len() - j,
            {
                h.push(src[j]);
                assert(h@ =~= src@.subrange(0, j + 1));
                j += 1;
            }
            assert(h@ =~= src@);
            r.push(h);
            i += 1;
        }
        assert(r@.map_values(|h: Vec<u32>| h@) =~= self.sigs());
        r
    }

    /// Number of stored documents.
    pub fn length(&self) -> (r: usize)
        requires
            self.wf(),
        ensures
            r == self.sigs().len(),
            r == self.names().len(),
    {
        self.ids.len()
    }

    /// The stored documents that share a slot value with `data` and agree
    /// with it, slot by slot, in at least the fraction `threshold` of its slots.
    pub fn check(&self, data: &[u32], threshold: Threshold) -> (r: Vec<Hit>)
        requires
            self.wf(),
            self.fits(data@),
            threshold.den > 0,
        ensures
            self.reports(data@, threshold, r@),
            data@.len() == 0 ==> r@.len() == 0,
    {
        let k = data.len();
        if k == 0 {
            return Vec::new();
        }
        let n = self.hashes.len();
        let ghost q = data@;
        let ghost sigs = self.sigs();
        let mut seen: FnvHashSet<usize> = FnvHashSet::default();
        let mut r: Vec<Hit> = Vec::new();
        let mut i: usize = 0;
        while i < k
            invariant
                self.wf(),
                self.fits(q),
                q == data@,
                sigs == self.sigs(),
                k == q.len(),
                n == sigs.len(),
                i <= k,
                forall|p: usize| #[trigger] seen@.contains(p) ==> p < n && shares(q, sigs[p as int]),
                forall|p: int, i0: int|
                    0 <= p < n && 0 <= i0 < i && #[trigger] sigs[p].contains(#[trigger] q[i0])
                        ==> seen@.contains(p as usize),
                forall|x: int| 0 <= x < r@.len() ==> self.hit_ok(q, threshold, #[trigger] r@[x]),
                forall|x: int| 0 <= x < r@.len() ==> seen@.contains(#[trigger] r@[x].index),
                forall|x: int, y: int|
                    0 <= x < y < r@.len() ==> #[trigger] r@[x].index != #[trigger] r@[y].index,
                forall|p: usize|
                    #[trigger] seen@.contains(p) && self.qualifies(q, threshold, p as int)
                        ==> exists|x: int| 0 <= x < r@.len() && r@[x].index == p,
            decreases k - i,
        {
            let v = data[i];
            match map_get(&self.candidates, &v) {
                Some(set) => {
                    let bucket = set_items(set);
                    let mut j: usize = 0;
                    while j < bucket.len()
                        invariant
                            self.wf(),
                            self.fits(q),
                            q == data@,
                            sigs == self.sigs(),
                            k == q.len(),
                            n == sigs.len(),
                            i < k,
                            v == q[i as int],
                            self.candidates@.contains_key(v),
                            *set == self.candidates@[v],
                            forall|p: usize| #[trigger] bucket@.contains(p) <==> set@.contains(p),
                            j <= bucket@.len(),
                            forall|jj: int| 0 <= jj < j ==> seen@.contains(#[trigger] bucket@[jj]),
                            forall|p: usize|
                                #[trigger] seen@.contains(p) ==> p < n && shares(q, sigs[p as int]),
                            forall|p: int, i0: int|
                                0 <= p < n && 0 <= i0 < i && #[trigger] sigs[p].contains(
                                    #[trigger] q[i0],
                                ) ==> seen@.contains(p as usize),
                            forall|x: int|
                                0 <= x < r@.len() ==> self.hit_ok(q, threshold, #[trigger] r@[x]),
                            forall|x: int| 0 <= x < r@.len() ==> seen@.contains(#[trigger] r@[x].index),
                            forall|x: int, y: int|
                                0 <= x < y < r@.len() ==> #[trigger] r@[x].index
                                    != #[trigger] r@[y].index,
                            forall|p: usize|
                                #[trigger] seen@.contains(p) && self.qualifies(q, threshold, p as int)
                                    ==> exists|x: int| 0 <= x < r@.len() && r@[x].index == p,
                        decreases bucket@.len() - j,
                    {
                        let p = bucket[j];
                        assert(bucket@.contains(p));
                        assert(self.candidates@[v]@.contains(p));
                        assert(self.hashes@[p as int]@.contains(v));
                        assert(sigs[p as int] == self.hashes@[p as int]@);
                        assert(sigs[p as int].len() == k);
                        assert(shares(q, sigs[p as int]));
                        let ghost old_r = r@;
                        if set_insert(&mut seen, p) {
                            let m = count_agreeing(data, &self.hashes[p]);
                            if meets(m, k, threshold) {
                                r.push(Hit { index: p, id: self.ids[p].clone(), matches: m });
                                assert(r@[old_r.len() as int].index == p);
                                assert(self.names()[p as int] == self.ids@[p as int]@);
                                assert(self.hit_ok(q, threshold, r@[old_r.len() as int]));
                            }
                        }
                        assert forall|p2: usize|
                            #[trigger] seen@.contains(p2) && self.qualifies(q, threshold, p2 as int)
                                implies exists|x: int| 0 <= x < r@.len() && r@[x].index == p2 by {
                            if p2 != p || old_r.len() == r@.len() {
                                let x = choose|x: int| 0 <= x < old_r.len() && old_r[x].index == p2;
                                assert(r@[x] == old_r[x]);
                            } else {
                                assert(r@[old_r.len() as int].index == p2);
                            }
                        }
                        j += 1;
                    }
                    assert forall|p: int, i0: int|
                        0 <= p < n && 0 <= i0 < i + 1 && #[trigger] sigs[p].contains(
                            #[trigger] q[i0],
                        ) implies seen@.contains(p as usize) by {
                        if i0 == i {
                            assert(self.hashes@[p]@ == sigs[p]);
                            assert(self.candidates@[v]@.contains(p as usize));
                            assert(bucket@.contains(p as usize));
                            let jj = choose|jj: int| 0 <= jj < bucket@.len() && bucket@[jj] == p as usize;
                            assert(seen@.contains(bucket@[jj]));
                        }
                    }
                },
                None => {
                    assert forall|p: int, i0: int|
                        0 <= p < n && 0 <= i0 < i + 1 && #[trigger] sigs[p].contains(
                            #[trigger] q[i0],
                        ) implies seen@.contains(p as usize) by {
                        if i0 == i {
                            assert(self.hashes@[p]@ == sigs[p]);
                        }
                    }
                },
            }
            i += 1;
        }
        assert forall|p: int| #[trigger] self.qualifies(q, threshold, p) implies exists|x: int|
            0 <= x < r@.len() && r@[x].index == p by {
            let i0 = choose|i0: int| 0 <= i0 < q.len() && sigs[p].contains(#[trigger] q[i0]);
            assert(seen@.contains(p as usize));
        }
        r
    }

    /// Runs `check`; then, if nothing qualified or `add_if_dup` is set, appends
    /// `new_id` with signature `data` to the corpus. The result is that of the
    /// check, made before the insert.
    pub fn check_and_add(&mut self, new_id: &str, data: Vec<u32>, threshold: Threshold, add_if_dup: bool) -> (r: Vec<Hit>)
        requires
            old(self).wf(),
            old(self).fits(data@),
            threshold.den > 0,
        ensures
            LSH::checked_then_added(*old(self), *final(self), new_id@, data@, threshold, add_if_dup, r@),
    {
        let r = self.check(data.as_slice(), threshold);
        if r.len() == 0 || add_if_dup {
            self.add(new_id, data);
        }
        r
    }

    /// Appends `new_id` with signature `data`, registering every slot value of
    /// `data` in the buckets.
    fn add(&mut self, new_id: &str, data: Vec<u32>)
        requires
            old(self).wf(),
        ensures
            final(self).wf(),
            final(self).sigs() == old(self).sigs().push(data@),
            final(self).names() == old(self).names().push(new_id@),
    {
        let n = self.ids.len();
        map_insert(&mut self.id_map, new_id.to_owned(), n);
        self.ids.push(new_id.to_owned());
        let ghost hashes0 = self.hashes@;
        let ghost ids1 = self.ids@;
        assert(ids1 == old(self).ids@.push(ids1[n as int]) && ids1[n as int]@ == new_id@);
        let mut i: usize = 0;
        while i < data.len()
            invariant
                i <= data@.len(),
                self.ids@ == ids1,
                n == hashes0.len(),
                self.hashes@ == hashes0,
                forall|v: u32, p: usize|
                    self.candidates@.contains_key(v) && #[trigger] self.candidates@[v]@.contains(p)
                        ==> (p < n && hashes0[p as int]@.contains(v)) || (p == n
                        && data@.subrange(0, i as int).contains(v)),
                forall|p: int, v: u32|
                    0 <= p < n && #[trigger] hashes0[p]@.contains(v) ==> self.candidates@.contains_key(v)
                        && self.candidates@[v]@.contains(p as usize),
                forall|i0: int|
                    0 <= i0 < i ==> self.candidates@.contains_key(#[trigger] data@[i0])
                        && self.candidates@[data@[i0]]@.contains(n),
            decreases data@.len() - i,
        {
            let v = data[i];
            let ghost before = self.candidates@;
            let mut bucket = match map_remove(&mut self.candidates, &v) {
                Some(b) => b,
                None => FnvHashSet::default(),
            };
            let ghost b0 = bucket@;
            assert(before.contains_key(v) ==> b0 == before[v]@);
            assert(!before.contains_key(v) ==> b0 == Set::<usize>::empty());
            set_insert(&mut bucket, n);
            assert(bucket@ == b0.insert(n));
            map_insert(&mut self.candidates, v, bucket);
            assert(data@.subrange(0, i + 1) == data@.subrange(0, i as int).push(v));
            assert forall|v2: u32, p: usize|
                self.candidates@.contains_key(v2) && #[trigger] self.candidates@[v2]@.contains(p)
                    implies (p < n && hashes0[p as int]@.contains(v2)) || (p == n
                    && data@.subrange(0, i + 1).contains(v2)) by {
                if v2 == v {
                    if p != n {
                        assert(b0.contains(p));
                        assert(before[v]@.contains(p));
                    } else {
                        assert(data@.subrange(0, i + 1)[i as int] == v);
                    }
                } else {
                    assert(before[v2] == self.candidates@[v2]);
                    if p == n {
                        let w = choose|w: int| 0 <= w < i && data@.subrange(0, i as int)[w] == v2;
                        assert(data@.subrange(0, i + 1)[w] == v2);
                    }
                }
            }
            i += 1;
        }
        self.hashes.push(data);
        assert(data@.subrange(0, data@.len() as int) == data@);
        assert(self.sigs() =~= hashes0.map_values(|h: Vec<u32>| h@).push(data@));
        assert forall|x: int| 0 <= x < self.ids@.len() implies #[trigger] self.names()[x] == old(self).names().push(new_id@)[x] by {
            if x < n {
                assert(self.ids@[x] == old(self).ids@[x]);
            }
            assert(self.names()[x] == self.ids@[x]@);
        }
        assert(self.names() =~= old(self).names().push(new_id@));
        assert forall|v: u32, p: usize|
            self.candidates@.contains_key(v) && #[trigger] self.candidates@[v]@.contains(p) implies p
                < self.hashes@.len() && self.hashes@[p as int]@.contains(v) by {
            if p == n {
                assert(self.hashes@[p as int] == data);
            } else {
                assert(self.hashes@[p as int] == hashes0[p as int]);
            }
        }
        assert forall|p: int, v: u32|
            0 <= p < self.hashes@.len() && #[trigger] self.hashes@[p]@.contains(v)
                implies self.candidates@.contains_key(v) && self.candidates@[v]@.contains(p as usize) by {
            if p == n {
                let w = choose|w: int| 0 <= w < data@.len() && data@[w] == v;
                assert(self.candidates@.contains_key(data@[w]));
            } else {
                assert(self.hashes@[p] == hashes0[p]);
            }
        }
    }
}

/// Number of slots `i < a.len()` where `a` and `b` agree.
fn count_agreeing(a: &[u32], b: &Vec<u32>) -> (m: usize)
    requires
        a@.len() <= b@.len(),
    ensures
        m == agree(a@, b@),
{
    let mut m: usize = 0;
    let mut i: usize = 0;
    while i < a.len()
        invariant
            i <= a@.len(),
            a@.len() <= b@.len(),
            m <= i,
            m == agree(a@.subrange(0, i as int), b@),
        decreases a@.len() - i,
    {
        assert(a@.subrange(0, i + 1).drop_last() == a@.subrange(0, i as int));
        if a[i] == b[i] {
            m += 1;
        }
        i += 1;
    }
    assert(a@.subrange(0, i as int) == a@);
    m
}

/// `m / k >= t.num / t.den`, computed without overflow.
fn meets(m: usize, k: usize, t: Threshold) -> (r: bool)
    ensures
        r == passes(m as nat, k as nat, t),
{
    proof {
        lemma_product_fits(m as int, t.den as int);
        lemma_product_fits(t.num as int, k as int);
    }
    (m as u128) * (t.den as u128) >= (t.num as u128) * (k as u128)
}

proof fn lemma_product_fits(a: int, b: int)
    requires
        0 <= a <= u64::MAX,
        0 <= b <= u64::MAX,
    ensures
        a * b <= u128::MAX,
{
    assert(a * b <= u64::MAX * u64::MAX) by (nonlinear_arith)
        requires
            0 <= a <= u64::MAX,
            0 <= b <= u64::MAX,
    ;
}

} // verus!
