//! `doclib sync`: filling the gaps in each store from the local cache.

use vstd::prelude::*;

verus! {

/// What to do about one store.
pub struct StoreSync {
    /// Documents (by position) the store lacks.
    pub missing: Vec<usize>,
    /// Of those, the ones the cache can fill.
    pub copy: Vec<usize>,
    /// Of those, the ones it cannot: `update` has to copy them between stores.
    pub unfillable: Vec<usize>,
}

/// Positions below `n` at which `held` is false, in order.
pub open spec fn gaps(held: Seq<bool>, n: int) -> Seq<int>
    decreases n,
{
    if n <= 0 {
        Seq::empty()
    } else if held[n - 1] {
        gaps(held, n - 1)
    } else {
        gaps(held, n - 1).push(n - 1)
    }
}

/// Of the gaps below `n`, those where `cached` is `want`.
pub open spec fn gaps_where(held: Seq<bool>, cached: Seq<bool>, want: bool, n: int) -> Seq<int>
    decreases n,
{
    if n <= 0 {
        Seq::empty()
    } else if !held[n - 1] && cached[n - 1] == want {
        gaps_where(held, cached, want, n - 1).push(n - 1)
    } else {
        gaps_where(held, cached, want, n - 1)
    }
}

proof fn lemma_push_contains(s: Seq<int>, x: int, k: int)
    ensures
        s.push(x).contains(k) <==> (s.contains(k) || x == k),
{
    if s.contains(k) {
        let j = choose|j: int| 0 <= j < s.len() && s[j] == k;
        assert(s.push(x)[j] == k);
    }
    if x == k {
        assert(s.push(x)[s.len() as int] == k);
    }
    if s.push(x).contains(k) {
        let j = choose|j: int| 0 <= j < s.push(x).len() && s.push(x)[j] == k;
        if j < s.len() {
            assert(s[j] == k);
        }
    }
}

/// Every document a store lacks is either copied from the cache or reported
/// as a gap the cache cannot fill, never both: it is copied exactly when the
/// cache holds it.
pub proof fn lemma_gaps_are_filled_or_reported(held: Seq<bool>, cached: Seq<bool>, n: int, k: int)
    requires
        0 <= n <= held.len(),
        held.len() == cached.len(),
    ensures
        gaps(held, n).contains(k) <==> (gaps_where(held, cached, true, n).contains(k)
            || gaps_where(held, cached, false, n).contains(k)),
        gaps_where(held, cached, true, n).contains(k) ==> 0 <= k < n && !held[k] && cached[k],
        gaps_where(held, cached, false, n).contains(k) ==> 0 <= k < n && !held[k] && !cached[k],
    decreases n,
{
    if n > 0 {
        lemma_gaps_are_filled_or_reported(held, cached, n - 1, k);
        lemma_push_contains(gaps(held, n - 1), n - 1, k);
        lemma_push_contains(gaps_where(held, cached, true, n - 1), n - 1, k);
        lemma_push_contains(gaps_where(held, cached, false, n - 1), n - 1, k);
    }
}

pub open spec fn positions(v: Seq<usize>) -> Seq<int> {
    v.map_values(|k: usize| k as int)
}

/// The plan for one store: `held[k]` says whether it holds document `k`,
/// `cached[k]` whether the local cache does. Every missing document is
/// either copied from the cache or reported as a gap the cache cannot fill.
pub fn plan_store(held: &Vec<bool>, cached: &Vec<bool>) -> (r: StoreSync)
    requires
        held@.len() == cached@.len(),
    ensures
        positions(r.missing@) == gaps(held@, held@.len() as int),
        positions(r.copy@) == gaps_where(held@, cached@, true, held@.len() as int),
        positions(r.unfillable@) == gaps_where(held@, cached@, false, held@.len() as int),
{
    let mut missing: Vec<usize> = Vec::new();
    let mut copy: Vec<usize> = Vec::new();
    let mut unfillable: Vec<usize> = Vec::new();
    let mut i: usize = 0;
    while i < held.len()
        invariant
            i <= held@.len(),
            held@.len() == cached@.len(),
            positions(missing@) == gaps(held@, i as int),
            positions(copy@) == gaps_where(held@, cached@, true, i as int),
            positions(unfillable@) == gaps_where(held@, cached@, false, i as int),
        decreases held.len() - i,
    {
        if !held[i] {
            missing.push(i);
            if cached[i] {
                copy.push(i);
            } else {
                unfillable.push(i);
            }
        }
        assert(positions(missing@) =~= gaps(held@, i as int + 1));
        assert(positions(copy@) =~= gaps_where(held@, cached@, true, i as int + 1));
        assert(positions(unfillable@) =~= gaps_where(held@, cached@, false, i as int + 1));
        i += 1;
    }
    StoreSync { missing, copy, unfillable }
}

} // verus!
