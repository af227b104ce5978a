//! Converging the stores on the union of what they hold.
//!
//! Stores are append-only replicas: a file one store has and another lacks
//! is copied, never deleted. Files whose deletion was recorded are left out
//! of the union, so a store that was offline during the deletion cannot
//! bring them back.

use vstd::prelude::*;

use crate::order::{
    entry_lt, is_permutation, lemma_lex_total, lemma_lex_transitive, lex_less, lex_lt,
    stable_sort_by_key,
};
use crate::text::{chars_of, str_equal};

verus! {

/// What one store lists: its name and each file's path and size.
pub struct Holding {
    pub store: String,
    pub files: Vec<(String, u64)>,
}

/// One copy to make: `path` from store `source` into store `destination`.
pub struct Transfer {
    pub source: String,
    pub destination: String,
    pub path: String,
    pub size: u64,
}

pub open spec fn listing_view(files: Seq<(String, u64)>) -> Seq<(Seq<char>, u64)> {
    files.map_values(|e: (String, u64)| (e.0@, e.1))
}

pub open spec fn holding_view(h: Holding) -> (Seq<char>, Seq<(Seq<char>, u64)>) {
    (h.store@, listing_view(h.files@))
}

pub open spec fn holdings_view(h: Seq<Holding>) -> Seq<(Seq<char>, Seq<(Seq<char>, u64)>)> {
    h.map_values(|x: Holding| holding_view(x))
}

pub open spec fn names_view(v: Seq<String>) -> Seq<Seq<char>> {
    v.map_values(|s: String| s@)
}

pub open spec fn transfer_view(t: Transfer) -> (Seq<char>, Seq<char>, Seq<char>, u64) {
    (t.source@, t.destination@, t.path@, t.size)
}

/// Whether a listing has a file at `p`.
pub open spec fn holds(files: Seq<(Seq<char>, u64)>, p: Seq<char>) -> bool {
    exists|i: int| 0 <= i < files.len() && (#[trigger] files[i]).0 == p
}

/// Every store's listing, one after another.
pub open spec fn flat(h: Seq<(Seq<char>, Seq<(Seq<char>, u64)>)>) -> Seq<(Seq<char>, u64)>
    decreases h.len(),
{
    if h.len() == 0 {
        Seq::empty()
    } else {
        flat(h.drop_last()) + h.last().1
    }
}

/// The size of the last entry for `p`.
pub open spec fn last_size(entries: Seq<(Seq<char>, u64)>, p: Seq<char>) -> Option<u64>
    decreases entries.len(),
{
    if entries.len() == 0 {
        None
    } else if entries.last().0 == p {
        Some(entries.last().1)
    } else {
        last_size(entries.drop_last(), p)
    }
}

/// Whether `p` belongs in every store afterwards, and with what size: it
/// does when some store lists it and its deletion was not recorded; the
/// size is that of the last store, in order, that lists it.
pub open spec fn target_size(
    h: Seq<(Seq<char>, Seq<(Seq<char>, u64)>)>,
    deleted: Seq<Seq<char>>,
    p: Seq<char>,
) -> Option<u64> {
    if deleted.contains(p) {
        None
    } else {
        last_size(flat(h), p)
    }
}

/// `u` is the union: every path that belongs, once, with its size, in
/// increasing order of path.
pub open spec fn is_union(
    h: Seq<(Seq<char>, Seq<(Seq<char>, u64)>)>,
    deleted: Seq<Seq<char>>,
    u: Seq<(Seq<char>, u64)>,
) -> bool {
    &&& forall|i: int, j: int| 0 <= i < j < u.len() ==> lex_lt((#[trigger] u[i]).0, (#[trigger] u[j]).0)
    &&& forall|k: int| 0 <= k < u.len() ==> target_size(h, deleted, (#[trigger] u[k]).0) == Some(u[k].1)
    &&& forall|p: Seq<char>| #[trigger] target_size(h, deleted, p) is Some ==> exists|k: int|
        0 <= k < u.len() && (#[trigger] u[k]).0 == p
}

proof fn lemma_last_size_push(entries: Seq<(Seq<char>, u64)>, e: (Seq<char>, u64), q: Seq<char>)
    ensures
        last_size(entries.push(e), q) == if e.0 == q {
            Some(e.1)
        } else {
            last_size(entries, q)
        },
{
    assert(entries.push(e).drop_last() =~= entries);
}

fn position_of(u: &Vec<(String, u64)>, path: &String) -> (r: Option<usize>)
    ensures
        match r {
            Some(k) => k < u@.len() && u@[k as int].0@ == path@,
            None => forall|j: int| 0 <= j < u@.len() ==> (#[trigger] u@[j]).0@ != path@,
        },
{
    let mut k: usize = 0;
    while k < u.len()
        invariant
            k <= u@.len(),
            forall|j: int| 0 <= j < k ==> (#[trigger] u@[j]).0@ != path@,
        decreases u.len() - k,
    {
        if str_equal(u[k].0.as_str(), path.as_str()) {
            return Some(k);
        }
        k += 1;
    }
    None
}

/// Whether `p` is one of `names`.
pub(crate) fn is_listed(names: &Vec<String>, p: &String) -> (r: bool)
    ensures
        r == names_view(names@).contains(p@),
{
    let mut i: usize = 0;
    while i < names.len()
        invariant
            i <= names.len(),
            forall|k: int| 0 <= k < i ==> names@[k]@ != p@,
        decreases names.len() - i,
    {
        if str_equal(names[i].as_str(), p.as_str()) {
            assert(names_view(names@)[i as int] == p@);
            return true;
        }
        i += 1;
    }
    assert forall|k: int| 0 <= k < names_view(names@).len() implies names_view(names@)[k] != p@ by {
        assert(names_view(names@)[k] == names@[k]@);
    }
    false
}

/// The union of what the stores list, leaving out recorded deletions, in
/// increasing order of path.
pub fn union_of(holdings: &Vec<Holding>, deleted: &Vec<String>) -> (r: Vec<(String, u64)>)
    ensures
        is_union(holdings_view(holdings@), names_view(deleted@), listing_view(r@)),
{
    let ghost hv = holdings_view(holdings@);
    let ghost dv = names_view(deleted@);
    let mut u: Vec<(String, u64)> = Vec::new();
    let ghost mut seen: Seq<(Seq<char>, u64)> = Seq::empty();
    let mut s: usize = 0;
    while s < holdings.len()
        invariant
            s <= holdings.len(),
            hv == holdings_view(holdings@),
            dv == names_view(deleted@),
            seen == flat(hv.take(s as int)),
            forall|a: int, b: int| 0 <= a < b < u@.len() ==> (#[trigger] u@[a]).0@ != (#[trigger] u@[b]).0@,
            forall|k: int| 0 <= k < u@.len() ==> !dv.contains((#[trigger] u@[k]).0@) && last_size(seen, u@[k].0@) == Some(u@[k].1),
            forall|p: Seq<char>| !dv.contains(p) && #[trigger] last_size(seen, p) is Some ==> exists|k: int|
                0 <= k < u@.len() && (#[trigger] u@[k]).0@ == p,
        decreases holdings.len() - s,
    {
        let files = &holdings[s].files;
        let ghost base = seen;
        let mut f: usize = 0;
        while f < files.len()
            invariant
                f <= files.len(),
                files == holdings@[s as int].files,
                dv == names_view(deleted@),
                seen == base + listing_view(files@).take(f as int),
                forall|a: int, b: int| 0 <= a < b < u@.len() ==> (#[trigger] u@[a]).0@ != (#[trigger] u@[b]).0@,
                forall|k: int| 0 <= k < u@.len() ==> !dv.contains((#[trigger] u@[k]).0@) && last_size(seen, u@[k].0@) == Some(u@[k].1),
                forall|p: Seq<char>| !dv.contains(p) && #[trigger] last_size(seen, p) is Some ==> exists|k: int|
                    0 <= k < u@.len() && (#[trigger] u@[k]).0@ == p,
            decreases files.len() - f,
        {
            let path = &files[f].0;
            let size = files[f].1;
            let ghost e = (path@, size);
            let ghost old_seen = seen;
            proof {
                assert(listing_view(files@).take(f as int + 1) =~= listing_view(files@).take(f as int).push(e));
                seen = seen.push(e);
                assert forall|q: Seq<char>| #[trigger] last_size(seen, q) == if e.0 == q { Some(e.1) } else { last_size(old_seen, q) } by {
                    lemma_last_size_push(old_seen, e, q);
                }
            }
            if !is_listed(deleted, path) {
                let pos = position_of(&u, path);
                if let Some(k) = pos {
                    let ghost old_u = u@;
                    u.set(k, (path.clone(), size));
                    proof {
                        assert forall|a: int, b: int| 0 <= a < b < u@.len() implies (#[trigger] u@[a]).0@ != (#[trigger] u@[b]).0@ by {
                            if a != k && b != k {
                                assert(u@[a] == old_u[a] && u@[b] == old_u[b]);
                            } else if a == k {
                                assert(u@[b] == old_u[b]);
                            } else {
                                assert(u@[a] == old_u[a]);
                            }
                        }
                        assert forall|q: Seq<char>| !dv.contains(q) && #[trigger] last_size(seen, q) is Some implies exists|j: int|
                            0 <= j < u@.len() && (#[trigger] u@[j]).0@ == q by {
                            if q == e.0 {
                                assert(u@[k as int].0@ == q);
                            } else {
                                let j = choose|j: int| 0 <= j < old_u.len() && (#[trigger] old_u[j]).0@ == q;
                                assert(u@[j].0@ == q);
                            }
                        }
                    }
                } else {
                    let ghost old_u = u@;
                    u.push((path.clone(), size));
                    proof {
                        assert forall|q: Seq<char>| !dv.contains(q) && #[trigger] last_size(seen, q) is Some implies exists|j: int|
                            0 <= j < u@.len() && (#[trigger] u@[j]).0@ == q by {
                            if q == e.0 {
                                assert(u@[old_u.len() as int].0@ == q);
                            } else {
                                let j = choose|j: int| 0 <= j < old_u.len() && (#[trigger] old_u[j]).0@ == q;
                                assert(u@[j].0@ == q);
                            }
                        }
                    }
                }
            } else {
                proof {
                    assert forall|q: Seq<char>| !dv.contains(q) && #[trigger] last_size(seen, q) is Some implies exists|j: int|
                        0 <= j < u@.len() && (#[trigger] u@[j]).0@ == q by {
                        assert(q != e.0);
                    }
                }
            }
            f += 1;
        }
        proof {
            assert(listing_view(files@).take(files@.len() as int) =~= listing_view(files@));
            assert(hv.take(s as int + 1).drop_last() =~= hv.take(s as int));
            assert(hv.take(s as int + 1).last() == hv[s as int]);
            assert(hv[s as int].1 == listing_view(files@));
        }
        s += 1;
    }
    assert(hv.take(holdings@.len() as int) =~= hv);
    // order the union by path
    let ghost uv = u@;
    let n = u.len();
    let mut keyed: Vec<(Vec<char>, (String, u64))> = Vec::new();
    let mut i: usize = 0;
    while i < n
        invariant
            n == uv.len(),
            i <= n,
            u@ == uv.skip(i as int),
            keyed@.len() == i,
            forall|k: int| 0 <= k < i ==> (#[trigger] keyed@[k]).1 == uv[k] && keyed@[k].0@ == uv[k].0@,
        decreases n - i,
    {
        let e = u.remove(0);
        assert(uv.skip(i as int).drop_first() =~= uv.skip(i as int + 1));
        let key = chars_of(e.0.as_str());
        keyed.push((key, e));
        i += 1;
    }
    let ghost kv = keyed@;
    let sorted = stable_sort_by_key(keyed);
    let ghost p = choose|p: Seq<int>|
        {
            &&& is_permutation(p, kv.len() as int)
            &&& sorted@.len() == kv.len()
            &&& forall|k: int| 0 <= k < sorted@.len() ==> #[trigger] sorted@[k] == kv[p[k]]
            &&& forall|a: int, b: int|
                0 <= a < b < sorted@.len() ==> entry_lt(
                    (#[trigger] sorted@[a].0@, p[a]),
                    (#[trigger] sorted@[b].0@, p[b]),
                )
        };
    let ghost sv = sorted@;
    let mut sorted = sorted;
    let mut out: Vec<(String, u64)> = Vec::new();
    let mut j: usize = 0;
    while j < n
        invariant
            j <= n,
            sv.len() == n,
            sorted@ == sv.skip(j as int),
            out@.len() == j,
            forall|k: int| 0 <= k < j ==> #[trigger] out@[k] == sv[k].1,
        decreases n - j,
    {
        let entry = sorted.remove(0);
        assert(sv.skip(j as int).drop_first() =~= sv.skip(j as int + 1));
        out.push(entry.1);
        j += 1;
    }
    proof {
        let ov = listing_view(out@);
        assert forall|a: int, b: int| 0 <= a < b < ov.len() implies lex_lt((#[trigger] ov[a]).0, (#[trigger] ov[b]).0) by {
            assert(entry_lt((sv[a].0@, p[a]), (sv[b].0@, p[b])));
            assert(sv[a] == kv[p[a]] && sv[b] == kv[p[b]]);
            assert(p[a] != p[b]);
        }
        assert forall|k: int| 0 <= k < ov.len() implies target_size(hv, dv, (#[trigger] ov[k]).0) == Some(ov[k].1) by {
            assert(sv[k] == kv[p[k]]);
        }
        assert forall|q: Seq<char>| #[trigger] target_size(hv, dv, q) is Some implies exists|k: int|
            0 <= k < ov.len() && (#[trigger] ov[k]).0 == q by {
            let m = choose|m: int| 0 <= m < uv.len() && (#[trigger] uv[m]).0@ == q;
            // m is some p[k]
            assert(is_permutation(p, n as int));
            assert(crate::order::hits(p, m));
            let k = choose|k: int| 0 <= k < p.len() && p[k] == m;
            assert(ov[k].0 == q);
        }
    }
    out
}


/// The first store from position `t` on, other than one named `dest`,
/// that lists `p`.
pub open spec fn source_from(
    h: Seq<(Seq<char>, Seq<(Seq<char>, u64)>)>,
    dest: Seq<char>,
    p: Seq<char>,
    t: nat,
) -> Option<int>
    decreases h.len() - t,
{
    if t >= h.len() {
        None
    } else if h[t as int].0 != dest && holds(h[t as int].1, p) {
        Some(t as int)
    } else {
        source_from(h, dest, p, t + 1)
    }
}

/// Where a store named `dest` copies `p` from: the first other store that
/// lists it.
pub open spec fn source_of(
    h: Seq<(Seq<char>, Seq<(Seq<char>, u64)>)>,
    dest: Seq<char>,
    p: Seq<char>,
) -> Option<int> {
    source_from(h, dest, p, 0)
}

/// The copies into store `s`, in the order of `u`: each path of `u` the
/// store lacks and another store lists.
pub open spec fn store_plan(
    h: Seq<(Seq<char>, Seq<(Seq<char>, u64)>)>,
    u: Seq<(Seq<char>, u64)>,
    s: int,
) -> Seq<(Seq<char>, Seq<char>, Seq<char>, u64)>
    decreases u.len(),
{
    if u.len() == 0 {
        Seq::empty()
    } else {
        let rest = store_plan(h, u.drop_last(), s);
        let e = u.last();
        if holds(h[s].1, e.0) {
            rest
        } else {
            match source_of(h, h[s].0, e.0) {
                Some(t) => rest.push((h[t].0, h[s].0, e.0, e.1)),
                None => rest,
            }
        }
    }
}

/// The copies into the first `n` stores, store by store.
pub open spec fn plan_upto(
    h: Seq<(Seq<char>, Seq<(Seq<char>, u64)>)>,
    u: Seq<(Seq<char>, u64)>,
    n: nat,
) -> Seq<(Seq<char>, Seq<char>, Seq<char>, u64)>
    decreases n,
{
    if n == 0 {
        Seq::empty()
    } else {
        plan_upto(h, u, (n - 1) as nat) + store_plan(h, u, n - 1)
    }
}

/// Every copy needed to bring every store up to the union `u`.
pub open spec fn planned(h: Seq<(Seq<char>, Seq<(Seq<char>, u64)>)>, u: Seq<(Seq<char>, u64)>) -> Seq<
    (Seq<char>, Seq<char>, Seq<char>, u64),
> {
    plan_upto(h, u, h.len())
}

fn lists(files: &Vec<(String, u64)>, p: &String) -> (r: bool)
    ensures
        r == holds(listing_view(files@), p@),
{
    let mut i: usize = 0;
    while i < files.len()
        invariant
            i <= files.len(),
            forall|k: int| 0 <= k < i ==> files@[k].0@ != p@,
        decreases files.len() - i,
    {
        if str_equal(files[i].0.as_str(), p.as_str()) {
            assert(listing_view(files@)[i as int].0 == p@);
            return true;
        }
        i += 1;
    }
    assert forall|k: int| 0 <= k < listing_view(files@).len() implies (#[trigger] listing_view(files@)[k]).0 != p@ by {
        assert(listing_view(files@)[k].0 == files@[k].0@);
    }
    false
}

fn find_source(holdings: &Vec<Holding>, dest: &String, p: &String) -> (r: Option<usize>)
    ensures
        match r {
            Some(t) => t < holdings@.len() && source_of(holdings_view(holdings@), dest@, p@) == Some(t as int),
            None => source_of(holdings_view(holdings@), dest@, p@) is None,
        },
{
    let ghost hv = holdings_view(holdings@);
    let mut t: usize = 0;
    while t < holdings.len()
        invariant
            t <= holdings.len(),
            hv == holdings_view(holdings@),
            source_of(hv, dest@, p@) == source_from(hv, dest@, p@, t as nat),
        decreases holdings.len() - t,
    {
        assert(hv[t as int] == holding_view(holdings@[t as int]));
        if !str_equal(holdings[t].store.as_str(), dest.as_str()) && lists(&holdings[t].files, p) {
            return Some(t);
        }
        t += 1;
    }
    None
}

/// The copies that bring every store up to `union`: store by store, and
/// within a store in the order of `union`, each path the store lacks,
/// taken from the first other store that lists it.
pub fn plan_transfers(holdings: &Vec<Holding>, union: &Vec<(String, u64)>) -> (r: Vec<Transfer>)
    ensures
        r@.map_values(|t: Transfer| transfer_view(t)) == planned(
            holdings_view(holdings@),
            listing_view(union@),
        ),
{
    let ghost hv = holdings_view(holdings@);
    let ghost uv = listing_view(union@);
    let mut out: Vec<Transfer> = Vec::new();
    let mut s: usize = 0;
    while s < holdings.len()
        invariant
            s <= holdings.len(),
            hv == holdings_view(holdings@),
            uv == listing_view(union@),
            out@.map_values(|t: Transfer| transfer_view(t)) == plan_upto(hv, uv, s as nat),
        decreases holdings.len() - s,
    {
        let ghost before = out@.map_values(|t: Transfer| transfer_view(t));
        assert(hv[s as int] == holding_view(holdings@[s as int]));
        let mut k: usize = 0;
        while k < union.len()
            invariant
                k <= union.len(),
                s < holdings.len(),
                hv == holdings_view(holdings@),
                uv == listing_view(union@),
                hv[s as int] == holding_view(holdings@[s as int]),
                out@.map_values(|t: Transfer| transfer_view(t)) == before + store_plan(
                    hv,
                    uv.take(k as int),
                    s as int,
                ),
            decreases union.len() - k,
        {
            let ghost prev = out@.map_values(|t: Transfer| transfer_view(t));
            assert(uv.take(k as int + 1).drop_last() =~= uv.take(k as int));
            assert(uv.take(k as int + 1).last() == uv[k as int]);
            let path = &union[k].0;
            if !lists(&holdings[s].files, path) {
                if let Some(t) = find_source(holdings, &holdings[s].store, path) {
                    assert(hv[t as int] == holding_view(holdings@[t as int]));
                    out.push(
                        Transfer {
                            source: holdings[t].store.clone(),
                            destination: holdings[s].store.clone(),
                            path: path.clone(),
                            size: union[k].1,
                        },
                    );
                    assert(out@.map_values(|t: Transfer| transfer_view(t)) =~= prev.push(
                        transfer_view(out@.last()),
                    ));
                }
            }
            k += 1;
        }
        assert(uv.take(union@.len() as int) =~= uv);
        s += 1;
    }
    out
}

proof fn lemma_flat_holder(h: Seq<(Seq<char>, Seq<(Seq<char>, u64)>)>, p: Seq<char>)
    requires
        last_size(flat(h), p) is Some,
    ensures
        exists|s: int| 0 <= s < h.len() && holds(#[trigger] h[s].1, p),
    decreases h.len(),
{
    if h.len() > 0 {
        let a = flat(h.drop_last());
        let b = h.last().1;
        if holds(b, p) {
            assert(holds(h[h.len() - 1].1, p));
        } else {
            lemma_last_size_append(a, b, p);
            lemma_flat_holder(h.drop_last(), p);
            let s = choose|s: int| 0 <= s < h.drop_last().len() && holds(#[trigger] h.drop_last()[s].1, p);
            assert(h[s] == h.drop_last()[s]);
        }
    }
}

proof fn lemma_last_size_append(a: Seq<(Seq<char>, u64)>, b: Seq<(Seq<char>, u64)>, p: Seq<char>)
    requires
        !holds(b, p),
    ensures
        last_size(a + b, p) == last_size(a, p),
    decreases b.len(),
{
    if b.len() == 0 {
        assert(a + b =~= a);
    } else {
        assert((a + b).drop_last() =~= a + b.drop_last());
        assert((a + b).last() == b.last());
        assert(b.last() == b[b.len() - 1]);
        assert(!holds(b.drop_last(), p)) by {
            if holds(b.drop_last(), p) {
                let i = choose|i: int| 0 <= i < b.drop_last().len() && (#[trigger] b.drop_last()[i]).0 == p;
                assert(b[i] == b.drop_last()[i]);
            }
        }
        lemma_last_size_append(a, b.drop_last(), p);
    }
}

proof fn lemma_source_found(
    h: Seq<(Seq<char>, Seq<(Seq<char>, u64)>)>,
    dest: Seq<char>,
    p: Seq<char>,
    t: nat,
    w: int,
)
    requires
        t <= w < h.len(),
        h[w].0 != dest,
        holds(h[w].1, p),
    ensures
        source_from(h, dest, p, t) is Some,
    decreases w - t,
{
    if t < w {
        if !(h[t as int].0 != dest && holds(h[t as int].1, p)) {
            lemma_source_found(h, dest, p, t + 1, w);
        }
    }
}

proof fn lemma_source_sound(
    h: Seq<(Seq<char>, Seq<(Seq<char>, u64)>)>,
    dest: Seq<char>,
    p: Seq<char>,
    t: nat,
)
    requires
        source_from(h, dest, p, t) is Some,
    ensures
        0 <= source_from(h, dest, p, t)->0 < h.len(),
        h[source_from(h, dest, p, t)->0].0 != dest,
        holds(h[source_from(h, dest, p, t)->0].1, p),
    decreases h.len() - t,
{
    if t < h.len() && !(h[t as int].0 != dest && holds(h[t as int].1, p)) {
        lemma_source_sound(h, dest, p, t + 1);
    }
}

proof fn lemma_store_plan_has(
    h: Seq<(Seq<char>, Seq<(Seq<char>, u64)>)>,
    u: Seq<(Seq<char>, u64)>,
    s: int,
    k: int,
)
    requires
        0 <= k < u.len(),
        !holds(h[s].1, u[k].0),
        source_of(h, h[s].0, u[k].0) is Some,
    ensures
        exists|m: int|
            0 <= m < store_plan(h, u, s).len() && (#[trigger] store_plan(h, u, s)[m]).1 == h[s].0
                && store_plan(h, u, s)[m].2 == u[k].0,
    decreases u.len(),
{
    let rest = store_plan(h, u.drop_last(), s);
    if k == u.len() - 1 {
        assert(u.last() == u[k]);
        let m = rest.len() as int;
        assert(store_plan(h, u, s)[m].1 == h[s].0);
    } else {
        assert(u.drop_last()[k] == u[k]);
        lemma_store_plan_has(h, u.drop_last(), s, k);
        let m = choose|m: int|
            0 <= m < rest.len() && (#[trigger] rest[m]).1 == h[s].0 && rest[m].2 == u[k].0;
        assert(store_plan(h, u, s)[m] == rest[m]);
    }
}

proof fn lemma_plan_upto_has(
    h: Seq<(Seq<char>, Seq<(Seq<char>, u64)>)>,
    u: Seq<(Seq<char>, u64)>,
    n: nat,
    s: int,
    m: int,
)
    requires
        0 <= s < n,
        0 <= m < store_plan(h, u, s).len(),
    ensures
        exists|j: int| 0 <= j < plan_upto(h, u, n).len() && #[trigger] plan_upto(h, u, n)[j] == store_plan(h, u, s)[m],
    decreases n,
{
    let prev = plan_upto(h, u, (n - 1) as nat);
    if s == n - 1 {
        let j = prev.len() + m;
        assert(plan_upto(h, u, n)[j] == store_plan(h, u, s)[m]);
    } else {
        lemma_plan_upto_has(h, u, (n - 1) as nat, s, m);
        let j = choose|j: int| 0 <= j < prev.len() && #[trigger] prev[j] == store_plan(h, u, s)[m];
        assert(plan_upto(h, u, n)[j] == prev[j]);
    }
}

/// Stores converge: after the planned copies every store holds every path
/// that belongs in the union. Two listings under one store name (two
/// configured entries for the same folder) are listings of that folder and
/// so agree.
pub proof fn lemma_update_converges(
    h: Seq<(Seq<char>, Seq<(Seq<char>, u64)>)>,
    deleted: Seq<Seq<char>>,
    u: Seq<(Seq<char>, u64)>,
)
    requires
        is_union(h, deleted, u),
        forall|a: int, b: int|
            0 <= a < h.len() && 0 <= b < h.len() && (#[trigger] h[a]).0 == (#[trigger] h[b]).0
                ==> h[a].1 == h[b].1,
    ensures
        forall|s: int, p: Seq<char>|
            0 <= s < h.len() && #[trigger] target_size(h, deleted, p) is Some ==> holds(
                #[trigger] h[s].1,
                p,
            ) || exists|m: int|
                0 <= m < planned(h, u).len() && (#[trigger] planned(h, u)[m]).1 == h[s].0
                    && planned(h, u)[m].2 == p,
{
    assert forall|s: int, p: Seq<char>|
        0 <= s < h.len() && #[trigger] target_size(h, deleted, p) is Some implies holds(
            #[trigger] h[s].1,
            p,
        ) || exists|m: int|
            0 <= m < planned(h, u).len() && (#[trigger] planned(h, u)[m]).1 == h[s].0
                && planned(h, u)[m].2 == p by {
        if !holds(h[s].1, p) {
            lemma_flat_holder(h, p);
            let w = choose|w: int| 0 <= w < h.len() && holds(#[trigger] h[w].1, p);
            assert(h[w].0 != h[s].0);
            lemma_source_found(h, h[s].0, p, 0, w);
            let k = choose|k: int| 0 <= k < u.len() && (#[trigger] u[k]).0 == p;
            lemma_store_plan_has(h, u, s, k);
            let m = choose|m: int|
                0 <= m < store_plan(h, u, s).len() && (#[trigger] store_plan(h, u, s)[m]).1 == h[s].0
                    && store_plan(h, u, s)[m].2 == u[k].0;
            lemma_plan_upto_has(h, u, h.len(), s, m);
            let j = choose|j: int| 0 <= j < planned(h, u).len() && #[trigger] planned(h, u)[j] == store_plan(h, u, s)[m];
            assert(planned(h, u)[j].1 == h[s].0 && planned(h, u)[j].2 == p);
        }
    }
}


/// What a single planned copy is made of.
pub open spec fn sound_copy(
    h: Seq<(Seq<char>, Seq<(Seq<char>, u64)>)>,
    u: Seq<(Seq<char>, u64)>,
    s: int,
    e: (Seq<char>, Seq<char>, Seq<char>, u64),
) -> bool {
    exists|k: int, t: int|
        0 <= k < u.len() && 0 <= t < h.len() && e == (h[t].0, h[s].0, (#[trigger] u[k]).0, u[k].1)
            && h[t].0 != h[s].0 && holds(#[trigger] h[t].1, u[k].0) && !holds(h[s].1, u[k].0)
}

/// A copy planned for one of the first `n` stores.
pub open spec fn copy_for_some_store(
    h: Seq<(Seq<char>, Seq<(Seq<char>, u64)>)>,
    u: Seq<(Seq<char>, u64)>,
    n: int,
    e: (Seq<char>, Seq<char>, Seq<char>, u64),
) -> bool {
    exists|s: int| 0 <= s < n && #[trigger] sound_copy(h, u, s, e)
}

proof fn lemma_store_plan_sound(
    h: Seq<(Seq<char>, Seq<(Seq<char>, u64)>)>,
    u: Seq<(Seq<char>, u64)>,
    s: int,
)
    ensures
        forall|m: int| 0 <= m < store_plan(h, u, s).len() ==> sound_copy(h, u, s, #[trigger] store_plan(h, u, s)[m]),
    decreases u.len(),
{
    if u.len() > 0 {
        let rest = store_plan(h, u.drop_last(), s);
        lemma_store_plan_sound(h, u.drop_last(), s);
        let k = u.len() - 1;
        assert(u.last() == u[k]);
        assert forall|m: int| 0 <= m < store_plan(h, u, s).len() implies sound_copy(h, u, s, #[trigger] store_plan(h, u, s)[m]) by {
            if m < rest.len() {
                assert(store_plan(h, u, s)[m] == rest[m]);
                assert(sound_copy(h, u.drop_last(), s, rest[m]));
                let (k2, t2) = choose|k2: int, t2: int|
                    0 <= k2 < u.drop_last().len() && 0 <= t2 < h.len() && rest[m] == (h[t2].0, h[s].0, (#[trigger] u.drop_last()[k2]).0, u.drop_last()[k2].1)
                        && h[t2].0 != h[s].0 && holds(#[trigger] h[t2].1, u.drop_last()[k2].0) && !holds(h[s].1, u.drop_last()[k2].0);
                assert(u.drop_last()[k2] == u[k2]);
            } else {
                let t = source_of(h, h[s].0, u[k].0)->0;
                lemma_source_sound(h, h[s].0, u[k].0, 0);
                assert(store_plan(h, u, s)[m] == (h[t].0, h[s].0, u[k].0, u[k].1));
            }
        }
    }
}

proof fn lemma_plan_upto_sound(
    h: Seq<(Seq<char>, Seq<(Seq<char>, u64)>)>,
    u: Seq<(Seq<char>, u64)>,
    n: nat,
)
    requires
        n <= h.len(),
    ensures
        forall|j: int| 0 <= j < plan_upto(h, u, n).len() ==> copy_for_some_store(h, u, n as int, #[trigger] plan_upto(h, u, n)[j]),
    decreases n,
{
    if n > 0 {
        let prev = plan_upto(h, u, (n - 1) as nat);
        lemma_plan_upto_sound(h, u, (n - 1) as nat);
        lemma_store_plan_sound(h, u, n - 1);
        assert forall|j: int| 0 <= j < plan_upto(h, u, n).len() implies copy_for_some_store(h, u, n as int, #[trigger] plan_upto(h, u, n)[j]) by {
            if j < prev.len() {
                assert(plan_upto(h, u, n)[j] == prev[j]);
                assert(copy_for_some_store(h, u, n - 1, prev[j]));
                let s = choose|s: int| 0 <= s < n - 1 && #[trigger] sound_copy(h, u, s, prev[j]);
                assert(sound_copy(h, u, s, plan_upto(h, u, n)[j]));
            } else {
                assert(plan_upto(h, u, n)[j] == store_plan(h, u, n - 1)[j - prev.len()]);
                assert(sound_copy(h, u, n - 1, plan_upto(h, u, n)[j]));
            }
        }
    }
}

/// Nothing deleted comes back: every planned copy is of a path in the
/// union, whose deletion was not recorded, taken from another store that
/// lists it into a store that lacks it.
pub proof fn lemma_update_never_resurrects(
    h: Seq<(Seq<char>, Seq<(Seq<char>, u64)>)>,
    deleted: Seq<Seq<char>>,
    u: Seq<(Seq<char>, u64)>,
)
    requires
        is_union(h, deleted, u),
    ensures
        forall|j: int| 0 <= j < planned(h, u).len() ==> !deleted.contains((#[trigger] planned(h, u)[j]).2),
        forall|j: int| 0 <= j < planned(h, u).len() ==> copy_for_some_store(h, u, h.len() as int, #[trigger] planned(h, u)[j]),
{
    lemma_plan_upto_sound(h, u, h.len());
    assert forall|j: int| 0 <= j < planned(h, u).len() implies copy_for_some_store(h, u, h.len() as int, #[trigger] planned(h, u)[j]) by {
        assert(copy_for_some_store(h, u, h.len() as int, plan_upto(h, u, h.len())[j]));
    }
    assert forall|j: int| 0 <= j < planned(h, u).len() implies !deleted.contains((#[trigger] planned(h, u)[j]).2) by {
        assert(copy_for_some_store(h, u, h.len() as int, planned(h, u)[j]));
        let s = choose|s: int| 0 <= s < h.len() && #[trigger] sound_copy(h, u, s, planned(h, u)[j]);
        let (k, t) = choose|k: int, t: int|
            0 <= k < u.len() && 0 <= t < h.len() && planned(h, u)[j] == (h[t].0, h[s].0, (#[trigger] u[k]).0, u[k].1)
                && h[t].0 != h[s].0 && holds(#[trigger] h[t].1, u[k].0) && !holds(h[s].1, u[k].0);
        assert(target_size(h, deleted, u[k].0) == Some(u[k].1));
    }
}

/// Why there is nothing for `update` to converge.
#[derive(Debug, Clone, Copy, PartialEq, Eq)]
pub enum UpdateRefusal {
    /// Only one store is configured; add another first.
    SingleStore,
    /// Fewer than two configured stores can be reached.
    TooFewReachable,
}

/// Converging takes two stores to copy between, both configured and
/// reachable.
pub fn check_convergeable(configured: usize, reachable: usize) -> (r: Result<(), UpdateRefusal>)
    ensures
        configured < 2 ==> r == Err::<(), UpdateRefusal>(UpdateRefusal::SingleStore),
        configured >= 2 && reachable < 2 ==> r == Err::<(), UpdateRefusal>(
            UpdateRefusal::TooFewReachable,
        ),
        configured >= 2 && reachable >= 2 ==> r is Ok,
{
    if configured < 2 {
        Err(UpdateRefusal::SingleStore)
    } else if reachable < 2 {
        Err(UpdateRefusal::TooFewReachable)
    } else {
        Ok(())
    }
}

/// What `update` settles on once it can run: the union the stores converge
/// on, the copies that get every store there, and whether they are made
/// (not on a dry run, which only reports them).
pub struct UpdateRound {
    pub union: Vec<(String, u64)>,
    pub plan: Vec<Transfer>,
    pub copy: bool,
}

/// A run of `update` over the listings of the reachable stores, out of
/// `configured` stores: refused with fewer than two of either, otherwise the
/// union of the listings without the recorded deletions and the copies
/// planned toward it, made unless this is a dry run.
pub fn update_round(
    configured: usize,
    holdings: &Vec<Holding>,
    deleted: &Vec<String>,
    dry_run: bool,
) -> (r: Result<UpdateRound, UpdateRefusal>)
    ensures
        configured < 2 ==> r == Err::<UpdateRound, UpdateRefusal>(UpdateRefusal::SingleStore),
        configured >= 2 && holdings@.len() < 2 ==> r == Err::<UpdateRound, UpdateRefusal>(
            UpdateRefusal::TooFewReachable,
        ),
        configured >= 2 && holdings@.len() >= 2 ==> (r matches Ok(round) && is_union(
            holdings_view(holdings@),
            names_view(deleted@),
            listing_view(round.union@),
        ) && round.plan@.map_values(|t: Transfer| transfer_view(t)) == planned(
            holdings_view(holdings@),
            listing_view(round.union@),
        ) && round.copy == !dry_run),
{
    match check_convergeable(configured, holdings.len()) {
        Err(e) => Err(e),
        Ok(()) => {
            let union = union_of(holdings, deleted);
            let plan = plan_transfers(holdings, &union);
            Ok(UpdateRound { union, plan, copy: !dry_run })
        },
    }
}

/// The copies a run makes: the plan, or none on a dry run.
pub open spec fn copies_made(
    plan: Seq<(Seq<char>, Seq<char>, Seq<char>, u64)>,
    dry_run: bool,
) -> Seq<(Seq<char>, Seq<char>, Seq<char>, u64)> {
    if dry_run {
        Seq::empty()
    } else {
        plan
    }
}

/// Whether store `s` holds `p` once `copies` have all landed: it listed
/// `p`, or one of the copies brought `p` into a store of its name.
pub open spec fn holds_after(
    h: Seq<(Seq<char>, Seq<(Seq<char>, u64)>)>,
    copies: Seq<(Seq<char>, Seq<char>, Seq<char>, u64)>,
    s: int,
    p: Seq<char>,
) -> bool {
    holds(h[s].1, p) || exists|m: int|
        0 <= m < copies.len() && (#[trigger] copies[m]).1 == h[s].0 && copies[m].2 == p
}

/// A run of `update` in which every copy succeeds. Afterwards every store
/// holds every path that some store listed and whose deletion was not
/// recorded; no store loses a file it held; nothing deleted is copied
/// anywhere; and a dry run leaves every store as it was. Two listings under
/// one store name are listings of one folder and so agree.
pub proof fn lemma_update_run(
    h: Seq<(Seq<char>, Seq<(Seq<char>, u64)>)>,
    deleted: Seq<Seq<char>>,
    u: Seq<(Seq<char>, u64)>,
    dry_run: bool,
)
    requires
        is_union(h, deleted, u),
        forall|a: int, b: int|
            0 <= a < h.len() && 0 <= b < h.len() && (#[trigger] h[a]).0 == (#[trigger] h[b]).0
                ==> h[a].1 == h[b].1,
    ensures
        !dry_run ==> forall|s: int, t: int, p: Seq<char>|
            0 <= s < h.len() && 0 <= t < h.len() && holds(#[trigger] h[t].1, p) && !deleted.contains(p)
                ==> #[trigger] holds_after(h, copies_made(planned(h, u), dry_run), s, p),
        forall|s: int, p: Seq<char>|
            0 <= s < h.len() && holds(h[s].1, p) ==> #[trigger] holds_after(
                h,
                copies_made(planned(h, u), dry_run),
                s,
                p,
            ),
        dry_run ==> forall|s: int, p: Seq<char>|
            0 <= s < h.len() ==> (#[trigger] holds_after(
                h,
                copies_made(planned(h, u), dry_run),
                s,
                p,
            ) <==> holds(h[s].1, p)),
        forall|m: int|
            0 <= m < copies_made(planned(h, u), dry_run).len() ==> !deleted.contains(
                (#[trigger] copies_made(planned(h, u), dry_run)[m]).2,
            ),
{
    lemma_update_converges(h, deleted, u);
    lemma_update_never_resurrects(h, deleted, u);
    let made = copies_made(planned(h, u), dry_run);
    if !dry_run {
        assert forall|s: int, t: int, p: Seq<char>|
            0 <= s < h.len() && 0 <= t < h.len() && holds(#[trigger] h[t].1, p) && !deleted.contains(p)
                implies #[trigger] holds_after(h, made, s, p) by {
            lemma_flat_holds(h, t, p);
            lemma_holds_last_size(flat(h), p);
            assert(target_size(h, deleted, p) is Some);
            if !holds(h[s].1, p) {
                let m = choose|m: int|
                    0 <= m < planned(h, u).len() && (#[trigger] planned(h, u)[m]).1 == h[s].0
                        && planned(h, u)[m].2 == p;
                assert(made[m] == planned(h, u)[m]);
            }
        }
    } else {
        assert forall|s: int, p: Seq<char>| 0 <= s < h.len() implies (#[trigger] holds_after(
            h,
            made,
            s,
            p,
        ) <==> holds(h[s].1, p)) by {
            assert(made.len() == 0);
        }
    }
}

proof fn lemma_holds_last_size(entries: Seq<(Seq<char>, u64)>, p: Seq<char>)
    requires
        holds(entries, p),
    ensures
        last_size(entries, p) is Some,
    decreases entries.len(),
{
    let i = choose|i: int| 0 <= i < entries.len() && (#[trigger] entries[i]).0 == p;
    if entries.last().0 != p {
        assert(i < entries.len() - 1);
        assert(entries.drop_last()[i] == entries[i]);
        lemma_holds_last_size(entries.drop_last(), p);
    }
}

proof fn lemma_flat_holds(h: Seq<(Seq<char>, Seq<(Seq<char>, u64)>)>, t: int, p: Seq<char>)
    requires
        0 <= t < h.len(),
        holds(h[t].1, p),
    ensures
        holds(flat(h), p),
    decreases h.len(),
{
    let a = flat(h.drop_last());
    let b = h.last().1;
    assert(flat(h) == a + b);
    if t == h.len() - 1 {
        let i = choose|i: int| 0 <= i < b.len() && (#[trigger] b[i]).0 == p;
        assert((a + b)[a.len() + i] == b[i]);
    } else {
        assert(h.drop_last()[t] == h[t]);
        lemma_flat_holds(h.drop_last(), t, p);
        let i = choose|i: int| 0 <= i < a.len() && (#[trigger] a[i]).0 == p;
        assert((a + b)[i] == a[i]);
    }
}

/// One destination's share of a plan.
pub struct DestinationTotal {
    pub destination: String,
    pub files: usize,
    /// Bytes to copy there, saturating at `u64::MAX`.
    pub bytes: u64,
}

/// How many of the transfers go to `d`.
pub open spec fn dest_count(plan: Seq<Transfer>, d: Seq<char>) -> nat
    decreases plan.len(),
{
    if plan.len() == 0 {
        0
    } else {
        dest_count(plan.drop_last(), d) + if plan.last().destination@ == d {
            1nat
        } else {
            0nat
        }
    }
}

/// The bytes of the transfers to `d`.
pub open spec fn dest_bytes(plan: Seq<Transfer>, d: Seq<char>) -> int
    decreases plan.len(),
{
    if plan.len() == 0 {
        0
    } else {
        dest_bytes(plan.drop_last(), d) + if plan.last().destination@ == d {
            plan.last().size as int
        } else {
            0
        }
    }
}

pub open spec fn capped_u64(n: int) -> int {
    if n > u64::MAX {
        u64::MAX as int
    } else {
        n
    }
}

proof fn lemma_dest_count_bound(plan: Seq<Transfer>, d: Seq<char>)
    ensures
        dest_count(plan, d) <= plan.len(),
        dest_bytes(plan, d) >= 0,
    decreases plan.len(),
{
    if plan.len() > 0 {
        lemma_dest_count_bound(plan.drop_last(), d);
    }
}

/// Some transfer goes to `x`.
pub open spec fn in_plan(plan: Seq<Transfer>, x: Seq<char>) -> bool {
    exists|m: int| 0 <= m < plan.len() && plan[m].destination@ == x
}

/// Some total is for `x`.
pub open spec fn in_totals(r: Seq<DestinationTotal>, x: Seq<char>) -> bool {
    exists|a: int| 0 <= a < r.len() && r[a].destination@ == x
}

/// Some key is `x`.
pub open spec fn has_key(keys: Seq<Vec<char>>, x: Seq<char>) -> bool {
    exists|a: int| 0 <= a < keys.len() && keys[a]@ == x
}

/// Strictly increasing keys.
pub open spec fn keys_sorted(keys: Seq<Vec<char>>) -> bool {
    forall|a: int, b: int| 0 <= a < b < keys.len() ==> lex_lt(#[trigger] keys[a]@, #[trigger] keys[b]@)
}

/// Adds `d` to strictly increasing keys, unless it is there already.
fn insert_key(keys: &mut Vec<Vec<char>>, d: Vec<char>)
    requires
        keys_sorted(old(keys)@),
    ensures
        keys_sorted(final(keys)@),
        forall|x: Seq<char>| #[trigger] has_key(final(keys)@, x) <==> (has_key(old(keys)@, x) || x == d@),
{
    let mut j: usize = 0;
    while j < keys.len() && lex_less(&keys[j], &d)
        invariant
            j <= keys@.len(),
            forall|a: int| 0 <= a < j ==> lex_lt((#[trigger] keys@[a])@, d@),
        decreases keys.len() - j,
    {
        j += 1;
    }
    let ghost old_keys = keys@;
    if j < keys.len() && crate::text::chars_equal(&keys[j], &d) {
        assert forall|x: Seq<char>| #[trigger] has_key(keys@, x) <==> (has_key(old_keys, x) || x == d@) by {
            if x == d@ {
                assert(keys@[j as int]@ == x);
            }
        }
        return;
    }
    proof {
        if j < keys@.len() {
            lemma_lex_total(keys@[j as int]@, d@);
        }
    }
    keys.insert(j, d);
    proof {
        assert forall|a: int, b: int| 0 <= a < b < keys@.len() implies lex_lt(
            #[trigger] keys@[a]@,
            #[trigger] keys@[b]@,
        ) by {
            if a < j && b < j {
                assert(keys@[a] == old_keys[a] && keys@[b] == old_keys[b]);
            } else if a < j && b == j {
                assert(keys@[a] == old_keys[a]);
            } else if a < j && b > j {
                assert(keys@[a] == old_keys[a] && keys@[b] == old_keys[b - 1]);
                assert(lex_lt(d@, old_keys[j as int]@));
                if b - 1 > j {
                    lemma_lex_transitive(d@, old_keys[j as int]@, old_keys[b - 1]@);
                }
                lemma_lex_transitive(old_keys[a]@, d@, old_keys[b - 1]@);
            } else if a == j {
                assert(keys@[b] == old_keys[b - 1]);
                assert(lex_lt(d@, old_keys[j as int]@));
                if b - 1 > j {
                    lemma_lex_transitive(d@, old_keys[j as int]@, old_keys[b - 1]@);
                }
            } else {
                assert(keys@[a] == old_keys[a - 1] && keys@[b] == old_keys[b - 1]);
            }
        }
        assert forall|x: Seq<char>| #[trigger] has_key(keys@, x) <==> (has_key(old_keys, x) || x == d@) by {
            if has_key(keys@, x) {
                let a = choose|a: int| 0 <= a < keys@.len() && keys@[a]@ == x;
                if a < j {
                    assert(old_keys[a]@ == x);
                } else if a > j {
                    assert(old_keys[a - 1]@ == x);
                }
            }
            if has_key(old_keys, x) {
                let a = choose|a: int| 0 <= a < old_keys.len() && old_keys[a]@ == x;
                if a < j {
                    assert(keys@[a]@ == x);
                } else {
                    assert(keys@[a + 1]@ == x);
                }
            }
            if x == d@ {
                assert(keys@[j as int]@ == x);
            }
        }
    }
}

/// The transfers to `key`, counted, and their bytes summed (saturating).
fn total_for(plan: &Vec<Transfer>, key: &Vec<char>) -> (r: (usize, u64))
    ensures
        r.0 == dest_count(plan@, key@),
        r.1 == capped_u64(dest_bytes(plan@, key@)),
{
    let name = crate::text::string_of(key);
    let mut files: usize = 0;
    let mut bytes: u64 = 0;
    let mut m: usize = 0;
    while m < plan.len()
        invariant
            m <= plan@.len(),
            name@ == key@,
            files == dest_count(plan@.take(m as int), key@),
            bytes == capped_u64(dest_bytes(plan@.take(m as int), key@)),
        decreases plan.len() - m,
    {
        assert(plan@.take(m as int + 1).drop_last() =~= plan@.take(m as int));
        proof {
            lemma_dest_count_bound(plan@.take(m as int), key@);
        }
        if crate::text::str_equal(plan[m].destination.as_str(), name.as_str()) {
            files += 1;
            bytes = bytes.saturating_add(plan[m].size);
        }
        m += 1;
    }
    assert(plan@.take(m as int) =~= plan@);
    (files, bytes)
}

/// Totals a plan by destination, in order of destination, so the report
/// answers "what does this store still need".
pub fn totals_by_destination(plan: &Vec<Transfer>) -> (r: Vec<DestinationTotal>)
    ensures
        forall|a: int, b: int|
            0 <= a < b < r@.len() ==> lex_lt(#[trigger] r@[a].destination@, #[trigger] r@[b].destination@),
        forall|a: int| 0 <= a < r@.len() ==> in_plan(plan@, (#[trigger] r@[a]).destination@),
        forall|m: int| 0 <= m < plan@.len() ==> in_totals(r@, (#[trigger] plan@[m]).destination@),
        forall|a: int|
            0 <= a < r@.len() ==> (#[trigger] r@[a]).files == dest_count(plan@, r@[a].destination@)
                && r@[a].bytes == capped_u64(dest_bytes(plan@, r@[a].destination@)),
{
    let mut keys: Vec<Vec<char>> = Vec::new();
    let mut k: usize = 0;
    while k < plan.len()
        invariant
            k <= plan@.len(),
            keys_sorted(keys@),
            forall|x: Seq<char>| #[trigger] has_key(keys@, x) <==> in_plan(plan@.take(k as int), x),
        decreases plan.len() - k,
    {
        let d = chars_of(plan[k].destination.as_str());
        let ghost before = keys@;
        insert_key(&mut keys, d);
        assert forall|x: Seq<char>| #[trigger] has_key(keys@, x) <==> in_plan(plan@.take(k as int + 1), x) by {
            let t = plan@.take(k as int + 1);
            if in_plan(t, x) {
                let m = choose|m: int| 0 <= m < t.len() && t[m].destination@ == x;
                if m < k {
                    assert(plan@.take(k as int)[m] == t[m]);
                    assert(in_plan(plan@.take(k as int), x));
                }
            }
            if in_plan(plan@.take(k as int), x) {
                let m = choose|m: int| 0 <= m < k && plan@.take(k as int)[m].destination@ == x;
                assert(t[m] == plan@.take(k as int)[m]);
            }
            if x == plan@[k as int].destination@ {
                assert(t[k as int] == plan@[k as int]);
            }
        }
        k += 1;
    }
    assert(plan@.take(k as int) =~= plan@);
    let mut out: Vec<DestinationTotal> = Vec::new();
    let mut a: usize = 0;
    while a < keys.len()
        invariant
            a <= keys@.len(),
            out@.len() == a,
            forall|x: int| 0 <= x < a ==> (#[trigger] out@[x]).destination@ == keys@[x]@,
            forall|x: int|
                0 <= x < a ==> (#[trigger] out@[x]).files == dest_count(plan@, out@[x].destination@)
                    && out@[x].bytes == capped_u64(dest_bytes(plan@, out@[x].destination@)),
        decreases keys.len() - a,
    {
        let (files, bytes) = total_for(plan, &keys[a]);
        out.push(DestinationTotal { destination: crate::text::string_of(&keys[a]), files, bytes });
        a += 1;
    }
    proof {
        assert forall|x: int, y: int| 0 <= x < y < out@.len() implies lex_lt(
            #[trigger] out@[x].destination@,
            #[trigger] out@[y].destination@,
        ) by {
            assert(lex_lt(keys@[x]@, keys@[y]@));
        }
        assert forall|x: int| 0 <= x < out@.len() implies in_plan(plan@, (#[trigger] out@[x]).destination@) by {
            assert(has_key(keys@, keys@[x]@));
        }
        assert forall|m: int| 0 <= m < plan@.len() implies in_totals(out@, (#[trigger] plan@[m]).destination@) by {
            assert(in_plan(plan@, plan@[m].destination@));
            assert(has_key(keys@, plan@[m].destination@));
            let a0 = choose|a0: int| 0 <= a0 < keys@.len() && keys@[a0]@ == plan@[m].destination@;
            assert(out@[a0].destination@ == plan@[m].destination@);
        }
    }
    out
}

} // verus!
