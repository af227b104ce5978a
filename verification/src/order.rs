//! Lexicographic order on text, and a stable sort keyed by text.
//!
//! Strings order by their characters' code points, which is the same order
//! as comparing their UTF-8 bytes.

use vstd::prelude::*;

verus! {

/// `a` comes strictly before `b`.
pub open spec fn lex_lt(a: Seq<char>, b: Seq<char>) -> bool
    decreases a.len(),
{
    if a.len() == 0 {
        b.len() > 0
    } else if b.len() == 0 {
        false
    } else if a[0] < b[0] {
        true
    } else if a[0] > b[0] {
        false
    } else {
        lex_lt(a.drop_first(), b.drop_first())
    }
}

/// `a` comes before `b` or equals it.
pub open spec fn lex_le(a: Seq<char>, b: Seq<char>) -> bool {
    lex_lt(a, b) || a == b
}

pub proof fn lemma_lex_irreflexive(a: Seq<char>)
    ensures
        !lex_lt(a, a),
    decreases a.len(),
{
    if a.len() > 0 {
        lemma_lex_irreflexive(a.drop_first());
    }
}

pub proof fn lemma_lex_total(a: Seq<char>, b: Seq<char>)
    ensures
        lex_lt(a, b) || lex_lt(b, a) || a == b,
    decreases a.len(),
{
    if a.len() > 0 && b.len() > 0 {
        lemma_lex_total(a.drop_first(), b.drop_first());
        if a[0] == b[0] && a.drop_first() == b.drop_first() {
            assert(a =~= seq![a[0]] + a.drop_first());
            assert(b =~= seq![b[0]] + b.drop_first());
        }
    } else if a.len() == 0 && b.len() == 0 {
        assert(a =~= b);
    }
}

pub proof fn lemma_lex_asymmetric(a: Seq<char>, b: Seq<char>)
    ensures
        !(lex_lt(a, b) && lex_lt(b, a)),
    decreases a.len(),
{
    if a.len() > 0 && b.len() > 0 {
        lemma_lex_asymmetric(a.drop_first(), b.drop_first());
    }
}

pub proof fn lemma_lex_transitive(a: Seq<char>, b: Seq<char>, c: Seq<char>)
    requires
        lex_lt(a, b),
        lex_lt(b, c),
    ensures
        lex_lt(a, c),
    decreases a.len(),
{
    if a.len() > 0 && b.len() > 0 && c.len() > 0 {
        if a[0] == b[0] && b[0] == c[0] {
            lemma_lex_transitive(a.drop_first(), b.drop_first(), c.drop_first());
        }
    }
}

/// Comparing after a common prefix is comparing the rests.
proof fn lemma_lex_skip(a: Seq<char>, b: Seq<char>, i: int)
    requires
        0 <= i < a.len(),
        i < b.len(),
        a[i] == b[i],
    ensures
        lex_lt(a.skip(i), b.skip(i)) == lex_lt(a.skip(i + 1), b.skip(i + 1)),
{
    assert(a.skip(i).drop_first() =~= a.skip(i + 1));
    assert(b.skip(i).drop_first() =~= b.skip(i + 1));
}

/// Whether `a` sorts strictly before `b`.
pub fn lex_less(a: &Vec<char>, b: &Vec<char>) -> (r: bool)
    ensures
        r == lex_lt(a@, b@),
{
    let mut i: usize = 0;
    assert(a@.skip(0) =~= a@);
    assert(b@.skip(0) =~= b@);
    while i < a.len() && i < b.len()
        invariant
            i <= a.len(),
            i <= b.len(),
            lex_lt(a@, b@) == lex_lt(a@.skip(i as int), b@.skip(i as int)),
        decreases a.len() - i,
    {
        let x = a[i];
        let y = b[i];
        if x < y {
            return true;
        }
        if x > y {
            return false;
        }
        proof {

            assert(a@[i as int] == b@[i as int]);
            lemma_lex_skip(a@, b@, i as int);
        }
        i += 1;
    }
    i < b.len()
}

/// The order used for a stable sort: by key, then by original position.
pub open spec fn entry_lt(x: (Seq<char>, int), y: (Seq<char>, int)) -> bool {
    lex_lt(x.0, y.0) || (x.0 == y.0 && x.1 < y.1)
}

/// Strictly increasing in the stable order.
pub open spec fn entries_sorted(s: Seq<(Seq<char>, int)>) -> bool {
    forall|i: int, j: int| 0 <= i < j < s.len() ==> entry_lt(#[trigger] s[i], #[trigger] s[j])
}

/// `p` lists every position below `n` exactly once.
pub open spec fn is_permutation(p: Seq<int>, n: int) -> bool {
    &&& p.len() == n
    &&& forall|i: int| 0 <= i < p.len() ==> 0 <= #[trigger] p[i] < n
    &&& forall|i: int, j: int| 0 <= i < j < p.len() ==> #[trigger] p[i] != #[trigger] p[j]
    &&& forall|m: int| 0 <= m < n ==> #[trigger] hits(p, m)
}

/// Some position of `p` holds `m`.
pub open spec fn hits(p: Seq<int>, m: int) -> bool {
    exists|k: int| 0 <= k < p.len() && p[k] == m
}

/// `out` is `items` stably sorted by key: a rearrangement `p` of the
/// positions such that keys never decrease and equal keys keep their order.
pub open spec fn stably_sorted<T>(items: Seq<(Vec<char>, T)>, out: Seq<(Vec<char>, T)>) -> bool {
    exists|p: Seq<int>|
        {
            &&& is_permutation(p, items.len() as int)
            &&& out.len() == items.len()
            &&& forall|k: int| 0 <= k < out.len() ==> #[trigger] out[k] == items[p[k]]
            &&& forall|i: int, j: int|
                0 <= i < j < out.len() ==> entry_lt(
                    (#[trigger] out[i].0@, p[i]),
                    (#[trigger] out[j].0@, p[j]),
                )
        }
}

/// Sorts key/value pairs by key, keeping pairs with equal keys in the order
/// they came in.
pub fn stable_sort_by_key<T>(items: Vec<(Vec<char>, T)>) -> (out: Vec<(Vec<char>, T)>)
    ensures
        stably_sorted(items@, out@),
{
    let ghost orig = items@;
    let n = items.len();
    let mut items = items;
    let mut out: Vec<(Vec<char>, T)> = Vec::new();
    let ghost mut p: Seq<int> = Seq::empty();
    let mut i: usize = 0;
    while i < n
        invariant
            n == orig.len(),
            i <= n,
            items@ == orig.skip(i as int),
            out@.len() == i,
            p.len() == i,
            forall|k: int| 0 <= k < i ==> 0 <= #[trigger] p[k] < i,
            forall|a: int, b: int| 0 <= a < b < p.len() ==> #[trigger] p[a] != #[trigger] p[b],
            forall|m: int| 0 <= m < i ==> #[trigger] hits(p, m),
            forall|k: int| 0 <= k < i ==> #[trigger] out@[k] == orig[p[k]],
            forall|a: int, b: int|
                0 <= a < b < out@.len() ==> entry_lt(
                    (#[trigger] out@[a].0@, p[a]),
                    (#[trigger] out@[b].0@, p[b]),
                ),
        decreases n - i,
    {
        let entry = items.remove(0);
        assert(orig.skip(i as int).drop_first() =~= orig.skip(i as int + 1));
        assert(entry == orig[i as int]);
        let mut j: usize = 0;
        while j < out.len() && !lex_less(&entry.0, &out[j].0)
            invariant
                j <= out@.len(),
                forall|k: int| 0 <= k < j ==> !lex_lt(entry.0@, #[trigger] out@[k].0@),
            decreases out.len() - j,
        {
            j += 1;
        }
        proof {
            // everything from j on has a strictly larger key
            assert forall|k: int| j <= k < out@.len() implies lex_lt(entry.0@, #[trigger] out@[k].0@) by {
                if k > j {
                    let xj = (out@[j as int].0@, p[j as int]);
                    let xk = (out@[k].0@, p[k]);
                    assert(entry_lt(xj, xk));
                    if lex_lt(out@[j as int].0@, out@[k].0@) {
                        lemma_lex_transitive(entry.0@, out@[j as int].0@, out@[k].0@);
                    }
                }
            }
        }
        let ghost old_out = out@;
        let ghost old_p = p;
        let ghost key = entry.0@;
        out.insert(j, entry);
        proof {
            p = old_p.insert(j as int, i as int);
            assert forall|k: int| 0 <= k < i + 1 implies #[trigger] out@[k] == orig[p[k]] by {
                if k < j {
                    assert(out@[k] == old_out[k]);
                } else if k > j {
                    assert(out@[k] == old_out[k - 1]);
                }
            }
            assert forall|k: int| 0 <= k < i + 1 implies 0 <= #[trigger] p[k] < i + 1 by {
                if k < j {
                    assert(p[k] == old_p[k]);
                } else if k > j {
                    assert(p[k] == old_p[k - 1]);
                }
            }
            assert forall|a: int, b: int| 0 <= a < b < p.len() implies #[trigger] p[a] != #[trigger] p[b] by {
                if a < j && b < j {
                    assert(p[a] == old_p[a] && p[b] == old_p[b]);
                } else if a < j && b == j {
                    assert(p[a] == old_p[a]);
                } else if a < j && b > j {
                    assert(p[a] == old_p[a] && p[b] == old_p[b - 1]);
                } else if a == j {
                    assert(p[b] == old_p[b - 1]);
                } else {
                    assert(p[a] == old_p[a - 1] && p[b] == old_p[b - 1]);
                }
            }
            assert forall|m: int| 0 <= m < i + 1 implies #[trigger] hits(p, m) by {
                if m == i {
                    assert(p[j as int] == m);
                } else {
                    assert(hits(old_p, m));
                    let k0 = choose|k: int| 0 <= k < old_p.len() && old_p[k] == m;
                    if k0 < j {
                        assert(p[k0] == m);
                    } else {
                        assert(p[k0 + 1] == m);
                    }
                }
            }
            assert forall|a: int, b: int| 0 <= a < b < out@.len() implies entry_lt(
                (#[trigger] out@[a].0@, p[a]),
                (#[trigger] out@[b].0@, p[b]),
            ) by {
                if a < j && b < j {
                    assert(out@[a] == old_out[a] && out@[b] == old_out[b]);
                    assert(p[a] == old_p[a] && p[b] == old_p[b]);
                } else if a < j && b == j {
                    assert(out@[a] == old_out[a] && p[a] == old_p[a]);
                    assert(!lex_lt(key, old_out[a].0@));
                    lemma_lex_total(key, old_out[a].0@);
                } else if a < j && b > j {
                    assert(out@[a] == old_out[a] && out@[b] == old_out[b - 1]);
                    assert(p[a] == old_p[a] && p[b] == old_p[b - 1]);
                } else if a == j {
                    assert(out@[b] == old_out[b - 1] && p[b] == old_p[b - 1]);
                    assert(lex_lt(key, old_out[b - 1].0@));
                } else {
                    assert(out@[a] == old_out[a - 1] && out@[b] == old_out[b - 1]);
                    assert(p[a] == old_p[a - 1] && p[b] == old_p[b - 1]);
                }
            }
        }
        i += 1;
    }
    assert(is_permutation(p, orig.len() as int));
    out
}

} // verus!
