//! The local cache: content hashes that name cached files, and which cached
//! files to evict when the cache grows past its ceiling.

use vstd::prelude::*;

use vstd::utf8::{encode_utf8, is_ascii_chars};

use crate::config::can_shard;
use crate::order::{entry_lt, is_permutation, stable_sort_by_key};
use crate::text::{chars_of, extend_chars, string_of};

verus! {

/// The BLAKE3 digest of some bytes.
pub uninterp spec fn blake3_of(data: Seq<u8>) -> Seq<u8>;

/// `blake3::hash`, taken as its 32 bytes.
#[verifier::external_body]
fn blake3_digest(data: &[u8]) -> (r: [u8; 32])
    ensures
        r@ == blake3_of(data@),
{
    blake3::hash(data).into()
}

/// The lowercase hexadecimal digit for `n < 16`.
pub open spec fn hex_digit(n: u8) -> char {
    if n < 10 {
        (('0' as u8) + n) as char
    } else {
        (('a' as u8) + (n - 10)) as char
    }
}

/// Bytes written as lowercase hexadecimal, two digits each, high half first.
pub open spec fn hex_text(bytes: Seq<u8>) -> Seq<char>
    decreases bytes.len(),
{
    if bytes.len() == 0 {
        Seq::empty()
    } else {
        hex_text(bytes.drop_last()) + seq![hex_digit(bytes.last() / 16), hex_digit(bytes.last() % 16)]
    }
}

fn hex_char(n: u8) -> (c: char)
    requires
        n < 16,
    ensures
        c == hex_digit(n),
{
    if n < 10 {
        (('0' as u8) + n) as char
    } else {
        (('a' as u8) + (n - 10)) as char
    }
}

/// The content hash that names a document's bytes: BLAKE3, in lowercase
/// hexadecimal (what `blake3::Hash::to_hex` writes).
pub fn content_hash(data: &[u8]) -> (r: String)
    ensures
        r@ == hex_text(blake3_of(data@)),
        r@.len() == 64,
        can_shard(r@),
{
    let digest = blake3_digest(data);
    let mut out: Vec<char> = Vec::new();
    let mut i: usize = 0;
    while i < 32
        invariant
            i <= 32,
            digest@.len() == 32,
            out@ == hex_text(digest@.take(i as int)),
        decreases 32 - i,
    {
        let b = digest[i];
        assert(digest@.take(i as int + 1).drop_last() =~= digest@.take(i as int));
        out.push(hex_char(b / 16));
        out.push(hex_char(b % 16));
        assert(out@ =~= hex_text(digest@.take(i as int + 1)));
        i += 1;
    }
    assert(digest@.take(32) =~= digest@);
    proof {
        lemma_content_hash_shards(digest@);
    }
    string_of(&out)
}

proof fn lemma_hex_text_ascii(bytes: Seq<u8>)
    ensures
        hex_text(bytes).len() == 2 * bytes.len(),
        is_ascii_chars(hex_text(bytes)),
    decreases bytes.len(),
{
    if bytes.len() > 0 {
        lemma_hex_text_ascii(bytes.drop_last());
        let b = bytes.last();
        let hi = b / 16;
        let lo = b % 16;
        assert((hex_digit(hi) as u32) < 128 && (hex_digit(lo) as u32) < 128) by {
            assert(hi < 16 && lo < 16);
        }
        let h = hex_text(bytes);
        let prev = hex_text(bytes.drop_last());
        assert(h =~= prev + seq![hex_digit(hi), hex_digit(lo)]);
        assert forall|i: int| 0 <= i < h.len() implies '\0' <= #[trigger] h[i] <= '\u{7f}' by {
            if i < prev.len() {
                assert(h[i] == prev[i]);
            }
        }
    }
}

/// A content hash is written in ASCII, two characters a byte, so its first
/// two characters can be split off to name the directory it is cached in.
pub proof fn lemma_content_hash_shards(digest: Seq<u8>)
    requires
        digest.len() == 32,
    ensures
        hex_text(digest).len() == 64,
        can_shard(hex_text(digest)),
{
    let h = hex_text(digest);
    lemma_hex_text_ascii(digest);
    vstd::utf8::is_ascii_chars_encode_utf8(h);
    vstd::utf8::encode_utf8_valid_utf8(h);
    let bytes = encode_utf8(h);
    assert(h[2] as u8 == bytes[2]);
    assert('\0' <= h[2] <= '\u{7f}');
    vstd::utf8::is_char_boundary_iff_is_leading_byte(bytes, 2);
}

/// What a walk over the cache counted.
pub struct CacheStats {
    pub files: usize,
    pub bytes: u64,
}

/// A catalogued document as eviction sees it: when it was last opened
/// (`None` for never), and how big its cached file is (`None` when it is
/// not in the cache).
pub struct CachedFile {
    pub last_opened: Option<String>,
    pub size: Option<u64>,
}

/// Which cached files go, and what that frees.
pub struct Eviction {
    /// Positions of the evicted documents, in the order they are evicted.
    pub evict: Vec<usize>,
    /// Bytes freed, saturating at `u64::MAX`.
    pub freed: u64,
    /// The cache's size once they are gone, as the walk counts it.
    pub remaining: u64,
}

/// The sort key for eviction: never-opened files (`None`) sort before every
/// opened one, opened ones by their timestamp. `'\0'` in front keeps every
/// timestamp after the empty key.
pub open spec fn opened_key(o: Option<String>) -> Seq<char> {
    match o {
        Some(s) => seq!['\0'] + s@,
        None => Seq::empty(),
    }
}

/// `ord` lists the documents least recently opened first, documents opened
/// at the same time (or both never) keeping their catalog order.
pub open spec fn eviction_order(files: Seq<CachedFile>, ord: Seq<int>) -> bool {
    &&& is_permutation(ord, files.len() as int)
    &&& forall|a: int, b: int|
        0 <= a < b < ord.len() ==> entry_lt(
            (opened_key(files[#[trigger] ord[a]].last_opened), ord[a]),
            (opened_key(files[#[trigger] ord[b]].last_opened), ord[b]),
        )
}

/// The cached sizes in the order given.
pub open spec fn sizes_in(files: Seq<CachedFile>, ord: Seq<int>) -> Seq<Option<u64>> {
    ord.map_values(|k: int| files[k].size)
}

/// What is left after evicting `s` bytes from `current`.
pub open spec fn less(current: int, s: int) -> int {
    if current > s {
        current - s
    } else {
        0
    }
}

/// The positions evicted by walking `sizes` from `i` while the cache holds
/// more than `max`: files not in the cache are passed over.
pub open spec fn walk(sizes: Seq<Option<u64>>, i: int, current: int, max: int) -> Seq<int>
    decreases sizes.len() - i,
{
    if i < 0 || i >= sizes.len() || current <= max {
        Seq::empty()
    } else {
        match sizes[i] {
            None => walk(sizes, i + 1, current, max),
            Some(s) => seq![i] + walk(sizes, i + 1, less(current, s as int), max),
        }
    }
}

/// The bytes that walk frees.
pub open spec fn freed_walk(sizes: Seq<Option<u64>>, i: int, current: int, max: int) -> int
    decreases sizes.len() - i,
{
    if i < 0 || i >= sizes.len() || current <= max {
        0
    } else {
        match sizes[i] {
            None => freed_walk(sizes, i + 1, current, max),
            Some(s) => s + freed_walk(sizes, i + 1, less(current, s as int), max),
        }
    }
}

/// The cache size that walk ends with.
pub open spec fn left_walk(sizes: Seq<Option<u64>>, i: int, current: int, max: int) -> int
    decreases sizes.len() - i,
{
    if i < 0 || i >= sizes.len() || current <= max {
        current
    } else {
        match sizes[i] {
            None => left_walk(sizes, i + 1, current, max),
            Some(s) => left_walk(sizes, i + 1, less(current, s as int), max),
        }
    }
}

pub open spec fn saturated(n: int) -> int {
    if n > u64::MAX {
        u64::MAX as int
    } else {
        n
    }
}

/// The eviction for a given order: nothing when `max` is 0 (pruning is
/// off), otherwise the walk from the cache's current size.
pub open spec fn planned_eviction(
    files: Seq<CachedFile>,
    ord: Seq<int>,
    cached: int,
    max: int,
    r: Eviction,
) -> bool {
    if max == 0 {
        &&& r.evict@.len() == 0
        &&& r.freed == 0
        &&& r.remaining == cached
    } else {
        let sizes = sizes_in(files, ord);
        let w = walk(sizes, 0, cached, max);
        &&& r.evict@.len() == w.len()
        &&& forall|k: int| 0 <= k < w.len() ==> #[trigger] r.evict@[k] == ord[w[k]]
        &&& r.freed == saturated(freed_walk(sizes, 0, cached, max))
        &&& r.remaining == left_walk(sizes, 0, cached, max)
    }
}

proof fn lemma_walk_step(sizes: Seq<Option<u64>>, i: int, current: int, max: int)
    requires
        0 <= i < sizes.len(),
        current > max,
    ensures
        walk(sizes, i, current, max) == match sizes[i] {
            None => walk(sizes, i + 1, current, max),
            Some(s) => seq![i] + walk(sizes, i + 1, less(current, s as int), max),
        },
{
}

/// Evicts least-recently-opened cached files until the cache is at most
/// `max_bytes`, starting from its current size `cached_bytes`. Never-opened
/// files go first; files not in the cache are passed over. A ceiling of 0
/// disables pruning.
pub fn plan_eviction(files: &Vec<CachedFile>, cached_bytes: u64, max_bytes: u64) -> (r: Eviction)
    ensures
        exists|ord: Seq<int>|
            eviction_order(files@, ord) && planned_eviction(
                files@,
                ord,
                cached_bytes as int,
                max_bytes as int,
                r,
            ),
{
    let n = files.len();
    let mut keyed: Vec<(Vec<char>, usize)> = Vec::new();
    let mut i: usize = 0;
    while i < n
        invariant
            i <= n,
            n == files@.len(),
            keyed@.len() == i,
            forall|k: int|
                0 <= k < i ==> (#[trigger] keyed@[k]).1 == k && keyed@[k].0@ == opened_key(
                    files@[k].last_opened,
                ),
        decreases n - i,
    {
        let mut key: Vec<char> = Vec::new();
        match &files[i].last_opened {
            Some(s) => {
                key.push('\0');
                let cs = chars_of(s.as_str());
                extend_chars(&mut key, &cs);
            },
            None => {},
        }
        assert(key@ =~= opened_key(files@[i as int].last_opened));
        keyed.push((key, i));
        i += 1;
    }
    let ghost items = keyed@;
    let sorted = stable_sort_by_key(keyed);
    let ghost p = choose|p: Seq<int>|
        {
            &&& is_permutation(p, items.len() as int)
            &&& sorted@.len() == items.len()
            &&& forall|k: int| 0 <= k < sorted@.len() ==> #[trigger] sorted@[k] == items[p[k]]
            &&& forall|a: int, b: int|
                0 <= a < b < sorted@.len() ==> entry_lt(
                    (#[trigger] sorted@[a].0@, p[a]),
                    (#[trigger] sorted@[b].0@, p[b]),
                )
        };
    assert(eviction_order(files@, p)) by {
        assert forall|a: int, b: int| 0 <= a < b < p.len() implies entry_lt(
            (opened_key(files@[#[trigger] p[a]].last_opened), p[a]),
            (opened_key(files@[#[trigger] p[b]].last_opened), p[b]),
        ) by {
            assert(sorted@[a] == items[p[a]]);
            assert(sorted@[b] == items[p[b]]);
        }
    }
    if max_bytes == 0 {
        return Eviction { evict: Vec::new(), freed: 0, remaining: cached_bytes };
    }
    let ghost sizes = sizes_in(files@, p);
    let ghost start = cached_bytes as int;
    let ghost max = max_bytes as int;
    let mut evict: Vec<usize> = Vec::new();
    let mut freed: u64 = 0;
    let mut current: u64 = cached_bytes;
    let mut k: usize = 0;
    while k < n && current > max_bytes
        invariant
            k <= n,
            n == files@.len(),
            max == max_bytes as int,
            start == cached_bytes as int,
            sorted@.len() == n,
            p.len() == n,
            sizes == sizes_in(files@, p),
            forall|j: int| 0 <= j < n ==> (#[trigger] sorted@[j]).1 == p[j],
            forall|j: int| 0 <= j < n ==> 0 <= #[trigger] p[j] < n,
            evict@.len() + walk(sizes, k as int, current as int, max).len() == walk(
                sizes,
                0,
                start,
                max,
            ).len(),
            forall|j: int|
                0 <= j < evict@.len() ==> #[trigger] evict@[j] == p[walk(sizes, 0, start, max)[j]],
            forall|j: int|
                0 <= j < walk(sizes, k as int, current as int, max).len() ==> walk(
                    sizes,
                    0,
                    start,
                    max,
                )[evict@.len() + j] == #[trigger] walk(sizes, k as int, current as int, max)[j],
            freed == saturated(
                freed_walk(sizes, 0, start, max) - freed_walk(sizes, k as int, current as int, max),
            ),
            freed_walk(sizes, 0, start, max) >= freed_walk(sizes, k as int, current as int, max),
            left_walk(sizes, k as int, current as int, max) == left_walk(sizes, 0, start, max),
        decreases n - k,
    {
        let pos = sorted[k].1;
        proof {
            lemma_walk_step(sizes, k as int, current as int, max);
            assert(sizes[k as int] == files@[pos as int].size);
        }
        match files[pos].size {
            None => {},
            Some(s) => {
                let ghost tail = walk(sizes, k as int + 1, less(current as int, s as int), max);
                proof {
                    lemma_freed_nonneg(sizes, k as int + 1, less(current as int, s as int), max);
                    assert(walk(sizes, k as int, current as int, max)[0] == k as int);
                    assert(walk(sizes, 0, start, max)[evict@.len() + 0int] == k as int);
                    assert forall|j: int| 0 <= j < tail.len() implies walk(sizes, 0, start, max)[(
                    evict@.len() + 1) + j] == #[trigger] tail[j] by {
                        assert(walk(sizes, k as int, current as int, max)[j + 1] == tail[j]);
                    }
                }
                evict.push(pos);
                freed = freed.saturating_add(s);
                current = if current > s {
                    current - s
                } else {
                    0
                };
            },
        }
        k += 1;
    }
    proof {
        lemma_freed_nonneg(sizes, k as int, current as int, max);
    }
    Eviction { evict, freed, remaining: current }
}

/// Least recently opened first: when eviction reaches a file, every cached
/// file before it in the eviction order has been evicted too.
pub proof fn lemma_eviction_is_lru(
    sizes: Seq<Option<u64>>,
    i: int,
    current: int,
    max: int,
    a: int,
    b: int,
)
    requires
        0 <= i <= a < b < sizes.len(),
        sizes[a] is Some,
        walk(sizes, i, current, max).contains(b),
    ensures
        walk(sizes, i, current, max).contains(a),
    decreases sizes.len() - i,
{
    if current <= max {
        assert(walk(sizes, i, current, max).len() == 0);
    } else {
        match sizes[i] {
            None => {
                lemma_eviction_is_lru(sizes, i + 1, current, max, a, b);
            },
            Some(s) => {
                let w = walk(sizes, i, current, max);
                let tail = walk(sizes, i + 1, less(current, s as int), max);
                assert(w == seq![i] + tail);
                if i < a {
                    let kb = choose|k: int| 0 <= k < w.len() && w[k] == b;
                    assert(tail[kb - 1] == b);
                    lemma_eviction_is_lru(sizes, i + 1, less(current, s as int), max, a, b);
                    let ka = choose|k: int| 0 <= k < tail.len() && tail[k] == a;
                    assert(w[ka + 1] == a);
                } else {
                    assert(w[0] == a);
                }
            },
        }
    }
}

/// Eviction stops only once the cache fits under the ceiling, or once
/// every cached file has been evicted.
pub proof fn lemma_eviction_reaches_ceiling(sizes: Seq<Option<u64>>, i: int, current: int, max: int)
    requires
        0 <= i,
    ensures
        left_walk(sizes, i, current, max) <= max || forall|k: int|
            i <= k < sizes.len() && (#[trigger] sizes[k]) is Some ==> walk(
                sizes,
                i,
                current,
                max,
            ).contains(k),
    decreases sizes.len() - i,
{
    if i >= sizes.len() || current <= max {
    } else {
        match sizes[i] {
            None => {
                lemma_eviction_reaches_ceiling(sizes, i + 1, current, max);
            },
            Some(s) => {
                lemma_eviction_reaches_ceiling(sizes, i + 1, less(current, s as int), max);
                let w = walk(sizes, i, current, max);
                let tail = walk(sizes, i + 1, less(current, s as int), max);
                assert(w == seq![i] + tail);
                assert forall|k: int|
                    i <= k < sizes.len() && (#[trigger] sizes[k]) is Some && tail.contains(
                        k,
                    ) implies w.contains(k) by {
                    let j = choose|j: int| 0 <= j < tail.len() && tail[j] == k;
                    assert(w[j + 1] == k);
                }
                assert(w[0] == i);
            },
        }
    }
}

proof fn lemma_freed_nonneg(sizes: Seq<Option<u64>>, i: int, current: int, max: int)
    ensures
        freed_walk(sizes, i, current, max) >= 0,
    decreases sizes.len() - i,
{
    if !(i < 0 || i >= sizes.len() || current <= max) {
        match sizes[i] {
            None => lemma_freed_nonneg(sizes, i + 1, current, max),
            Some(s) => lemma_freed_nonneg(sizes, i + 1, less(current, s as int), max),
        }
    }
}

} // verus!
