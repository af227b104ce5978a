use vstd::prelude::*;
use vstd::utf8::{decode_utf8, encode_utf8, is_char_boundary};

use crate::text::byte_len;

verus! {

/// Where `truncate` cuts a text longer than `max_len` bytes.
pub open spec fn cut_point(max_len: nat) -> nat {
    if max_len >= 3 {
        (max_len - 3) as nat
    } else {
        0
    }
}

/// A text of at most `max_len` bytes is kept; a longer one keeps its first
/// `max_len - 3` bytes followed by `...`.
pub open spec fn truncated(s: Seq<char>, max_len: nat) -> Seq<char> {
    if encode_utf8(s).len() <= max_len {
        s
    } else {
        decode_utf8(encode_utf8(s).subrange(0, cut_point(max_len) as int)) + "..."@
    }
}

/// Whether `truncate` may cut `s`: slicing a string anywhere but at a
/// character boundary panics.
pub open spec fn can_truncate(s: Seq<char>, max_len: nat) -> bool {
    encode_utf8(s).len() > max_len ==> is_char_boundary(encode_utf8(s), cut_point(max_len) as int)
}

/// Shortens `s` to fit `max_len` bytes, marking the cut with `...`.
pub fn truncate(s: &str, max_len: usize) -> (r: String)
    requires
        can_truncate(s@, max_len as nat),
    ensures
        r@ == truncated(s@, max_len as nat),
{
    if byte_len(s) <= max_len {
        return s.to_owned();
    }
    let cut: usize = if max_len >= 3 {
        max_len - 3
    } else {
        0
    };
    let (head, _tail) = s.split_at(cut);
    proof {
        broadcast use vstd::utf8::encode_utf8_decode_utf8;

        assert(decode_utf8(encode_utf8(head@)) == head@);
    }
    let mut out = head.to_owned();
    out.append("...");
    out
}

proof fn lemma_encode_concat(a: Seq<char>, b: Seq<char>)
    ensures
        encode_utf8(a + b) == encode_utf8(a) + encode_utf8(b),
    decreases a.len(),
{
    if a.len() == 0 {
        assert(a + b =~= b);
        assert(encode_utf8(a) + encode_utf8(b) =~= encode_utf8(b));
    } else {
        lemma_encode_concat(a.drop_first(), b);
        assert((a + b).drop_first() =~= a.drop_first() + b);
        assert((a + b)[0] == a[0]);
        assert(encode_utf8(a + b) =~= encode_utf8(a) + encode_utf8(b));
    }
}

/// A shortened text fits its column: whenever there is room for the
/// `...`, the result takes at most `max_len` bytes.
pub proof fn lemma_truncated_fits(s: Seq<char>, max_len: nat)
    requires
        max_len >= 3,
        can_truncate(s, max_len),
    ensures
        encode_utf8(truncated(s, max_len)).len() <= max_len,
{
    let b = encode_utf8(s);
    if b.len() > max_len {
        let cut = cut_point(max_len) as int;
        vstd::utf8::encode_utf8_valid_utf8(s);
        vstd::utf8::valid_utf8_split(b, cut);
        let p = b.subrange(0, cut);
        vstd::utf8::decode_utf8_encode_utf8(p);
        reveal_strlit("...");
        vstd::utf8::is_ascii_chars_encode_utf8("..."@);
        lemma_encode_concat(decode_utf8(p), "..."@);
    }
}

} // verus!
