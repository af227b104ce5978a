//! Unix paths held as text: joining, and the `~` that people type for home.

use vstd::prelude::*;

use crate::text::{chars_of, extend_chars, string_of};

verus! {

/// Whether a path starts at the root.
pub open spec fn is_absolute(p: Seq<char>) -> bool {
    p.len() > 0 && p[0] == '/'
}

/// `base` joined with `part` the way `Path::join` does it: an absolute
/// `part` replaces `base`; otherwise one separator goes between them unless
/// `base` is empty or already ends in one.
pub open spec fn joined(base: Seq<char>, part: Seq<char>) -> Seq<char> {
    if is_absolute(part) {
        part
    } else if base.len() == 0 || base.last() == '/' {
        base + part
    } else {
        base + seq!['/'] + part
    }
}

/// Drops the separators and `.` components that lead a relative path.
pub open spec fn strip_lead(s: Seq<char>) -> Seq<char>
    decreases s.len(),
{
    if s.len() > 0 && s[0] == '/' {
        strip_lead(s.skip(1))
    } else if s.len() == 1 && s[0] == '.' {
        Seq::empty()
    } else if s.len() >= 2 && s[0] == '.' && s[1] == '/' {
        strip_lead(s.skip(2))
    } else {
        s
    }
}

/// Drops the separators and `.` components that trail a path.
pub open spec fn strip_trail(s: Seq<char>) -> Seq<char>
    decreases s.len(),
{
    if s.len() > 0 && s.last() == '/' {
        strip_trail(s.drop_last())
    } else if s.len() == 1 && s[0] == '.' {
        Seq::empty()
    } else if s.len() >= 2 && s.last() == '.' && s[s.len() - 2] == '/' {
        strip_trail(s.drop_last())
    } else {
        s
    }
}

/// What is left of a path once a leading `~` component is taken off, or
/// `None` when the path does not start with that component.
pub open spec fn after_tilde(p: Seq<char>) -> Option<Seq<char>> {
    if p == seq!['~'] {
        Some(Seq::empty())
    } else if p.len() >= 2 && p[0] == '~' && p[1] == '/' {
        Some(strip_trail(strip_lead(p.skip(2))))
    } else {
        None
    }
}

/// A path with a leading `~` component resolved against `home`; any other
/// path, or any path when there is no home, is left as it is.
pub open spec fn home_expanded(p: Seq<char>, home: Option<Seq<char>>) -> Seq<char> {
    match after_tilde(p) {
        Some(rest) => match home {
            Some(h) => joined(h, rest),
            None => p,
        },
        None => p,
    }
}

pub fn is_absolute_path(p: &str) -> (r: bool)
    ensures
        r == is_absolute(p@),
{
    let cs = chars_of(p);
    cs.len() > 0 && cs[0] == '/'
}

/// `Path::join` on text.
pub fn join_path(base: &str, part: &str) -> (r: String)
    ensures
        r@ == joined(base@, part@),
{
    let b = chars_of(base);
    let p = chars_of(part);
    if p.len() > 0 && p[0] == '/' {
        return string_of(&p);
    }
    let mut out = b.clone();
    assert(out@ == b@);
    if b.len() > 0 && b[b.len() - 1] != '/' {
        out.push('/');
    }
    extend_chars(&mut out, &p);
    string_of(&out)
}

fn strip_lead_chars(s: &Vec<char>) -> (r: Vec<char>)
    ensures
        r@ == strip_lead(s@),
{
    let mut i: usize = 0;
    assert(s@.skip(0) =~= s@);
    loop
        invariant
            i <= s.len(),
            strip_lead(s@.skip(i as int)) == strip_lead(s@),
        decreases s.len() - i,
    {
        let ghost rest = s@.skip(i as int);
        if i < s.len() && s[i] == '/' {
            assert(rest.skip(1) =~= s@.skip(i as int + 1));
            i += 1;
        } else if i < s.len() && i + 1 < s.len() && s[i] == '.' && s[i + 1] == '/' {
            assert(rest.skip(2) =~= s@.skip(i as int + 2));
            i += 2;
        } else if i < s.len() && i + 1 == s.len() && s[i] == '.' {
            return Vec::new();
        } else {
            let mut r: Vec<char> = Vec::new();
            let mut j = i;
            while j < s.len()
                invariant
                    i <= j <= s.len(),
                    r@ == s@.subrange(i as int, j as int),
                decreases s.len() - j,
            {
                r.push(s[j]);
                assert(s@.subrange(i as int, j as int + 1) =~= s@.subrange(i as int, j as int).push(
                    s@[j as int],
                ));
                j += 1;
            }
            assert(r@ =~= rest);
            return r;
        }
    }
}

fn strip_trail_chars(s: &mut Vec<char>)
    ensures
        final(s)@ == strip_trail(old(s)@),
{
    loop
        invariant
            strip_trail(s@) == strip_trail(old(s)@),
        decreases s.len(),
    {
        let n = s.len();
        if n > 0 && s[n - 1] == '/' {
            s.pop();
        } else if n >= 2 && s[n - 1] == '.' && s[n - 2] == '/' {
            s.pop();
        } else if n == 1 && s[0] == '.' {
            s.pop();
            assert(s@ =~= Seq::<char>::empty());
            return;
        } else {
            return;
        }
    }
}

fn after_tilde_chars(p: &Vec<char>) -> (r: Option<Vec<char>>)
    ensures
        match after_tilde(p@) {
            Some(rest) => r matches Some(v) && v@ == rest,
            None => r is None,
        },
{
    if p.len() == 1 && p[0] == '~' {
        assert(p@ =~= seq!['~']);
        return Some(Vec::new());
    }
    if p.len() >= 2 && p[0] == '~' && p[1] == '/' {
        assert(p@ != seq!['~']);
        let mut tail: Vec<char> = Vec::new();
        let mut j: usize = 2;
        while j < p.len()
            invariant
                2 <= j <= p.len(),
                tail@ == p@.subrange(2, j as int),
            decreases p.len() - j,
        {
            tail.push(p[j]);
            assert(p@.subrange(2, j as int + 1) =~= p@.subrange(2, j as int).push(p@[j as int]));
            j += 1;
        }
        assert(tail@ =~= p@.skip(2));
        let mut rest = strip_lead_chars(&tail);
        strip_trail_chars(&mut rest);
        return Some(rest);
    }
    assert(p@ != seq!['~']) by {
        if p@ == seq!['~'] {
            assert(p@.len() == 1 && p@[0] == '~');
        }
    }
    None
}

/// Resolves a leading `~` against `home` (the value of `$HOME`), as shells
/// do: `~/library` becomes `<home>/library`. Only a whole leading component
/// counts, so `/mnt/~backup` and `~backup` are left alone, and so is every
/// path when there is no home.
pub fn expand_home(path: &str, home: Option<&str>) -> (r: String)
    ensures
        r@ == home_expanded(path@, match home {
            Some(h) => Some(h@),
            None => None,
        }),
{
    let cs = chars_of(path);
    match after_tilde_chars(&cs) {
        Some(rest) => match home {
            Some(h) => {
                let rest_text = string_of(&rest);
                join_path(h, rest_text.as_str())
            },
            None => path.to_owned(),
        },
        None => path.to_owned(),
    }
}

/// Only a leading `~` that is a whole component is expanded: a path that
/// does not start with `~`, or starts with `~` followed by anything but `/`,
/// is left as it is.
pub proof fn lemma_only_a_leading_tilde_expands(p: Seq<char>, home: Option<Seq<char>>)
    requires
        !(p.len() > 0 && p[0] == '~') || (p.len() >= 2 && p[1] != '/'),
    ensures
        home_expanded(p, home) == p,
{
    if p == seq!['~'] {
        assert(p.len() == 1);
    }
}

} // verus!
