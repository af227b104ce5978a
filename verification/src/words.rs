//! Splitting text into lines and words, and joining pieces back together.

use vstd::prelude::*;

use crate::commands::update::names_view;
use crate::text::{
    chars_of, is_white, is_white_char, lemma_split_on_nonempty, split_on, str_equal, string_of,
};

verus! {

/// A line without the `\r` of a `\r\n` ending.
pub open spec fn without_cr(l: Seq<char>) -> Seq<char> {
    if l.len() > 0 && l.last() == '\r' {
        l.drop_last()
    } else {
        l
    }
}

/// The lines of a text, as `str::lines` gives them: split at `\n`, a `\r`
/// before the `\n` dropped, and no empty line after a final `\n`.
pub open spec fn line_items(text: Seq<char>) -> Seq<Seq<char>> {
    let p = split_on(text, '\n');
    let body = p.drop_last().map_values(|l: Seq<char>| without_cr(l));
    if p.last().len() > 0 {
        body.push(p.last())
    } else {
        body
    }
}

/// `items` with `sep` between each two.
pub open spec fn join_with(items: Seq<Seq<char>>, sep: Seq<char>) -> Seq<char>
    decreases items.len(),
{
    if items.len() == 0 {
        Seq::empty()
    } else if items.len() == 1 {
        items[0]
    } else {
        join_with(items.drop_last(), sep) + sep + items.last()
    }
}

/// The maximal runs of non-whitespace characters, as `str::split_whitespace`
/// gives them.
pub open spec fn words(s: Seq<char>) -> Seq<Seq<char>>
    decreases s.len(),
{
    if s.len() == 0 {
        Seq::empty()
    } else if is_white(s.last()) {
        words(s.drop_last())
    } else if s.len() >= 2 && !is_white(s[s.len() - 2]) {
        let w = words(s.drop_last());
        w.update(w.len() - 1, w.last().push(s.last()))
    } else {
        words(s.drop_last()).push(seq![s.last()])
    }
}

pub proof fn lemma_words_nonempty(s: Seq<char>)
    requires
        s.len() > 0,
        !is_white(s.last()),
    ensures
        words(s).len() > 0,
    decreases s.len(),
{
    if s.len() >= 2 && !is_white(s[s.len() - 2]) {
        assert(s.drop_last().last() == s[s.len() - 2]);
        lemma_words_nonempty(s.drop_last());
    }
}

/// The lines of a text (`str::lines`).
pub fn lines_of(text: &str) -> (r: Vec<String>)
    ensures
        names_view(r@) == line_items(text@),
{
    let cs = chars_of(text);
    let ghost p = split_on(text@, '\n');
    let mut done: Vec<String> = Vec::new();
    let mut cur: Vec<char> = Vec::new();
    let mut i: usize = 0;
    while i < cs.len()
        invariant
            i <= cs@.len(),
            cs@ == text@,
            split_on(cs@.take(i as int), '\n').len() == done@.len() + 1,
            names_view(done@) == split_on(cs@.take(i as int), '\n').drop_last().map_values(
                |l: Seq<char>| without_cr(l),
            ),
            cur@ == split_on(cs@.take(i as int), '\n').last(),
        decreases cs.len() - i,
    {
        let c = cs[i];
        assert(cs@.take(i as int + 1).drop_last() =~= cs@.take(i as int));
        proof {
            lemma_split_on_nonempty(cs@.take(i as int), '\n');
        }
        let ghost before = split_on(cs@.take(i as int), '\n');
        if c == '\n' {
            let mut line = cur;
            let ghost whole = line@;
            if line.len() > 0 && line[line.len() - 1] == '\r' {
                line.pop();
            }
            assert(line@ == without_cr(whole));
            let ghost old_names = names_view(done@);
            let text_line = string_of(&line);
            done.push(text_line);
            assert(names_view(done@) =~= old_names.push(without_cr(before.last())));
            assert(before =~= before.drop_last().push(before.last()));
            assert(before.map_values(|l: Seq<char>| without_cr(l)) =~= before.drop_last().map_values(
                |l: Seq<char>| without_cr(l),
            ).push(without_cr(before.last())));
            cur = Vec::new();
            assert(split_on(cs@.take(i as int + 1), '\n') == before.push(Seq::empty()));
            assert(names_view(done@) =~= split_on(cs@.take(i as int + 1), '\n').drop_last().map_values(
                |l: Seq<char>| without_cr(l),
            ));
        } else {
            cur.push(c);
            assert(split_on(cs@.take(i as int + 1), '\n').drop_last() =~= before.drop_last());
        }
        i += 1;
    }
    assert(cs@.take(i as int) =~= text@);
    if cur.len() > 0 {
        let ghost body = names_view(done@);
        done.push(string_of(&cur));
        assert(names_view(done@) =~= body.push(p.last()));
    }
    done
}

/// `items` joined with `sep` between each two (`[String]::join`).
pub fn join(items: &Vec<String>, sep: &str) -> (r: String)
    ensures
        r@ == join_with(names_view(items@), sep@),
{
    let ghost all = names_view(items@);
    if items.len() == 0 {
        return String::new();
    }
    let mut r = items[0].clone();
    let mut i: usize = 1;
    assert(all.take(1) =~= seq![all[0]]);
    while i < items.len()
        invariant
            1 <= i <= items@.len(),
            all == names_view(items@),
            r@ == join_with(all.take(i as int), sep@),
        decreases items.len() - i,
    {
        assert(all.take(i as int + 1).drop_last() =~= all.take(i as int));
        r.append(sep);
        r.append(items[i].as_str());
        i += 1;
    }
    assert(all.take(i as int) =~= all);
    r
}

/// The whitespace-separated words of a text (`str::split_whitespace`).
pub fn split_words(text: &str) -> (r: Vec<String>)
    ensures
        names_view(r@) == words(text@),
{
    let cs = chars_of(text);
    let mut out: Vec<Vec<char>> = Vec::new();
    let mut in_word = false;
    let mut i: usize = 0;
    while i < cs.len()
        invariant
            i <= cs@.len(),
            cs@ == text@,
            out@.len() == words(cs@.take(i as int)).len(),
            forall|k: int| 0 <= k < out@.len() ==> (#[trigger] out@[k])@ == words(cs@.take(i as int))[k],
            in_word == (i > 0 && !is_white(cs@[i - 1])),
        decreases cs.len() - i,
    {
        let c = cs[i];
        let ghost s = cs@.take(i as int + 1);
        assert(s.drop_last() =~= cs@.take(i as int));
        if is_white_char(c) {
            in_word = false;
        } else if in_word {
            proof {
                assert(s[s.len() - 2] == cs@[i - 1]);
                lemma_words_nonempty(cs@.take(i as int));
            }
            let last = out.len() - 1;
            let mut w = out.remove(last);
            w.push(c);
            out.push(w);
            in_word = true;
        } else {
            out.push(vec![c]);
            in_word = true;
        }
        i += 1;
    }
    assert(cs@.take(i as int) =~= text@);
    let mut r: Vec<String> = Vec::new();
    let mut j: usize = 0;
    while j < out.len()
        invariant
            j <= out@.len(),
            out@.len() == words(text@).len(),
            forall|k: int| 0 <= k < out@.len() ==> (#[trigger] out@[k])@ == words(text@)[k],
            names_view(r@) == words(text@).take(j as int),
        decreases out.len() - j,
    {
        assert(out@[j as int]@ == words(text@)[j as int]);
        let ghost old_r = names_view(r@);
        r.push(string_of(&out[j]));
        assert(names_view(r@) =~= old_r.push(words(text@)[j as int]));
        assert(names_view(r@) =~= words(text@).take(j as int + 1));
        j += 1;
    }
    assert(words(text@).take(j as int) =~= words(text@));
    r
}

/// Whether `x` is one of the strings in `v`.
pub fn listed(v: &Vec<String>, x: &str) -> (r: bool)
    ensures
        r == names_view(v@).contains(x@),
{
    let mut i: usize = 0;
    while i < v.len()
        invariant
            i <= v.len(),
            forall|k: int| 0 <= k < i ==> v@[k]@ != x@,
        decreases v.len() - i,
    {
        if str_equal(v[i].as_str(), x) {
            assert(names_view(v@)[i as int] == x@);
            return true;
        }
        i += 1;
    }
    assert forall|k: int| 0 <= k < names_view(v@).len() implies names_view(v@)[k] != x@ by {
        assert(names_view(v@)[k] == v@[k]@);
    }
    false
}

} // verus!
