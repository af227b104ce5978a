//! `doclib config`: setting the stores in place, and choosing the editor.

use vstd::prelude::*;

use crate::commands::update::names_view;
use crate::config::{reports, store_problem, validate_store, ConfigError};
use crate::path::{expand_home, home_expanded};
use crate::text::{blank, chars_of, is_blank, is_white_char, strip_start, white_fn};
use crate::words::{join, join_with, line_items, lines_of, split_words, words};

verus! {

/// How TOML writes an array of strings.
pub uninterp spec fn toml_string_array(items: Seq<Seq<char>>) -> Seq<char>;

/// `toml::Value::Array` of `toml::Value::String`s, written with its
/// `Display` impl (the crate's value serializer).
#[verifier::external_body]
fn toml_array_of(items: &Vec<String>) -> (r: String)
    ensures
        r@ == toml_string_array(names_view(items@)),
{
    toml::Value::Array(items.iter().map(|s| toml::Value::String(s.clone())).collect()).to_string()
}

/// `t` starts with `key`, then optional whitespace, then `=`.
pub open spec fn assigns(t: Seq<char>, key: Seq<char>) -> bool {
    &&& t.len() >= key.len()
    &&& t.take(key.len() as int) == key
    &&& {
        let rest = strip_start(t.skip(key.len() as int), white_fn());
        rest.len() > 0 && rest[0] == '='
    }
}

/// A line that sets `stores`, or the older `remotes` or `remote`, as
/// opposed to a comment that mentions one.
pub open spec fn remote_assignment(line: Seq<char>) -> bool {
    let t = strip_start(line, white_fn());
    &&& !(t.len() > 0 && t[0] == '#')
    &&& (assigns(t, "stores"@) || assigns(t, "remotes"@) || assigns(t, "remote"@))
}

/// The position of the first line that sets the stores.
pub open spec fn first_assignment(lines: Seq<Seq<char>>) -> Option<int>
    decreases lines.len(),
{
    if lines.len() == 0 {
        None
    } else {
        match first_assignment(lines.drop_last()) {
            Some(i) => Some(i),
            None => if remote_assignment(lines.last()) {
                Some(lines.len() - 1)
            } else {
                None
            },
        }
    }
}

pub proof fn lemma_first_assignment(lines: Seq<Seq<char>>)
    ensures
        match first_assignment(lines) {
            Some(k) => 0 <= k < lines.len() && remote_assignment(lines[k]),
            None => forall|j: int| 0 <= j < lines.len() ==> !remote_assignment(#[trigger] lines[j]),
        },
    decreases lines.len(),
{
    if lines.len() > 0 {
        lemma_first_assignment(lines.drop_last());
        assert(forall|j: int| 0 <= j < lines.len() - 1 ==> lines.drop_last()[j] == lines[j]);
    }
}

/// A comment is never taken for an assignment, so the examples in the
/// file's header are never the line that gets rewritten.
pub proof fn lemma_comments_are_not_assignments(line: Seq<char>)
    requires
        strip_start(line, white_fn()).len() > 0,
        strip_start(line, white_fn())[0] == '#',
    ensures
        !remote_assignment(line),
{
}

/// The lines with the first assignment of the stores replaced by `line`, or
/// `line` added at the end when there is none.
pub open spec fn lines_with(lines: Seq<Seq<char>>, line: Seq<char>) -> Seq<Seq<char>> {
    match first_assignment(lines) {
        Some(i) => lines.update(i, line),
        None => lines.push(line),
    }
}

/// A configuration file's text with its stores set by `line`.
pub open spec fn text_with(text: Seq<char>, line: Seq<char>) -> Seq<char> {
    join_with(lines_with(line_items(text), line), "\n"@) + "\n"@
}

/// Setting the stores rewrites one line at most: every other line of the
/// file is kept, in place.
pub proof fn lemma_other_lines_are_kept(lines: Seq<Seq<char>>, line: Seq<char>, i: int)
    requires
        0 <= i < lines.len(),
        first_assignment(lines) != Some(i),
    ensures
        lines_with(lines, line)[i] == lines[i],
{
    lemma_first_assignment(lines);
}

/// The first line of a text, or `unavailable` when it has none.
pub open spec fn first_line_of(text: Seq<char>) -> Seq<char> {
    if line_items(text).len() > 0 {
        line_items(text)[0]
    } else {
        "unavailable"@
    }
}

/// The editor to run: `$VISUAL`, else `$EDITOR`, else `vi`; a blank value
/// counts as unset.
pub open spec fn editor_choice(visual: Option<Seq<char>>, editor: Option<Seq<char>>) -> Seq<char> {
    match visual {
        Some(v) if !is_blank(v) => v,
        _ => match editor {
            Some(e) if !is_blank(e) => e,
            _ => "vi"@,
        },
    }
}

/// A command line's program (its first word, or `fallback` when it has
/// none) and arguments (the other words).
pub open spec fn command_of(command: Seq<char>, fallback: Seq<char>) -> (Seq<char>, Seq<Seq<char>>) {
    let w = words(command);
    if w.len() > 0 {
        (w[0], w.skip(1))
    } else {
        (fallback, Seq::empty())
    }
}

/// The first position from `i` on that does not hold whitespace.
fn skip_white(cs: &Vec<char>, i: usize) -> (j: usize)
    requires
        i <= cs@.len(),
    ensures
        i <= j <= cs@.len(),
        strip_start(cs@.skip(i as int), white_fn()) == cs@.skip(j as int),
{
    let mut j = i;
    while j < cs.len() && is_white_char(cs[j])
        invariant
            i <= j <= cs@.len(),
            strip_start(cs@.skip(i as int), white_fn()) == strip_start(cs@.skip(j as int), white_fn()),
        decreases cs.len() - j,
    {
        assert(cs@.skip(j as int).drop_first() =~= cs@.skip(j as int + 1));
        j += 1;
    }
    if j < cs.len() {
        assert(cs@.skip(j as int)[0] == cs@[j as int]);
    }
    j
}

/// Whether `t[from..]` starts with `key`, then optional whitespace, then `=`.
fn assigns_from(t: &Vec<char>, from: usize, key: &Vec<char>) -> (r: bool)
    requires
        from <= t@.len(),
    ensures
        r == assigns(t@.skip(from as int), key@),
{
    let ghost s = t@.skip(from as int);
    if t.len() - from < key.len() {
        return false;
    }
    let n = t.len();
    let mut k: usize = 0;
    while k < key.len()
        invariant
            n == t@.len(),
            from + key@.len() <= t@.len(),
            s == t@.skip(from as int),
            k <= key@.len(),
            forall|m: int| 0 <= m < k ==> s[m] == key@[m],
        decreases key.len() - k,
    {
        assert(from + k < t@.len());
        let at: usize = from + k;
        if t[at] != key[k] {
            assert(s.take(key@.len() as int)[k as int] != key@[k as int]);
            return false;
        }
        k += 1;
    }
    assert(s.take(key@.len() as int) =~= key@);
    let j = skip_white(t, from + key.len());
    assert(s.skip(key@.len() as int) =~= t@.skip(from + key@.len()));
    if j < t.len() && t[j] == '=' {
        assert(t@.skip(j as int)[0] == '=');
        true
    } else {
        false
    }
}

/// Matches an actual `stores = ...` assignment (or the older `remotes` /
/// `remote` one), not the commented examples in the file header.
pub fn is_remote_assignment(line: &str) -> (r: bool)
    ensures
        r == remote_assignment(line@),
{
    let cs = chars_of(line);
    assert(cs@.skip(0) =~= cs@);
    let start = skip_white(&cs, 0);
    let ghost t = cs@.skip(start as int);
    if start < cs.len() && cs[start] == '#' {
        assert(t[0] == '#');
        return false;
    }
    let stores = chars_of("stores");
    let remotes = chars_of("remotes");
    let remote = chars_of("remote");
    assigns_from(&cs, start, &stores) || assigns_from(&cs, start, &remotes) || assigns_from(
        &cs,
        start,
        &remote,
    )
}

/// The line that sets the stores: `stores = [...]`, the list written as
/// TOML.
pub fn stores_line(stores: &Vec<String>) -> (r: String)
    ensures
        r@ == "stores = "@ + toml_string_array(names_view(stores@)),
{
    let mut r = String::from_str("stores = ");
    let quoted = toml_array_of(stores);
    r.append(quoted.as_str());
    r
}

/// Rewrites the one line that sets the stores, keeping every other line as
/// it is: serialising the whole document back would discard the explanatory
/// comments and anything the user added. With no such line, it is added at
/// the end.
pub fn with_stores_line(text: &str, line: &str) -> (r: String)
    ensures
        r@ == text_with(text@, line@),
{
    let lines = lines_of(text);
    let ghost ls = line_items(text@);
    let mut out: Vec<String> = Vec::new();
    let mut replaced = false;
    let mut i: usize = 0;
    while i < lines.len()
        invariant
            i <= lines@.len(),
            names_view(lines@) == ls,
            replaced == first_assignment(ls.take(i as int)) is Some,
            names_view(out@) == match first_assignment(ls.take(i as int)) {
                Some(k) => ls.take(i as int).update(k, line@),
                None => ls.take(i as int),
            },
        decreases lines.len() - i,
    {
        assert(ls.take(i as int + 1).drop_last() =~= ls.take(i as int));
        proof {
            lemma_first_assignment(ls.take(i as int));
        }
        let ghost before = names_view(out@);
        if !replaced && is_remote_assignment(lines[i].as_str()) {
            out.push(line.to_owned());
            replaced = true;
            assert(names_view(out@) =~= ls.take(i as int + 1).update(i as int, line@));
        } else {
            out.push(lines[i].clone());
            assert(names_view(out@) =~= before.push(ls[i as int]));
            proof {
                match first_assignment(ls.take(i as int)) {
                    Some(k) => {
                        assert(names_view(out@) =~= ls.take(i as int + 1).update(k, line@));
                    },
                    None => {
                        assert(names_view(out@) =~= ls.take(i as int + 1));
                    },
                }
            }
        }
        i += 1;
    }
    assert(ls.take(i as int) =~= ls);
    if !replaced {
        out.push(line.to_owned());
        assert(names_view(out@) =~= ls.push(line@));
    }
    let mut r = join(&out, "\n");
    r.append("\n");
    r
}

/// Expands `~` in each requested store and checks it, so that a typo is
/// rejected while the old value is still in place; the first bad store is
/// reported.
pub fn prepare_stores(stores: &Vec<String>, home: Option<&str>) -> (r: Result<
    Vec<String>,
    ConfigError,
>)
    ensures
        r matches Ok(v) ==> v@.len() == stores@.len() && forall|k: int|
            0 <= k < stores@.len() ==> (#[trigger] v@[k])@ == home_expanded(
                stores@[k]@,
                crate::config::opt_view(home),
            ) && store_problem(v@[k]@) is None,
        r matches Err(e) ==> exists|k: int|
            0 <= k < stores@.len() && reports(
                e,
                home_expanded(#[trigger] stores@[k]@, crate::config::opt_view(home)),
            ) && forall|j: int|
                0 <= j < k ==> store_problem(
                    home_expanded(#[trigger] stores@[j]@, crate::config::opt_view(home)),
                ) is None,
{
    let mut out: Vec<String> = Vec::new();
    let mut i: usize = 0;
    while i < stores.len()
        invariant
            i <= stores@.len(),
            out@.len() == i,
            forall|k: int|
                0 <= k < i ==> (#[trigger] out@[k])@ == home_expanded(
                    stores@[k]@,
                    crate::config::opt_view(home),
                ) && store_problem(out@[k]@) is None,
        decreases stores.len() - i,
    {
        let expanded = expand_home(stores[i].as_str(), home);
        match validate_store(expanded.as_str()) {
            Err(e) => {
                assert(reports(e, home_expanded(stores@[i as int]@, crate::config::opt_view(home))));
                assert(forall|j: int|
                    0 <= j < i ==> store_problem(
                        home_expanded(#[trigger] stores@[j]@, crate::config::opt_view(home)),
                    ) is None) by {
                    assert forall|j: int| 0 <= j < i implies store_problem(
                        home_expanded(#[trigger] stores@[j]@, crate::config::opt_view(home)),
                    ) is None by {
                        assert(out@[j]@ == home_expanded(stores@[j]@, crate::config::opt_view(home)));
                    }
                }
                return Err(e);
            },
            Ok(()) => {},
        }
        out.push(expanded);
        i += 1;
    }
    Ok(out)
}

/// The first line of an error's text.
pub fn first_line(text: &str) -> (r: String)
    ensures
        r@ == first_line_of(text@),
{
    let lines = lines_of(text);
    if lines.len() > 0 {
        lines[0].clone()
    } else {
        String::from_str("unavailable")
    }
}

/// The editor to run, from the values of `$VISUAL` and `$EDITOR`.
pub fn choose_editor(visual: Option<&str>, editor: Option<&str>) -> (r: String)
    ensures
        r@ == editor_choice(crate::config::opt_view(visual), crate::config::opt_view(editor)),
{
    if let Some(v) = visual {
        if !blank(v) {
            return v.to_owned();
        }
    }
    if let Some(e) = editor {
        if !blank(e) {
            return e.to_owned();
        }
    }
    String::from_str("vi")
}

/// Splits a configured command such as `code --wait` into the program and
/// its arguments; a command with no words runs `fallback`.
pub fn command_parts(command: &str, fallback: &str) -> (r: (String, Vec<String>))
    ensures
        r.0@ == command_of(command@, fallback@).0,
        names_view(r.1@) == command_of(command@, fallback@).1,
{
    let mut w = split_words(command);
    if w.len() == 0 {
        return (fallback.to_owned(), Vec::new());
    }
    let ghost all = names_view(w@);
    let program = w.remove(0);
    assert(names_view(w@) =~= all.skip(1));
    (program, w)
}

} // verus!
