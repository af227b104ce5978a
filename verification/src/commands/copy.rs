//! Names for exported copies: `Author - Title (Year).ext`, safe on FAT.

use vstd::prelude::*;

use crate::model::Document;
use crate::text::{
    after_last_white, chars_of, collapse_state, collapse_whitespace, collapse_ws, decimal, decimal_of, digits,
    dot_space_fn, extend_chars, is_control, is_control_char, last_word, split_chars, split_on,
    string_of, strip_dots_spaces, strip_end, strip_trailing_white, trim, trim_chars, white_fn,
};

verus! {

/// Longest stem, in characters, of an exported file name.
pub const MAX_STEM: usize = 120;

/// Characters that some filesystem refuses in a name.
pub open spec fn is_rejected(c: char) -> bool {
    c == '/' || c == '\\' || c == ':' || c == '*' || c == '?' || c == '"' || c == '<' || c == '>'
        || c == '|' || is_control(c)
}

pub open spec fn replace_rejected(s: Seq<char>) -> Seq<char> {
    s.map_values(|c: char| if is_rejected(c) { ' ' } else { c })
}

/// Rejected characters become spaces, whitespace runs collapse to one
/// space, and trailing dots and spaces go.
pub open spec fn sanitized(s: Seq<char>) -> Seq<char> {
    strip_end(collapse_ws(replace_rejected(s)), dot_space_fn())
}

/// The non-blank, trimmed names of a comma-separated author list.
pub open spec fn author_names(pieces: Seq<Seq<char>>) -> Seq<Seq<char>>
    decreases pieces.len(),
{
    if pieces.len() == 0 {
        Seq::empty()
    } else {
        let rest = author_names(pieces.drop_last());
        let t = trim(pieces.last());
        if t.len() > 0 {
            rest.push(t)
        } else {
            rest
        }
    }
}

/// The first author's surname, with ` et al.` when others follow.
pub open spec fn short_author_of(authors: Seq<char>) -> Option<Seq<char>> {
    let names = author_names(split_on(authors, ','));
    if names.len() == 0 {
        None
    } else {
        let surname = sanitized(after_last_white(names[0]));
        if surname.len() == 0 {
            None
        } else if names.len() > 1 {
            Some(surname + " et al."@)
        } else {
            Some(surname)
        }
    }
}

/// Who a copy's name credits: the first author's surname (the last word
/// of the first non-blank name, sanitized), marked ` et al.` exactly when at
/// least one more non-blank name follows; nothing when there is no name or
/// no surname is left.
pub proof fn lemma_short_author_credits(authors: Seq<char>)
    ensures
        short_author_of(authors) is None <==> (author_names(split_on(authors, ',')).len() == 0
            || sanitized(after_last_white(author_names(split_on(authors, ','))[0])).len() == 0),
        author_names(split_on(authors, ',')).len() >= 2 && short_author_of(authors) is Some
            ==> short_author_of(authors) == Some(
            sanitized(after_last_white(author_names(split_on(authors, ','))[0])) + " et al."@,
        ),
        author_names(split_on(authors, ',')).len() == 1 && short_author_of(authors) is Some
            ==> short_author_of(authors) == Some(
            sanitized(after_last_white(author_names(split_on(authors, ','))[0])),
        ),
{
}

pub open spec fn year_suffix(year: Option<i64>) -> Seq<char> {
    match year {
        Some(y) => " ("@ + decimal(y as int) + ")"@,
        None => Seq::empty(),
    }
}

pub open spec fn author_prefix(authors: Option<String>) -> Seq<char> {
    match authors {
        Some(a) => match short_author_of(a@) {
            Some(s) => s + " - "@,
            None => Seq::empty(),
        },
        None => Seq::empty(),
    }
}

/// At most `max` characters; a cut text also loses trailing whitespace,
/// dots and spaces.
pub open spec fn trimmed_to(text: Seq<char>, max: nat) -> Seq<char> {
    if text.len() <= max {
        text
    } else {
        strip_end(strip_end(text.take(max as int), white_fn()), dot_space_fn())
    }
}

/// The name without its extension: `Author - Title (Year)`, dropping
/// unknown parts; the title is what gets shortened to keep it within
/// `MAX_STEM` characters.
pub open spec fn file_stem(doc: Document) -> Seq<char> {
    let t = sanitized(doc.title@);
    let title = if t.len() == 0 {
        "untitled"@
    } else {
        t
    };
    let prefix = author_prefix(doc.authors);
    let year = year_suffix(doc.year);
    let used = prefix.len() + year.len();
    let room: nat = if used >= MAX_STEM {
        0
    } else {
        (MAX_STEM - used) as nat
    };
    let limit: nat = if room > 8 {
        room
    } else {
        8
    };
    prefix + trimmed_to(title, limit) + year
}

/// The title as it appears in the name: sanitized, `untitled` if nothing is
/// left, cut to the room the author and year leave.
pub open spec fn kept_title(doc: Document) -> Seq<char> {
    let t = sanitized(doc.title@);
    let title = if t.len() == 0 {
        "untitled"@
    } else {
        t
    };
    let used = author_prefix(doc.authors).len() + year_suffix(doc.year).len();
    let room: nat = if used >= MAX_STEM {
        0
    } else {
        (MAX_STEM - used) as nat
    };
    let limit: nat = if room > 8 {
        room
    } else {
        8
    };
    trimmed_to(title, limit)
}

/// `Author - Title (Year).ext`, dropping unknown parts.
pub open spec fn file_name(doc: Document) -> Seq<char> {
    file_stem(doc) + "."@ + doc.ext@
}

fn sanitize_chars(text: &Vec<char>) -> (r: Vec<char>)
    ensures
        r@ == sanitized(text@),
{
    let mut replaced: Vec<char> = Vec::new();
    let mut i: usize = 0;
    while i < text.len()
        invariant
            i <= text.len(),
            replaced@ == replace_rejected(text@.take(i as int)),
        decreases text.len() - i,
    {
        let c = text[i];
        let d = if c == '/' || c == '\\' || c == ':' || c == '*' || c == '?' || c == '"' || c
            == '<' || c == '>' || c == '|' || is_control_char(c) {
            ' '
        } else {
            c
        };
        replaced.push(d);
        assert(replace_rejected(text@.take(i as int + 1)) =~= replace_rejected(
            text@.take(i as int),
        ).push(d));
        i += 1;
    }
    assert(text@.take(text.len() as int) =~= text@);
    let mut out = collapse_whitespace(&replaced);
    strip_dots_spaces(&mut out);
    out
}

/// Strips what filesystems reject, following FAT's rules as the strictest.
pub fn sanitize(text: &str) -> (r: String)
    ensures
        r@ == sanitized(text@),
{
    let cs = chars_of(text);
    let out = sanitize_chars(&cs);
    string_of(&out)
}

fn short_author_chars(authors: &Vec<char>) -> (r: Option<Vec<char>>)
    ensures
        match short_author_of(authors@) {
            Some(s) => r matches Some(v) && v@ == s,
            None => r is None,
        },
{
    let pieces = split_chars(authors, ',');
    let ghost ps = split_on(authors@, ',');
    let mut names: Vec<Vec<char>> = Vec::new();
    let mut i: usize = 0;
    while i < pieces.len()
        invariant
            i <= pieces@.len(),
            pieces@.len() == ps.len(),
            forall|k: int| 0 <= k < pieces@.len() ==> (#[trigger] pieces@[k])@ == ps[k],
            names@.len() == author_names(ps.take(i as int)).len(),
            forall|k: int|
                0 <= k < names@.len() ==> (#[trigger] names@[k])@ == author_names(
                    ps.take(i as int),
                )[k],
        decreases pieces.len() - i,
    {
        assert(ps.take(i as int + 1).drop_last() =~= ps.take(i as int));
        let t = trim_chars(&pieces[i]);
        if t.len() > 0 {
            names.push(t);
        }
        i += 1;
    }
    assert(ps.take(pieces@.len() as int) =~= ps);
    if names.len() == 0 {
        return None;
    }
    let word = last_word(&names[0]);
    let mut surname = sanitize_chars(&word);
    if surname.len() == 0 {
        return None;
    }
    if names.len() > 1 {
        let tail = chars_of(" et al.");
        extend_chars(&mut surname, &tail);
    }
    Some(surname)
}

/// "Alfred V. Aho, Monica S. Lam" becomes "Aho et al.": the first author's
/// surname, and `et al.` when there are others.
pub fn short_author(authors: &str) -> (r: Option<String>)
    ensures
        match short_author_of(authors@) {
            Some(s) => r matches Some(v) && v@ == s,
            None => r is None,
        },
{
    let cs = chars_of(authors);
    match short_author_chars(&cs) {
        Some(v) => Some(string_of(&v)),
        None => None,
    }
}

fn trim_to_chars(text: &Vec<char>, max: usize) -> (r: Vec<char>)
    ensures
        r@ == trimmed_to(text@, max as nat),
{
    if text.len() <= max {
        let mut r: Vec<char> = Vec::new();
        extend_chars(&mut r, text);
        assert(r@ =~= text@);
        return r;
    }
    let mut kept: Vec<char> = Vec::new();
    let mut i: usize = 0;
    while i < max
        invariant
            i <= max < text.len(),
            kept@ == text@.take(i as int),
        decreases max - i,
    {
        kept.push(text[i]);
        assert(text@.take(i as int + 1) =~= text@.take(i as int).push(text@[i as int]));
        i += 1;
    }
    strip_trailing_white(&mut kept);
    strip_dots_spaces(&mut kept);
    kept
}

/// At most `max` characters of `text`; a shortened text also loses what
/// would trail at the cut: whitespace, dots and spaces.
pub fn trim_to(text: &str, max: usize) -> (r: String)
    ensures
        r@ == trimmed_to(text@, max as nat),
{
    let cs = chars_of(text);
    let out = trim_to_chars(&cs, max);
    string_of(&out)
}

/// `Author - Title (Year).ext`, dropping whichever parts are unknown.
pub fn filename_for(doc: &Document) -> (r: String)
    ensures
        r@ == file_name(*doc),
{
    let title_chars = chars_of(doc.title.as_str());
    let mut title = sanitize_chars(&title_chars);
    if title.len() == 0 {
        title = chars_of("untitled");
    }
    let mut prefix: Vec<char> = Vec::new();
    if let Some(authors) = &doc.authors {
        let a = chars_of(authors.as_str());
        if let Some(surname) = short_author_chars(&a) {
            extend_chars(&mut prefix, &surname);
            let sep = chars_of(" - ");
            extend_chars(&mut prefix, &sep);
        }
    }
    let mut year: Vec<char> = Vec::new();
    if let Some(y) = doc.year {
        let open = chars_of(" (");
        extend_chars(&mut year, &open);
        let d = decimal_of(y);
        extend_chars(&mut year, &d);
        let close = chars_of(")");
        extend_chars(&mut year, &close);
    }
    let room: usize = if prefix.len() >= MAX_STEM || year.len() >= MAX_STEM - prefix.len() {
        0
    } else {
        MAX_STEM - prefix.len() - year.len()
    };
    let limit: usize = if room > 8 {
        room
    } else {
        8
    };
    let kept = trim_to_chars(&title, limit);
    let mut name: Vec<char> = Vec::new();
    extend_chars(&mut name, &prefix);
    extend_chars(&mut name, &kept);
    extend_chars(&mut name, &year);
    let dot = chars_of(".");
    extend_chars(&mut name, &dot);
    let ext = chars_of(doc.ext.as_str());
    extend_chars(&mut name, &ext);
    string_of(&name)
}

/// The position of the last `.` in a name.
pub open spec fn last_dot(name: Seq<char>) -> Option<int>
    decreases name.len(),
{
    if name.len() == 0 {
        None
    } else if name.last() == '.' {
        Some(name.len() - 1)
    } else {
        last_dot(name.drop_last())
    }
}

/// A name without its extension: what comes before its last `.`, or the
/// whole name when it has none.
pub open spec fn stem_text(name: Seq<char>) -> Seq<char> {
    match last_dot(name) {
        Some(k) => name.take(k),
        None => name,
    }
}

/// The name without its extension.
pub fn name_stem(name: &str) -> (r: String)
    ensures
        r@ == stem_text(name@),
{
    let cs = chars_of(name);
    let mut k: usize = cs.len();
    assert(cs@.take(cs@.len() as int) =~= cs@);
    while k > 0 && cs[k - 1] != '.'
        invariant
            k <= cs@.len(),
            cs@ == name@,
            last_dot(cs@) == last_dot(cs@.take(k as int)),
        decreases k,
    {
        assert(cs@.take(k as int).drop_last() =~= cs@.take(k as int - 1));
        k -= 1;
    }
    if k == 0 {
        assert(cs@.take(0) =~= Seq::<char>::empty());
        return name.to_owned();
    }
    let mut out: Vec<char> = Vec::new();
    let mut i: usize = 0;
    while i < k - 1
        invariant
            0 < k <= cs@.len(),
            i <= k - 1,
            out@ == cs@.take(i as int),
        decreases k - 1 - i,
    {
        out.push(cs[i]);
        assert(cs@.take(i as int + 1) =~= cs@.take(i as int).push(cs@[i as int]));
        i += 1;
    }
    string_of(&out)
}

/// What the search for a free name does with the name it is trying.
#[derive(Debug, Clone, Copy, PartialEq, Eq, Structural)]
pub enum NameStep {
    /// Nothing is there: the copy is written under this name.
    Use,
    /// A file with the same bytes is there: the copy was made before, and
    /// running again skips it.
    Skip,
    /// Different bytes hold the name: the next name tried is
    /// `stem (counter).ext` with this counter.
    Next(u64),
}

/// One step of picking a free name for a copy: `counter` numbers the name
/// being tried (1 for the plain `stem.ext`), `taken` says a file is there,
/// and `same_bytes` that this file holds the copy's bytes. Same name but
/// different bytes gets the next counter, never an overwrite.
pub fn name_step(counter: u64, taken: bool, same_bytes: bool) -> (r: NameStep)
    requires
        counter < u64::MAX,
    ensures
        !taken ==> r == NameStep::Use,
        taken && same_bytes ==> r == NameStep::Skip,
        taken && !same_bytes ==> r == NameStep::Next((counter + 1) as u64),
{
    if !taken {
        NameStep::Use
    } else if same_bytes {
        NameStep::Skip
    } else {
        NameStep::Next(counter + 1)
    }
}

/// The name tried when `stem.ext` is taken by different bytes:
/// `stem (counter).ext`.
pub fn numbered_name(stem: &str, counter: u64, ext: &str) -> (r: String)
    ensures
        r@ == stem@ + " ("@ + digits(counter as nat) + ")."@ + ext@,
{
    let mut r = stem.to_owned();
    r.append(" (");
    let d = crate::text::digits_of(counter);
    r.append(string_of(&d).as_str());
    r.append(").");
    r.append(ext);
    r
}

/// No character a filesystem rejects.
pub open spec fn fs_safe(s: Seq<char>) -> bool {
    forall|i: int| 0 <= i < s.len() ==> !is_rejected(#[trigger] s[i])
}

proof fn lemma_strip_end_is_prefix(s: Seq<char>, f: spec_fn(char) -> bool)
    ensures
        strip_end(s, f).len() <= s.len(),
        strip_end(s, f) == s.take(strip_end(s, f).len() as int),
    decreases s.len(),
{
    if s.len() > 0 && f(s.last()) {
        lemma_strip_end_is_prefix(s.drop_last(), f);
        assert(s.drop_last().take(strip_end(s, f).len() as int) =~= s.take(
            strip_end(s, f).len() as int,
        ));
    } else {
        assert(s.take(s.len() as int) =~= s);
    }
}

proof fn lemma_strip_end_safe(s: Seq<char>, f: spec_fn(char) -> bool)
    requires
        fs_safe(s),
    ensures
        fs_safe(strip_end(s, f)),
{
    lemma_strip_end_is_prefix(s, f);
    let t = strip_end(s, f);
    assert forall|i: int| 0 <= i < t.len() implies !is_rejected(#[trigger] t[i]) by {
        assert(t[i] == s[i]);
    }
}

proof fn lemma_collapse_safe(s: Seq<char>)
    requires
        fs_safe(s),
    ensures
        fs_safe(collapse_state(s).0),
    decreases s.len(),
{
    if s.len() > 0 {
        assert forall|i: int| 0 <= i < s.drop_last().len() implies !is_rejected(
            #[trigger] s.drop_last()[i],
        ) by {
            assert(s.drop_last()[i] == s[i]);
        }
        lemma_collapse_safe(s.drop_last());
        assert(!is_rejected(s.last()));
        assert(!is_rejected(' '));
    }
}

/// Sanitizing leaves no character a filesystem rejects.
pub proof fn lemma_sanitized_is_safe(s: Seq<char>)
    ensures
        fs_safe(sanitized(s)),
{
    let r = replace_rejected(s);
    assert(!is_rejected(' '));
    assert(fs_safe(r));
    lemma_collapse_safe(r);
    lemma_strip_end_safe(collapse_ws(r), dot_space_fn());
}

proof fn lemma_trimmed_safe(s: Seq<char>, max: nat)
    requires
        fs_safe(s),
    ensures
        fs_safe(trimmed_to(s, max)),
        s.len() <= max ==> trimmed_to(s, max) == s,
        s.len() > max ==> trimmed_to(s, max).len() <= max,
        trimmed_to(s, max).len() <= s.len(),
{
    if s.len() > max {
        let t = s.take(max as int);
        assert(fs_safe(t)) by {
            assert forall|i: int| 0 <= i < t.len() implies !is_rejected(#[trigger] t[i]) by {
                assert(t[i] == s[i]);
            }
        }
        lemma_strip_end_safe(t, white_fn());
        lemma_strip_end_is_prefix(t, white_fn());
        lemma_strip_end_safe(strip_end(t, white_fn()), dot_space_fn());
        lemma_strip_end_is_prefix(strip_end(t, white_fn()), dot_space_fn());
    }
}

proof fn lemma_digits_safe(n: nat)
    ensures
        fs_safe(digits(n)),
    decreases n,
{
    if n >= 10 {
        lemma_digits_safe(n / 10);
    }
}

proof fn lemma_concat_safe(a: Seq<char>, b: Seq<char>)
    requires
        fs_safe(a),
        fs_safe(b),
    ensures
        fs_safe(a + b),
{
    assert forall|i: int| 0 <= i < (a + b).len() implies !is_rejected(#[trigger] (a + b)[i]) by {
        if i < a.len() {
            assert((a + b)[i] == a[i]);
        } else {
            assert((a + b)[i] == b[i - a.len()]);
        }
    }
}

proof fn lemma_literals_safe()
    ensures
        fs_safe(" et al."@),
        fs_safe(" - "@),
        fs_safe(" ("@),
        fs_safe(")"@),
        fs_safe(seq!['-']),
        fs_safe("untitled"@),
{
    reveal_strlit(" et al.");
    reveal_strlit(" - ");
    reveal_strlit(" (");
    reveal_strlit(")");
    reveal_strlit("untitled");
}

/// A name's stem holds no character that a filesystem rejects: FAT's
/// rules, the strictest an exported copy is likely to meet, are followed in
/// the author, the title and the year alike.
pub proof fn lemma_stem_is_safe(doc: Document)
    ensures
        fs_safe(file_stem(doc)),
{
    lemma_literals_safe();
    lemma_sanitized_is_safe(doc.title@);
    let t = sanitized(doc.title@);
    let title = if t.len() == 0 {
        "untitled"@
    } else {
        t
    };
    let prefix = author_prefix(doc.authors);
    let year = year_suffix(doc.year);
    let used = prefix.len() + year.len();
    let room: nat = if used >= MAX_STEM {
        0
    } else {
        (MAX_STEM - used) as nat
    };
    let limit: nat = if room > 8 {
        room
    } else {
        8
    };
    lemma_trimmed_safe(title, limit);
    assert(fs_safe(prefix)) by {
        match doc.authors {
            Some(a) => {
                let names = author_names(split_on(a@, ','));
                if names.len() > 0 {
                    lemma_sanitized_is_safe(after_last_white(names[0]));
                    let surname = sanitized(after_last_white(names[0]));
                    lemma_concat_safe(surname, " et al."@);
                    lemma_concat_safe(surname + " et al."@, " - "@);
                    lemma_concat_safe(surname, " - "@);
                }
            },
            None => {},
        }
    }
    assert(fs_safe(year)) by {
        match doc.year {
            Some(y) => {
                if y < 0 {
                    lemma_digits_safe((-y) as nat);
                    lemma_concat_safe(seq!['-'], digits((-y) as nat));
                } else {
                    lemma_digits_safe(y as nat);
                }
                lemma_concat_safe(" ("@, decimal(y as int));
                lemma_concat_safe(" ("@ + decimal(y as int), ")"@);
            },
            None => {},
        }
    }
    lemma_concat_safe(prefix, trimmed_to(title, limit));
    lemma_concat_safe(prefix + trimmed_to(title, limit), year);
}

/// The title is what gets shortened: whenever the author and the year leave
/// room for a title of at least 8 characters, the stem keeps within
/// `MAX_STEM` characters, still starting with the author and ending with the
/// year.
pub proof fn lemma_long_titles_are_trimmed(doc: Document)
    requires
        author_prefix(doc.authors).len() + year_suffix(doc.year).len() + 8 <= MAX_STEM,
    ensures
        file_stem(doc).len() <= MAX_STEM,
        file_stem(doc).take(author_prefix(doc.authors).len() as int) == author_prefix(doc.authors),
        file_stem(doc).skip(file_stem(doc).len() - year_suffix(doc.year).len()) == year_suffix(
            doc.year,
        ),
{
    let t = sanitized(doc.title@);
    let title = if t.len() == 0 {
        "untitled"@
    } else {
        t
    };
    let prefix = author_prefix(doc.authors);
    let year = year_suffix(doc.year);
    let room = (MAX_STEM - (prefix.len() + year.len())) as nat;
    lemma_sanitized_is_safe(doc.title@);
    lemma_literals_safe();
    lemma_trimmed_safe(title, room);
    let kept = trimmed_to(title, room);
    assert(kept.len() <= room);
    let stem = prefix + kept + year;
    assert(stem == file_stem(doc));
    assert(stem.take(prefix.len() as int) =~= prefix);
    assert(stem.skip(stem.len() - year.len()) =~= year);
}

/// A name never ends its title with a dot or a space, which Windows cannot
/// open; when the title is the end of the stem (no year follows) and is not
/// cut away entirely, neither does the stem.
pub proof fn lemma_title_never_ends_with_dot_or_space(doc: Document)
    ensures
        kept_title(doc).len() > 0 ==> kept_title(doc).last() != '.' && kept_title(doc).last() != ' ',
        doc.year is None && kept_title(doc).len() > 0 ==> file_stem(doc).last() != '.'
            && file_stem(doc).last() != ' ',
        doc.year is Some ==> file_stem(doc).last() == ')',
{
    let t = sanitized(doc.title@);
    reveal_strlit("untitled");
    reveal_strlit(")");
    let title = if t.len() == 0 {
        "untitled"@
    } else {
        t
    };
    assert(title.len() > 0 ==> title.last() != '.' && title.last() != ' ') by {
        if t.len() > 0 {
            lemma_ends_clean(collapse_ws(replace_rejected(doc.title@)));
        }
    }
    let prefix = author_prefix(doc.authors);
    let year = year_suffix(doc.year);
    let kept = kept_title(doc);
    assert(kept.len() > 0 ==> kept.last() != '.' && kept.last() != ' ') by {
        let used = prefix.len() + year.len();
        let room: nat = if used >= MAX_STEM {
            0
        } else {
            (MAX_STEM - used) as nat
        };
        let limit: nat = if room > 8 {
            room
        } else {
            8
        };
        if title.len() > limit {
            lemma_ends_clean(strip_end(title.take(limit as int), white_fn()));
        }
    }
    let stem = prefix + kept + year;
    assert(stem == file_stem(doc));
    if doc.year is None {
        assert(year.len() == 0);
        if kept.len() > 0 {
            assert(stem.last() == kept.last());
        }
    } else {
        assert(stem.last() == year.last());
    }
}

proof fn lemma_ends_clean(s: Seq<char>)
    ensures
        strip_end(s, dot_space_fn()).len() > 0 ==> strip_end(s, dot_space_fn()).last() != '.'
            && strip_end(s, dot_space_fn()).last() != ' ',
    decreases s.len(),
{
    if s.len() > 0 && dot_space_fn()(s.last()) {
        lemma_ends_clean(s.drop_last());
    }
}

} // verus!
