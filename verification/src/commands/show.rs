//! `doclib show`: a document's fields as aligned `label  value` lines.

use vstd::prelude::*;
use vstd::utf8::encode_utf8;

use crate::commands::update::names_view;
use crate::model::{Document, Kind};
use crate::text::{
    byte_len, chars_of, decimal, decimal_of, pad_chars, padded, string_of, trim, trim_chars,
};
use crate::words::{join, join_with};

verus! {

/// Label/value pairs, collected so the labels can be aligned to the widest
/// one once every field is known.
pub struct Fields {
    pub rows: Vec<(&'static str, String)>,
}

pub open spec fn rows_view(rows: Seq<(&'static str, String)>) -> Seq<(Seq<char>, Seq<char>)> {
    rows.map_values(|r: (&'static str, String)| (r.0@, r.1@))
}

/// The row a value makes: its trimmed text, unless that is empty or there
/// is no value.
pub open spec fn row_for(label: Seq<char>, value: Option<Seq<char>>) -> Seq<(Seq<char>, Seq<char>)> {
    match value {
        Some(v) => if trim(v).len() > 0 {
            seq![(label, trim(v))]
        } else {
            Seq::empty()
        },
        None => Seq::empty(),
    }
}

/// The rows that a list of candidate fields makes.
pub open spec fn rows_for(cands: Seq<(Seq<char>, Option<Seq<char>>)>) -> Seq<(Seq<char>, Seq<char>)>
    decreases cands.len(),
{
    if cands.len() == 0 {
        Seq::empty()
    } else {
        rows_for(cands.drop_last()) + row_for(cands.last().0, cands.last().1)
    }
}

/// The widest label, in bytes.
pub open spec fn widest(rows: Seq<(Seq<char>, Seq<char>)>) -> int
    decreases rows.len(),
{
    if rows.len() == 0 {
        0
    } else {
        let w = widest(rows.drop_last());
        let l = encode_utf8(rows.last().0).len() as int;
        if l > w {
            l
        } else {
            w
        }
    }
}

/// The printed lines: each label padded to the widest, two spaces, the value.
pub open spec fn field_lines(rows: Seq<(Seq<char>, Seq<char>)>) -> Seq<Seq<char>> {
    rows.map_values(|r: (Seq<char>, Seq<char>)| padded(r.0, widest(rows)) + "  "@ + r.1)
}

pub open spec fn opt_text(v: Option<&str>) -> Option<Seq<char>> {
    match v {
        Some(s) => Some(s@),
        None => None,
    }
}

pub open spec fn opt_string(v: Option<String>) -> Option<Seq<char>> {
    match v {
        Some(s) => Some(s@),
        None => None,
    }
}

impl Fields {
    /// No fields yet.
    pub fn new() -> (r: Fields)
        ensures
            r.rows@.len() == 0,
    {
        Fields { rows: Vec::new() }
    }

    /// Adds a field, trimmed, unless it has no value or a blank one.
    pub fn add(&mut self, label: &'static str, value: Option<&str>)
        ensures
            rows_view(final(self).rows@) == rows_view(old(self).rows@) + row_for(
                label@,
                opt_text(value),
            ),
    {
        let ghost before = rows_view(self.rows@);
        if let Some(v) = value {
            let cs = chars_of(v);
            let t = trim_chars(&cs);
            if t.len() > 0 {
                self.rows.push((label, string_of(&t)));
                assert(rows_view(self.rows@) =~= before + row_for(label@, opt_text(value)));
                return;
            }
        }
        assert(rows_view(self.rows@) =~= before + row_for(label@, opt_text(value)));
    }

    /// `add` for an owned value.
    pub fn add_owned(&mut self, label: &'static str, value: Option<String>)
        ensures
            rows_view(final(self).rows@) == rows_view(old(self).rows@) + row_for(
                label@,
                opt_string(value),
            ),
    {
        match value {
            Some(v) => self.add(label, Some(v.as_str())),
            None => self.add(label, None),
        }
    }

    /// The lines to print, labels aligned.
    pub fn lines(&self) -> (r: Vec<String>)
        ensures
            names_view(r@) == field_lines(rows_view(self.rows@)),
    {
        let ghost rows = rows_view(self.rows@);
        let mut width: usize = 0;
        let mut i: usize = 0;
        while i < self.rows.len()
            invariant
                i <= self.rows@.len(),
                rows == rows_view(self.rows@),
                width == widest(rows.take(i as int)),
            decreases self.rows.len() - i,
        {
            assert(rows.take(i as int + 1).drop_last() =~= rows.take(i as int));
            let l = byte_len(self.rows[i].0);
            if l > width {
                width = l;
            }
            i += 1;
        }
        assert(rows.take(i as int) =~= rows);
        let mut out: Vec<String> = Vec::new();
        let mut j: usize = 0;
        while j < self.rows.len()
            invariant
                j <= self.rows@.len(),
                rows == rows_view(self.rows@),
                width == widest(rows),
                names_view(out@) == field_lines(rows).take(j as int),
            decreases self.rows.len() - j,
        {
            let mut line = chars_of(self.rows[j].0);
            pad_chars(&mut line, width);
            line.push(' ');
            line.push(' ');
            let value = chars_of(self.rows[j].1.as_str());
            let ghost head = line@;
            crate::text::extend_chars(&mut line, &value);
            let ghost before = names_view(out@);
            out.push(string_of(&line));
            assert(line@ =~= padded(rows[j as int].0, widest(rows)) + "  "@ + rows[j as int].1) by {
                reveal_strlit("  ");
            }
            assert(field_lines(rows)[j as int] == padded(rows[j as int].0, widest(rows)) + "  "@
                + rows[j as int].1);
            assert(names_view(out@) =~= before.push(line@));
            assert(field_lines(rows).take(j as int + 1) =~= field_lines(rows).take(j as int).push(
                field_lines(rows)[j as int],
            ));
            assert(names_view(out@) =~= field_lines(rows).take(j as int + 1));
            j += 1;
        }
        assert(field_lines(rows).take(j as int) =~= field_lines(rows));
        out
    }
}

/// The fields `doclib show` lists for a document, before blank ones are
/// dropped: its bibliographic fields (those of its kind), its tags, and
/// where its bytes are.
pub open spec fn show_candidates(
    doc: Document,
    tags: Seq<Seq<char>>,
    size_text: Seq<char>,
    cached: Option<Seq<char>>,
    remote: Seq<char>,
) -> Seq<(Seq<char>, Option<Seq<char>>)> {
    let head = seq![
        ("title"@, Some(doc.title@)),
        ("kind"@, Some(doc.kind.name())),
        ("authors"@, opt_string(doc.authors)),
        ("year"@, match doc.year {
            Some(y) => Some(decimal(y as int)),
            None => None,
        }),
    ];
    let by_kind = match doc.kind {
        Kind::Book => seq![
            ("publisher"@, opt_string(doc.publisher)),
            ("edition"@, opt_string(doc.edition)),
            ("isbn"@, opt_string(doc.isbn)),
        ],
        Kind::Article => seq![
            ("journal"@, opt_string(doc.journal)),
            ("volume"@, opt_string(doc.volume)),
            ("issue"@, opt_string(doc.issue)),
            ("pages"@, opt_string(doc.pages)),
            ("doi"@, opt_string(doc.doi)),
            ("publisher"@, opt_string(doc.publisher)),
        ],
    };
    let tail = seq![
        ("tags"@, if tags.len() == 0 {
            None
        } else {
            Some(join_with(tags, ", "@))
        }),
        ("size"@, Some(size_text)),
        ("cached"@, Some(
            match cached {
                Some(p) => p,
                None => "no (fetched on open)"@,
            },
        )),
        ("remote"@, Some(remote)),
        ("added"@, Some(doc.added_at@)),
        ("last opened"@, Some(
            match doc.last_opened {
                Some(t) => t@,
                None => "never"@,
            },
        )),
        ("hash"@, Some(doc.content_hash@)),
        ("id"@, Some(doc.id@)),
    ];
    head + by_kind + tail
}

pub open spec fn cands_view(v: Seq<(&'static str, Option<String>)>) -> Seq<
    (Seq<char>, Option<Seq<char>>),
> {
    v.map_values(|c: (&'static str, Option<String>)| (c.0@, opt_string(c.1)))
}

/// The fields of a document as `doclib show` lists them. `size_text` is its
/// size as shown, `cached` the path of its cached copy when there is one,
/// `remote` where its stored copy is.
pub fn show_fields(
    doc: &Document,
    tags: &Vec<String>,
    size_text: String,
    cached: Option<String>,
    remote: String,
) -> (r: Fields)
    ensures
        rows_view(r.rows@) == rows_for(
            show_candidates(*doc, names_view(tags@), size_text@, opt_string(cached), remote@),
        ),
{
    let ghost want = show_candidates(*doc, names_view(tags@), size_text@, opt_string(cached), remote@);
    let mut cands: Vec<(&'static str, Option<String>)> = Vec::new();
    cands.push(("title", Some(doc.title.clone())));
    cands.push(("kind", Some(String::from_str(doc.kind.as_str()))));
    cands.push(("authors", crate::text::copy_opt(&doc.authors)));
    let year = match doc.year {
        Some(y) => {
            let d = decimal_of(y);
            Some(string_of(&d))
        },
        None => None,
    };
    cands.push(("year", year));
    match doc.kind {
        Kind::Book => {
            cands.push(("publisher", crate::text::copy_opt(&doc.publisher)));
            cands.push(("edition", crate::text::copy_opt(&doc.edition)));
            cands.push(("isbn", crate::text::copy_opt(&doc.isbn)));
        },
        Kind::Article => {
            cands.push(("journal", crate::text::copy_opt(&doc.journal)));
            cands.push(("volume", crate::text::copy_opt(&doc.volume)));
            cands.push(("issue", crate::text::copy_opt(&doc.issue)));
            cands.push(("pages", crate::text::copy_opt(&doc.pages)));
            cands.push(("doi", crate::text::copy_opt(&doc.doi)));
            cands.push(("publisher", crate::text::copy_opt(&doc.publisher)));
        },
    }
    let tag_text = if tags.len() == 0 {
        None
    } else {
        Some(join(tags, ", "))
    };
    cands.push(("tags", tag_text));
    cands.push(("size", Some(size_text)));
    let cached_text = match cached {
        Some(p) => p,
        None => String::from_str("no (fetched on open)"),
    };
    cands.push(("cached", Some(cached_text)));
    cands.push(("remote", Some(remote)));
    cands.push(("added", Some(doc.added_at.clone())));
    let opened = match &doc.last_opened {
        Some(t) => t.clone(),
        None => String::from_str("never"),
    };
    cands.push(("last opened", Some(opened)));
    cands.push(("hash", Some(doc.content_hash.clone())));
    cands.push(("id", Some(doc.id.clone())));
    assert(cands_view(cands@) =~= want);
    let mut out = Fields::new();
    let mut i: usize = 0;
    while i < cands.len()
        invariant
            i <= cands@.len(),
            rows_view(out.rows@) == rows_for(cands_view(cands@).take(i as int)),
        decreases cands.len() - i,
    {
        assert(cands_view(cands@).take(i as int + 1).drop_last() =~= cands_view(cands@).take(
            i as int,
        ));
        let label = cands[i].0;
        let value = crate::text::copy_opt(&cands[i].1);
        out.add_owned(label, value);
        i += 1;
    }
    assert(cands_view(cands@).take(i as int) =~= want);
    out
}

} // verus!
