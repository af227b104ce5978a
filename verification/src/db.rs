//! The catalog's queries: the full-text search expression, the listing
//! query, and the tag names a document is given.

use vstd::prelude::*;

use crate::commands::update::names_view;
use crate::model::Kind;
use crate::text::{chars_of, is_blank, blank, string_of, trim, trim_chars};
use crate::words::{join, join_with, split_words, words};
use crate::config::opt_view;

verus! {

/// A token with each `"` doubled, which is how FTS5 escapes a quote inside
/// a quoted string.
pub open spec fn quotes_doubled(tok: Seq<char>) -> Seq<char>
    decreases tok.len(),
{
    if tok.len() == 0 {
        tok
    } else if tok.last() == '"' {
        quotes_doubled(tok.drop_last()) + seq!['"', '"']
    } else {
        quotes_doubled(tok.drop_last()).push(tok.last())
    }
}

/// One search term: the token quoted, matching as a prefix.
pub open spec fn fts_term(tok: Seq<char>) -> Seq<char> {
    seq!['"'] + quotes_doubled(tok) + seq!['"', '*']
}

/// The FTS5 expression for what someone typed: every whitespace-separated
/// token a quoted prefix term, the terms separated by spaces.
pub open spec fn fts_text(input: Seq<char>) -> Seq<char> {
    join_with(words(input).map_values(|t: Seq<char>| fts_term(t)), " "@)
}

/// FTS5 treats bare user input as a query expression, so a stray `-` or `"`
/// is a syntax error rather than a search term. Quote every token and make
/// it a prefix match.
pub fn fts_query(input: &str) -> (r: String)
    ensures
        r@ == fts_text(input@),
{
    let toks = split_words(input);
    let ghost ws = words(input@);
    let mut terms: Vec<String> = Vec::new();
    let mut i: usize = 0;
    while i < toks.len()
        invariant
            i <= toks@.len(),
            names_view(toks@) == ws,
            names_view(terms@) == ws.take(i as int).map_values(|t: Seq<char>| fts_term(t)),
        decreases toks.len() - i,
    {
        let cs = chars_of(toks[i].as_str());
        let mut term: Vec<char> = vec!['"'];
        let mut j: usize = 0;
        while j < cs.len()
            invariant
                j <= cs@.len(),
                term@ == seq!['"'] + quotes_doubled(cs@.take(j as int)),
            decreases cs.len() - j,
        {
            assert(cs@.take(j as int + 1).drop_last() =~= cs@.take(j as int));
            if cs[j] == '"' {
                term.push('"');
                term.push('"');
            } else {
                term.push(cs[j]);
            }
            assert(term@ =~= seq!['"'] + quotes_doubled(cs@.take(j as int + 1)));
            j += 1;
        }
        assert(cs@.take(j as int) =~= cs@);
        term.push('"');
        term.push('*');
        let ghost before = names_view(terms@);
        terms.push(string_of(&term));
        assert(term@ =~= fts_term(ws[i as int]));
        assert(names_view(terms@) =~= before.push(fts_term(ws[i as int])));
        assert(ws.take(i as int + 1).map_values(|t: Seq<char>| fts_term(t)) =~= ws.take(
            i as int,
        ).map_values(|t: Seq<char>| fts_term(t)).push(fts_term(ws[i as int])));
        i += 1;
    }
    assert(ws.take(i as int) =~= ws);
    join(&terms, " ")
}

/// The expression a search runs, or `None` when the query is blank and
/// everything is listed instead.
pub fn search_expression(query: &str) -> (r: Option<String>)
    ensures
        is_blank(query@) ==> r is None,
        !is_blank(query@) ==> (r matches Some(e) && e@ == fts_text(query@)),
{
    if blank(query) {
        None
    } else {
        Some(fts_query(query))
    }
}

/// The trimmed, non-blank names among `tags`, in order.
pub open spec fn tag_names_of(tags: Seq<Seq<char>>) -> Seq<Seq<char>>
    decreases tags.len(),
{
    if tags.len() == 0 {
        Seq::empty()
    } else {
        let t = trim(tags.last());
        if t.len() > 0 {
            tag_names_of(tags.drop_last()).push(t)
        } else {
            tag_names_of(tags.drop_last())
        }
    }
}

/// The names a document is tagged with when given `tags`: each trimmed, and
/// blank ones skipped.
pub fn tag_names(tags: &Vec<String>) -> (r: Vec<String>)
    ensures
        names_view(r@) == tag_names_of(names_view(tags@)),
{
    let ghost all = names_view(tags@);
    let mut out: Vec<String> = Vec::new();
    let mut i: usize = 0;
    while i < tags.len()
        invariant
            i <= tags@.len(),
            all == names_view(tags@),
            names_view(out@) == tag_names_of(all.take(i as int)),
        decreases tags.len() - i,
    {
        assert(all.take(i as int + 1).drop_last() =~= all.take(i as int));
        let cs = chars_of(tags[i].as_str());
        let t = trim_chars(&cs);
        if t.len() > 0 {
            let ghost before = names_view(out@);
            out.push(string_of(&t));
            assert(names_view(out@) =~= before.push(trim(all[i as int])));
        }
        i += 1;
    }
    assert(all.take(i as int) =~= all);
    out
}

/// The columns of a document, prefixed for queries that join other tables.
pub open spec fn select_joined() -> Seq<char> {
    "SELECT d.id, d.kind, d.title, d.authors, d.year, d.publisher, d.edition, d.isbn, d.journal, d.volume, d.issue, d.pages, d.doi, d.ext, d.size, d.content_hash, d.remote_path, d.cached_at, d.last_opened, d.added_at, d.extra"@
}

/// The listing query for an optional tag and kind, and its arguments in
/// order.
pub open spec fn list_sql_text(tag: bool, kind: bool) -> Seq<char> {
    let base = select_joined() + " FROM documents d"@;
    let with_join = if tag {
        base + " JOIN document_tags dt ON dt.document_id = d.id JOIN tags t ON t.id = dt.tag_id"@
    } else {
        base
    };
    let clauses = if tag && kind {
        " WHERE t.name = ? AND d.kind = ?"@
    } else if tag {
        " WHERE t.name = ?"@
    } else if kind {
        " WHERE d.kind = ?"@
    } else {
        Seq::empty()
    };
    with_join + clauses + " ORDER BY d.title COLLATE NOCASE"@
}

pub open spec fn list_args(tag: Option<Seq<char>>, kind: Option<Kind>) -> Seq<Seq<char>> {
    let t = match tag {
        Some(t) => seq![t],
        None => Seq::empty(),
    };
    let k = match kind {
        Some(k) => seq![k.name()],
        None => Seq::empty(),
    };
    t + k
}

/// The listing query filters as asked: with a tag, its `WHERE` clause asks
/// for rows whose tag name equals the first argument, which is that tag;
/// with a kind, it asks for documents of that kind, the last argument
/// naming it; there is one argument per filter; and every listing is
/// ordered by title.
pub proof fn lemma_list_query_filters(tag: Option<Seq<char>>, kind: Option<Kind>)
    ensures
        tag is Some ==> exists|p: Seq<char>, s: Seq<char>|
            list_sql_text(true, kind is Some) == p + " WHERE t.name = ?"@ + s,
        tag is Some ==> list_args(tag, kind)[0] == tag.unwrap(),
        kind is Some ==> exists|p: Seq<char>, s: Seq<char>|
            list_sql_text(tag is Some, true) == p + "d.kind = ?"@ + s,
        kind is Some ==> list_args(tag, kind).last() == kind.unwrap().name(),
        list_args(tag, kind).len() == (if tag is Some { 1int } else { 0int }) + (if kind is Some {
            1int
        } else {
            0int
        }),
        exists|p: Seq<char>|
            list_sql_text(tag is Some, kind is Some) == p + " ORDER BY d.title COLLATE NOCASE"@,
{
    reveal_strlit(" WHERE t.name = ? AND d.kind = ?");
    reveal_strlit(" WHERE t.name = ?");
    reveal_strlit(" WHERE d.kind = ?");
    reveal_strlit(" AND d.kind = ?");
    reveal_strlit("d.kind = ?");
    reveal_strlit(" WHERE ");
    reveal_strlit(" WHERE t.name = ? AND ");
    let base = select_joined() + " FROM documents d"@;
    let joined = base + " JOIN document_tags dt ON dt.document_id = d.id JOIN tags t ON t.id = dt.tag_id"@;
    let order = " ORDER BY d.title COLLATE NOCASE"@;
    let both = " WHERE t.name = ? AND d.kind = ?"@;
    assert(both =~= " WHERE t.name = ?"@ + " AND d.kind = ?"@);
    assert(both =~= " WHERE t.name = ? AND "@ + "d.kind = ?"@);
    assert(" WHERE d.kind = ?"@ =~= " WHERE "@ + "d.kind = ?"@);
    if tag is Some {
        if kind is Some {
            assert(list_sql_text(true, true) =~= joined + " WHERE t.name = ?"@ + (" AND d.kind = ?"@ + order));
            assert(list_sql_text(true, true) =~= (joined + " WHERE t.name = ? AND "@) + "d.kind = ?"@ + order);
        } else {
            assert(list_sql_text(true, false) =~= joined + " WHERE t.name = ?"@ + order);
        }
    } else if kind is Some {
        assert(list_sql_text(false, true) =~= (base + " WHERE "@) + "d.kind = ?"@ + order);
    }
    let text = list_sql_text(tag is Some, kind is Some);
    assert(text =~= text.take(text.len() - order.len()) + order);
}

/// The query that lists documents, filtered by tag and kind when given,
/// ordered by title without regard to case, with its arguments.
pub fn list_query(tag: Option<&str>, kind: Option<Kind>) -> (r: (String, Vec<String>))
    ensures
        r.0@ == list_sql_text(tag is Some, kind is Some),
        names_view(r.1@) == list_args(opt_view(tag), kind),
{
    let mut sql = String::from_str(
        "SELECT d.id, d.kind, d.title, d.authors, d.year, d.publisher, d.edition, d.isbn, d.journal, d.volume, d.issue, d.pages, d.doi, d.ext, d.size, d.content_hash, d.remote_path, d.cached_at, d.last_opened, d.added_at, d.extra",
    );
    sql.append(" FROM documents d");
    let mut args: Vec<String> = Vec::new();
    if let Some(t) = tag {
        sql.append(
            " JOIN document_tags dt ON dt.document_id = d.id JOIN tags t ON t.id = dt.tag_id",
        );
        args.push(t.to_owned());
    }
    match (tag, kind) {
        (Some(_), Some(_)) => sql.append(" WHERE t.name = ? AND d.kind = ?"),
        (Some(_), None) => sql.append(" WHERE t.name = ?"),
        (None, Some(_)) => sql.append(" WHERE d.kind = ?"),
        (None, None) => {},
    }
    if let Some(k) = kind {
        let ghost before = names_view(args@);
        args.push(String::from_str(k.as_str()));
        assert(names_view(args@) =~= before.push(k.name()));
    }
    assert(names_view(args@) =~= list_args(opt_view(tag), kind));
    sql.append(" ORDER BY d.title COLLATE NOCASE");
    (sql, args)
}

/// The kind a stored row names; an unknown name reads as a book.
pub fn kind_of_row(text: &str) -> (r: Kind)
    ensures
        text@ == Kind::Article.name() ==> r == Kind::Article,
        text@ != Kind::Article.name() ==> r == Kind::Book,
{
    proof {
        reveal_strlit("book");
        reveal_strlit("article");
        assert("book"@.len() != "article"@.len());
    }
    match Kind::parse(text) {
        Some(k) => k,
        None => Kind::Book,
    }
}

} // verus!
