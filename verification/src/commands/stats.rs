//! `doclib stats`: counts over the catalog, and the gaps worth fixing next.

use vstd::prelude::*;

use crate::model::{Document, Kind};

verus! {

/// How many tags the summary shows.
pub const TOP_TAGS: usize = 10;

/// Counts over the catalogued documents.
pub struct CatalogStats {
    pub documents: usize,
    pub books: usize,
    pub articles: usize,
    /// Sum of the documents' sizes (a negative size counts as 0),
    /// saturating at `u64::MAX`.
    pub total_bytes: u64,
    /// The earliest and latest year, when any document has one.
    pub years: Option<(i64, i64)>,
    /// Documents opened at least once.
    pub opened: usize,
    pub no_authors: usize,
    pub no_year: usize,
}

/// How many of `docs` satisfy `f`.
pub open spec fn count(docs: Seq<Document>, f: spec_fn(Document) -> bool) -> nat
    decreases docs.len(),
{
    if docs.len() == 0 {
        0
    } else {
        count(docs.drop_last(), f) + if f(docs.last()) {
            1nat
        } else {
            0nat
        }
    }
}

pub proof fn lemma_count_bound(docs: Seq<Document>, f: spec_fn(Document) -> bool)
    ensures
        count(docs, f) <= docs.len(),
    decreases docs.len(),
{
    if docs.len() > 0 {
        lemma_count_bound(docs.drop_last(), f);
    }
}

/// The sum of the documents' sizes, negative ones counted as 0.
pub open spec fn size_sum(docs: Seq<Document>) -> int
    decreases docs.len(),
{
    if docs.len() == 0 {
        0
    } else {
        size_sum(docs.drop_last()) + if docs.last().size > 0 {
            docs.last().size as int
        } else {
            0
        }
    }
}

/// The earliest and latest of the years given.
pub open spec fn year_range(docs: Seq<Document>) -> Option<(i64, i64)>
    decreases docs.len(),
{
    if docs.len() == 0 {
        None
    } else {
        let rest = year_range(docs.drop_last());
        match docs.last().year {
            None => rest,
            Some(y) => match rest {
                None => Some((y, y)),
                Some((lo, hi)) => Some(
                    (if y < lo {
                        y
                    } else {
                        lo
                    }, if y > hi {
                        y
                    } else {
                        hi
                    }),
                ),
            },
        }
    }
}

/// The year range spans the catalog: there is one exactly when some
/// document has a year; then no document's year lies outside it, and both
/// ends are years some document has.
pub proof fn lemma_year_range_spans(docs: Seq<Document>)
    ensures
        year_range(docs) is None <==> forall|i: int| 0 <= i < docs.len() ==> (#[trigger] docs[i]).year is None,
        forall|i: int|
            0 <= i < docs.len() && (#[trigger] docs[i]).year is Some ==> year_range(docs) is Some
                && year_range(docs).unwrap().0 <= docs[i].year.unwrap() && docs[i].year.unwrap()
                <= year_range(docs).unwrap().1,
        year_range(docs) is Some ==> exists|i: int|
            0 <= i < docs.len() && (#[trigger] docs[i]).year == Some(year_range(docs).unwrap().0),
        year_range(docs) is Some ==> exists|j: int|
            0 <= j < docs.len() && (#[trigger] docs[j]).year == Some(year_range(docs).unwrap().1),
    decreases docs.len(),
{
    if docs.len() > 0 {
        let rest = docs.drop_last();
        let n = docs.len() - 1;
        lemma_year_range_spans(rest);
        assert forall|i: int| 0 <= i < n implies #[trigger] rest[i] == docs[i] by {}
        assert(docs.last() == docs[n]);
        if year_range(rest) is Some {
            let a = choose|i: int| 0 <= i < rest.len() && (#[trigger] rest[i]).year == Some(year_range(rest).unwrap().0);
            let b = choose|j: int| 0 <= j < rest.len() && (#[trigger] rest[j]).year == Some(year_range(rest).unwrap().1);
            assert(docs[a] == rest[a]);
            assert(docs[b] == rest[b]);
        }
        if year_range(docs) is None {
            assert forall|i: int| 0 <= i < docs.len() implies (#[trigger] docs[i]).year is None by {
                if i < n {
                    assert(rest[i] == docs[i]);
                }
            }
        }
        assert forall|i: int|
            0 <= i < docs.len() && (#[trigger] docs[i]).year is Some implies year_range(docs) is Some
                && year_range(docs).unwrap().0 <= docs[i].year.unwrap() && docs[i].year.unwrap()
                <= year_range(docs).unwrap().1 by {
            if i < n {
                assert(rest[i] == docs[i]);
            }
        }
    }
}

pub open spec fn is_book() -> spec_fn(Document) -> bool {
    |d: Document| d.kind == Kind::Book
}

pub open spec fn was_opened() -> spec_fn(Document) -> bool {
    |d: Document| d.last_opened is Some
}

pub open spec fn lacks_authors() -> spec_fn(Document) -> bool {
    |d: Document| d.authors is None
}

pub open spec fn lacks_year() -> spec_fn(Document) -> bool {
    |d: Document| d.year is None
}

/// The counts `doclib stats` shows for a catalog.
pub fn catalog_stats(docs: &Vec<Document>) -> (r: CatalogStats)
    ensures
        r.documents == docs@.len(),
        r.books == count(docs@, is_book()),
        r.articles == docs@.len() - count(docs@, is_book()),
        r.total_bytes == (if size_sum(docs@) > u64::MAX {
            u64::MAX as int
        } else {
            size_sum(docs@)
        }),
        r.years == year_range(docs@),
        r.years matches Some((lo, hi)) ==> forall|i: int|
            0 <= i < docs@.len() ==> ((#[trigger] docs@[i]).year matches Some(y) ==> lo <= y <= hi),
        r.years matches Some((lo, hi)) ==> exists|i: int|
            0 <= i < docs@.len() && (#[trigger] docs@[i]).year == Some(lo),
        r.years matches Some((lo, hi)) ==> exists|j: int|
            0 <= j < docs@.len() && (#[trigger] docs@[j]).year == Some(hi),
        r.years is None ==> forall|i: int| 0 <= i < docs@.len() ==> (#[trigger] docs@[i]).year is None,
        r.opened == count(docs@, was_opened()),
        r.no_authors == count(docs@, lacks_authors()),
        r.no_year == count(docs@, lacks_year()),
{
    let mut books: usize = 0;
    let mut opened: usize = 0;
    let mut no_authors: usize = 0;
    let mut no_year: usize = 0;
    let mut total: u64 = 0;
    let mut years: Option<(i64, i64)> = None;
    let mut i: usize = 0;
    while i < docs.len()
        invariant
            i <= docs@.len(),
            books == count(docs@.take(i as int), is_book()),
            opened == count(docs@.take(i as int), was_opened()),
            no_authors == count(docs@.take(i as int), lacks_authors()),
            no_year == count(docs@.take(i as int), lacks_year()),
            size_sum(docs@.take(i as int)) >= 0,
            total == (if size_sum(docs@.take(i as int)) > u64::MAX {
                u64::MAX as int
            } else {
                size_sum(docs@.take(i as int))
            }),
            years == year_range(docs@.take(i as int)),
        decreases docs.len() - i,
    {
        let ghost s = docs@.take(i as int + 1);
        assert(s.drop_last() =~= docs@.take(i as int));
        proof {
            lemma_count_bound(docs@.take(i as int), is_book());
            lemma_count_bound(docs@.take(i as int), was_opened());
            lemma_count_bound(docs@.take(i as int), lacks_authors());
            lemma_count_bound(docs@.take(i as int), lacks_year());
        }
        let d = &docs[i];
        if d.kind == Kind::Book {
            books += 1;
        }
        if d.last_opened.is_some() {
            opened += 1;
        }
        if d.authors.is_none() {
            no_authors += 1;
        }
        if d.year.is_none() {
            no_year += 1;
        }
        if d.size > 0 {
            let sz = d.size as u64;
            total = total.saturating_add(sz);
        }
        match d.year {
            None => {},
            Some(y) => {
                years = match years {
                    None => Some((y, y)),
                    Some((lo, hi)) => Some(
                        (if y < lo {
                            y
                        } else {
                            lo
                        }, if y > hi {
                            y
                        } else {
                            hi
                        }),
                    ),
                };
            },
        }
        i += 1;
    }
    assert(docs@.take(i as int) =~= docs@);
    proof {
        lemma_count_bound(docs@, is_book());
        lemma_year_range_spans(docs@);
    }
    CatalogStats {
        documents: docs.len(),
        books,
        articles: docs.len() - books,
        total_bytes: total,
        years,
        opened,
        no_authors,
        no_year,
    }
}

/// The tags the summary lists (the first `TOP_TAGS`, most used first as
/// the catalog reports them) and how many more there are.
pub fn top_tags(counts: &Vec<(String, u64)>) -> (r: (Vec<(String, u64)>, usize))
    ensures
        r.0@.len() == if counts@.len() > TOP_TAGS {
            TOP_TAGS as int
        } else {
            counts@.len() as int
        },
        forall|k: int| 0 <= k < r.0@.len() ==> #[trigger] r.0@[k] == counts@[k],
        r.1 == if counts@.len() > TOP_TAGS {
            counts@.len() - TOP_TAGS
        } else {
            0
        },
{
    let mut shown: Vec<(String, u64)> = Vec::new();
    let mut i: usize = 0;
    while i < counts.len() && i < TOP_TAGS
        invariant
            i <= counts@.len(),
            i <= TOP_TAGS,
            shown@.len() == i,
            forall|k: int| 0 <= k < i ==> #[trigger] shown@[k] == counts@[k],
        decreases counts.len() - i,
    {
        shown.push((counts[i].0.clone(), counts[i].1));
        i += 1;
    }
    let more = if counts.len() > TOP_TAGS {
        counts.len() - TOP_TAGS
    } else {
        0
    };
    (shown, more)
}

} // verus!
