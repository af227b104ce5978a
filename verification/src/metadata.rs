//! Bibliographic fields as found in a file, returned by a registry, or typed
//! by hand, before they become a catalog entry.

use vstd::prelude::*;

use crate::text::copy_opt;

verus! {

/// Fields that may or may not be known about a document.
#[derive(Debug, Clone, PartialEq)]
pub struct Extracted {
    pub title: Option<String>,
    pub authors: Option<String>,
    pub publisher: Option<String>,
    pub edition: Option<String>,
    pub year: Option<i64>,
    pub isbn: Option<String>,
    pub doi: Option<String>,
    pub journal: Option<String>,
    pub volume: Option<String>,
    pub issue: Option<String>,
    pub pages: Option<String>,
}

/// `mine` when known, otherwise `theirs`.
pub open spec fn or_else<T>(mine: Option<T>, theirs: Option<T>) -> Option<T> {
    match mine {
        Some(v) => Some(v),
        None => theirs,
    }
}

/// `a` with every unknown field taken from `b`.
pub open spec fn filled(a: Extracted, b: Extracted) -> Extracted {
    Extracted {
        title: or_else(a.title, b.title),
        authors: or_else(a.authors, b.authors),
        publisher: or_else(a.publisher, b.publisher),
        edition: or_else(a.edition, b.edition),
        year: or_else(a.year, b.year),
        isbn: or_else(a.isbn, b.isbn),
        doi: or_else(a.doi, b.doi),
        journal: or_else(a.journal, b.journal),
        volume: or_else(a.volume, b.volume),
        issue: or_else(a.issue, b.issue),
        pages: or_else(a.pages, b.pages),
    }
}

fn keep_or_take(mine: &mut Option<String>, theirs: Option<String>)
    ensures
        *final(mine) == or_else(*old(mine), theirs),
{
    if mine.is_none() {
        *mine = theirs;
    }
}

impl Extracted {
    /// Nothing known.
    pub fn empty() -> (r: Extracted)
        ensures
            r.title is None && r.authors is None && r.publisher is None && r.edition is None
                && r.year is None && r.isbn is None && r.doi is None && r.journal is None
                && r.volume is None && r.issue is None && r.pages is None,
    {
        Extracted {
            title: None,
            authors: None,
            publisher: None,
            edition: None,
            year: None,
            isbn: None,
            doi: None,
            journal: None,
            volume: None,
            issue: None,
            pages: None,
        }
    }

    /// Keeps every field this record knows and fills the others from
    /// `other`.
    pub fn merge_from(&mut self, other: Extracted)
        ensures
            *final(self) == filled(*old(self), other),
    {
        keep_or_take(&mut self.title, other.title);
        keep_or_take(&mut self.authors, other.authors);
        keep_or_take(&mut self.publisher, other.publisher);
        keep_or_take(&mut self.edition, other.edition);
        if self.year.is_none() {
            self.year = other.year;
        }
        keep_or_take(&mut self.isbn, other.isbn);
        keep_or_take(&mut self.doi, other.doi);
        keep_or_take(&mut self.journal, other.journal);
        keep_or_take(&mut self.volume, other.volume);
        keep_or_take(&mut self.issue, other.issue);
        keep_or_take(&mut self.pages, other.pages);
    }

    /// A field-by-field copy.
    pub fn copy(&self) -> (r: Extracted)
        ensures
            r == *self,
    {
        Extracted {
            title: copy_opt(&self.title),
            authors: copy_opt(&self.authors),
            publisher: copy_opt(&self.publisher),
            edition: copy_opt(&self.edition),
            year: self.year,
            isbn: copy_opt(&self.isbn),
            doi: copy_opt(&self.doi),
            journal: copy_opt(&self.journal),
            volume: copy_opt(&self.volume),
            issue: copy_opt(&self.issue),
            pages: copy_opt(&self.pages),
        }
    }
}

} // verus!
