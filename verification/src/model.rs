//! The catalog's record of one stored file.

use vstd::prelude::*;

use crate::text::str_equal;

verus! {

/// Whether a document is a book or an article.
#[derive(Debug, Clone, Copy, PartialEq, Eq, Structural)]
pub enum Kind {
    Book,
    Article,
}

impl Kind {
    pub open spec fn name(self) -> Seq<char> {
        match self {
            Kind::Book => "book"@,
            Kind::Article => "article"@,
        }
    }

    pub fn as_str(&self) -> (r: &'static str)
        ensures
            r@ == self.name(),
    {
        match self {
            Kind::Book => "book",
            Kind::Article => "article",
        }
    }

    /// The kind whose name is exactly `text`.
    pub fn parse(text: &str) -> (r: Option<Kind>)
        ensures
            r matches Some(k) ==> k.name() == text@,
            r is None ==> text@ != Kind::Book.name() && text@ != Kind::Article.name(),
    {
        if str_equal(text, "book") {
            Some(Kind::Book)
        } else if str_equal(text, "article") {
            Some(Kind::Article)
        } else {
            None
        }
    }
}

/// A catalogued file: its bibliographic fields, where its bytes live and
/// when it was last used.
#[derive(Debug, Clone, PartialEq)]
pub struct Document {
    pub id: String,
    pub kind: Kind,
    pub title: String,
    pub authors: Option<String>,
    pub year: Option<i64>,
    pub publisher: Option<String>,
    pub edition: Option<String>,
    pub isbn: Option<String>,
    pub journal: Option<String>,
    pub volume: Option<String>,
    pub issue: Option<String>,
    pub pages: Option<String>,
    pub doi: Option<String>,
    pub ext: String,
    pub size: i64,
    pub content_hash: String,
    pub remote_path: String,
    pub cached_at: Option<String>,
    pub last_opened: Option<String>,
    pub added_at: String,
    pub extra: Option<String>,
}

} // verus!
