use vstd::prelude::*;

verus! {

/// The kind of a catalogued document, carrying the metadata fields that only
/// make sense for that kind.
#[derive(Debug, Clone, PartialEq)]
pub enum DocumentType {
    Book(BookMetadata),
    Paper(PaperMetadata),
    Lecture(LectureMetadata),
    Notes(NotesMetadata),
}

#[derive(Debug, Clone, PartialEq, Default)]
pub struct BookMetadata {
    pub authors: Option<Vec<String>>,
    pub edition: Option<String>,
    pub publisher: Option<String>,
    pub isbn: Option<String>,
}

#[derive(Debug, Clone, PartialEq, Default)]
pub struct PaperMetadata {
    pub authors: Option<Vec<String>>,
    pub journal: Option<String>,
    pub volume: Option<String>,
    pub issue: Option<String>,
    pub doi: Option<String>,
}

#[derive(Debug, Clone, PartialEq, Default)]
pub struct LectureMetadata {
    pub event: Option<String>,
    pub institution: Option<String>,
    pub location: Option<String>,
    pub topic: Option<String>,
}

#[derive(Debug, Clone, PartialEq, Default)]
pub struct NotesMetadata {}

/// The views of a list of string slices.
pub open spec fn str_views(s: Seq<&str>) -> Seq<Seq<char>> {
    s.map_values(|x: &str| x@)
}

pub open spec fn book_keys() -> Seq<Seq<char>> {
    seq!["authors"@, "edition"@, "publisher"@, "isbn"@]
}

pub open spec fn paper_keys() -> Seq<Seq<char>> {
    seq!["authors"@, "journal"@, "volume"@, "issue"@, "doi"@]
}

pub open spec fn lecture_keys() -> Seq<Seq<char>> {
    seq!["event"@, "institution"@, "location"@, "topic"@]
}

impl BookMetadata {
    pub fn keys() -> (r: &'static [&'static str])
        ensures
            str_views(r@) == book_keys(),
    {
        let r: &'static [&'static str] = &["authors", "edition", "publisher", "isbn"];
        assert(str_views(r@) =~= book_keys());
        r
    }
}

impl PaperMetadata {
    pub fn keys() -> (r: &'static [&'static str])
        ensures
            str_views(r@) == paper_keys(),
    {
        let r: &'static [&'static str] = &["authors", "journal", "volume", "issue", "doi"];
        assert(str_views(r@) =~= paper_keys());
        r
    }
}

impl LectureMetadata {
    pub fn keys() -> (r: &'static [&'static str])
        ensures
            str_views(r@) == lecture_keys(),
    {
        let r: &'static [&'static str] = &["event", "institution", "location", "topic"];
        assert(str_views(r@) =~= lecture_keys());
        r
    }
}

impl NotesMetadata {
    pub fn keys() -> (r: &'static [&'static str])
        ensures
            r@.len() == 0,
    {
        let r: &'static [&'static str] = &[];
        r
    }
}

impl DocumentType {
    /// The lower-case name of the kind.
    pub open spec fn name(self) -> Seq<char> {
        match self {
            DocumentType::Book(_) => "book"@,
            DocumentType::Paper(_) => "paper"@,
            DocumentType::Lecture(_) => "lecture"@,
            DocumentType::Notes(_) => "notes"@,
        }
    }

    /// The metadata keys that belong to the kind.
    pub open spec fn key_names(self) -> Seq<Seq<char>> {
        match self {
            DocumentType::Book(_) => book_keys(),
            DocumentType::Paper(_) => paper_keys(),
            DocumentType::Lecture(_) => lecture_keys(),
            DocumentType::Notes(_) => Seq::empty(),
        }
    }

    /// The name as the literal that `as_str` returns.
    pub open spec fn name_str(self) -> &'static str {
        match self {
            DocumentType::Book(_) => "book",
            DocumentType::Paper(_) => "paper",
            DocumentType::Lecture(_) => "lecture",
            DocumentType::Notes(_) => "notes",
        }
    }

    pub fn as_str(&self) -> (r: &'static str)
        ensures
            r == self.name_str(),
            r@ == self.name(),
    {
        match self {
            DocumentType::Book(_) => "book",
            DocumentType::Paper(_) => "paper",
            DocumentType::Lecture(_) => "lecture",
            DocumentType::Notes(_) => "notes",
        }
    }

    pub fn metadata_keys(&self) -> (r: &'static [&'static str])
        ensures
            str_views(r@) == self.key_names(),
    {
        match self {
            DocumentType::Book(_) => BookMetadata::keys(),
            DocumentType::Paper(_) => PaperMetadata::keys(),
            DocumentType::Lecture(_) => LectureMetadata::keys(),
            DocumentType::Notes(_) => {
                let r = NotesMetadata::keys();
                assert(str_views(r@) =~= Seq::<Seq<char>>::empty());
                r
            },
        }
    }
}

} // verus!
