use vstd::prelude::*;

use crate::domain::entities::{Document, DocumentType};

verus! {

/// Which documents to list. An absent or empty criterion does not filter.
pub struct ListDocumentsFilter {
    pub doc_types: Option<Vec<String>>,
    pub tags: Option<Vec<String>>,
    pub authors: Option<Vec<String>>,
}

impl ListDocumentsFilter {
    pub fn is_empty(&self) -> (r: bool)
        ensures
            r == (self.doc_types is None && self.tags is None && self.authors is None),
    {
        self.doc_types.is_none() && self.tags.is_none() && self.authors.is_none()
    }
}

pub struct ListDocumentsInput {
    pub doc_types: Option<Vec<String>>,
    pub tags: Option<Vec<String>>,
    pub authors: Option<Vec<String>>,
}

impl vstd::std_specs::convert::FromSpecImpl<ListDocumentsInput> for ListDocumentsFilter {
    open spec fn obeys_from_spec() -> bool {
        true
    }

    open spec fn from_spec(input: ListDocumentsInput) -> Self {
        ListDocumentsFilter { doc_types: input.doc_types, tags: input.tags, authors: input.authors }
    }
}

impl From<ListDocumentsInput> for ListDocumentsFilter {
    fn from(input: ListDocumentsInput) -> (r: Self) {
        Self { doc_types: input.doc_types, tags: input.tags, authors: input.authors }
    }
}

/// The kind-specific fields of a listed document.
pub enum DocumentMetadata {
    Book {
        authors: Option<Vec<String>>,
        edition: Option<String>,
        publisher: Option<String>,
        isbn: Option<String>,
    },
    Paper {
        authors: Option<Vec<String>>,
        journal: Option<String>,
        volume: Option<String>,
        issue: Option<String>,
        doi: Option<String>,
    },
    Lecture {
        event: Option<String>,
        institution: Option<String>,
        location: Option<String>,
        topic: Option<String>,
    },
    Notes,
}

/// A document as shown in a listing.
pub struct DocumentSummaryOutput {
    pub id: i64,
    pub title: String,
    pub doc_type: &'static str,
    pub year: Option<i32>,
    pub source: Option<String>,
    pub url: Option<String>,
    pub tags: Vec<String>,
    pub notes: Option<String>,
    pub created_at: String,
    pub updated_at: String,
    pub metadata: DocumentMetadata,
}

/// The metadata of a document's kind, field by field.
pub open spec fn metadata_of(t: DocumentType) -> DocumentMetadata {
    match t {
        DocumentType::Book(m) => DocumentMetadata::Book {
            authors: m.authors,
            edition: m.edition,
            publisher: m.publisher,
            isbn: m.isbn,
        },
        DocumentType::Paper(m) => DocumentMetadata::Paper {
            authors: m.authors,
            journal: m.journal,
            volume: m.volume,
            issue: m.issue,
            doi: m.doi,
        },
        DocumentType::Lecture(m) => DocumentMetadata::Lecture {
            event: m.event,
            institution: m.institution,
            location: m.location,
            topic: m.topic,
        },
        DocumentType::Notes(_) => DocumentMetadata::Notes,
    }
}

/// The listing entry for a document.
pub open spec fn summary_of(doc: Document) -> DocumentSummaryOutput {
    DocumentSummaryOutput {
        id: doc.id,
        title: doc.title,
        doc_type: doc.doc_type.name_str(),
        year: doc.year,
        source: doc.source,
        url: doc.url,
        tags: doc.tags,
        notes: doc.notes,
        created_at: doc.created_at,
        updated_at: doc.updated_at,
        metadata: metadata_of(doc.doc_type),
    }
}

impl vstd::std_specs::convert::FromSpecImpl<Document> for DocumentSummaryOutput {
    open spec fn obeys_from_spec() -> bool {
        true
    }

    open spec fn from_spec(doc: Document) -> Self {
        summary_of(doc)
    }
}

impl From<Document> for DocumentSummaryOutput {
    fn from(doc: Document) -> (r: Self) {
        let doc_type_str = doc.doc_type.as_str();
        let metadata = match doc.doc_type {
            DocumentType::Book(m) => DocumentMetadata::Book {
                authors: m.authors,
                edition: m.edition,
                publisher: m.publisher,
                isbn: m.isbn,
            },
            DocumentType::Paper(m) => DocumentMetadata::Paper {
                authors: m.authors,
                journal: m.journal,
                volume: m.volume,
                issue: m.issue,
                doi: m.doi,
            },
            DocumentType::Lecture(m) => DocumentMetadata::Lecture {
                event: m.event,
                institution: m.institution,
                location: m.location,
                topic: m.topic,
            },
            DocumentType::Notes(_) => DocumentMetadata::Notes,
        };
        Self {
            id: doc.id,
            title: doc.title,
            doc_type: doc_type_str,
            year: doc.year,
            source: doc.source,
            url: doc.url,
            tags: doc.tags,
            notes: doc.notes,
            created_at: doc.created_at,
            updated_at: doc.updated_at,
            metadata,
        }
    }
}

} // verus!
