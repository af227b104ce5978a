use vstd::prelude::*;

use crate::domain::entities::{Document, DocumentType};

verus! {

/// What a user supplies for a new document.
pub struct CreateDocumentInput {
    pub title: String,
    pub doc_type: DocumentType,
    pub year: Option<i32>,
    pub source: Option<String>,
    pub url: Option<String>,
    pub tags: Vec<String>,
    pub notes: Option<String>,
}

/// A stored document as reported back after creation; the kind is given by
/// its name.
pub struct CreateDocumentOutput {
    pub id: i64,
    pub title: String,
    pub doc_type: &'static str,
    pub year: Option<i32>,
    pub source: Option<String>,
    pub url: Option<String>,
    pub tags: Vec<String>,
    pub notes: Option<String>,
    pub created_at: String,
    pub updated_at: String,
}

impl vstd::std_specs::convert::FromSpecImpl<Document> for CreateDocumentOutput {
    open spec fn obeys_from_spec() -> bool {
        true
    }

    open spec fn from_spec(doc: Document) -> Self {
        CreateDocumentOutput {
            id: doc.id,
            title: doc.title,
            doc_type: doc.doc_type.name_str(),
            year: doc.year,
            source: doc.source,
            url: doc.url,
            tags: doc.tags,
            notes: doc.notes,
            created_at: doc.created_at,
            updated_at: doc.updated_at,
        }
    }
}

impl From<Document> for CreateDocumentOutput {
    fn from(doc: Document) -> (r: Self) {
        let doc_type = doc.doc_type.as_str();
        Self {
            id: doc.id,
            title: doc.title,
            doc_type,
            year: doc.year,
            source: doc.source,
            url: doc.url,
            tags: doc.tags,
            notes: doc.notes,
            created_at: doc.created_at,
            updated_at: doc.updated_at,
        }
    }
}

} // verus!
