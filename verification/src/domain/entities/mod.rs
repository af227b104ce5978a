mod document;
pub mod document_type;
mod metadata;

pub use document::{
    fields_validation, first_tag_problem, tag_problem, validation, Document, MAX_TAGS, MAX_TAG_LENGTH, MAX_YEAR,
    MIN_YEAR,
};
pub use document_type::{BookMetadata, DocumentType, LectureMetadata, NotesMetadata, PaperMetadata};
pub use metadata::Metadata;
