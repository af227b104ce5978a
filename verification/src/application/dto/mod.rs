mod create_document;
mod delete_document;
mod list_documents;
mod search_documents;
mod update_document;

pub use create_document::{CreateDocumentInput, CreateDocumentOutput};
pub use delete_document::DeleteDocumentInput;
pub use list_documents::{
    summary_of, DocumentMetadata, DocumentSummaryOutput, ListDocumentsFilter, ListDocumentsInput,
};
pub use search_documents::SearchDocumentsInput;
pub use update_document::UpdateDocumentInput;
