mod create_document;
mod delete_document;
mod list_documents;
mod search_documents;
mod update_document;

pub use create_document::{draft_document, CreateDocumentUseCase, UseCaseError};
pub use delete_document::DeleteDocumentUseCase;
pub use list_documents::{summarize, ListDocumentsUseCase};
pub use search_documents::{sorted_by_title, sorted_summaries, title_key, SearchDocumentsUseCase};
pub use update_document::{apply_update, updated_document, UpdateDocumentUseCase};
