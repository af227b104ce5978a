mod document_repository;

pub(crate) use document_repository::ask;
pub use document_repository::{DocumentRepository, RepositoryError};
