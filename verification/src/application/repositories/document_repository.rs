use vstd::prelude::*;

use crate::application::dto::ListDocumentsFilter;
use crate::domain::entities::Document;

verus! {

/// Why a storage backend could not do what was asked.
#[derive(Debug, PartialEq)]
pub enum RepositoryError {
    NotFound(i64),
    Storage(String),
}

/// Where documents are kept. Implementations decide how; nothing is
/// promised of what they return.
pub trait DocumentRepository {
    fn create(&self, document: Document) -> Result<Document, RepositoryError>;

    fn find_by_id(&self, id: i64) -> Result<Document, RepositoryError>;

    fn find_all(&self) -> Result<Vec<Document>, RepositoryError>;

    fn find_all_with_filter(&self, filter: ListDocumentsFilter) -> Result<
        Vec<Document>,
        RepositoryError,
    >;

    fn search(&self, query: &str) -> Result<Vec<Document>, RepositoryError>;

    fn update(&self, document: Document) -> Result<Document, RepositoryError>;

    fn delete(&self, id: i64) -> Result<(), RepositoryError>;
}

/// Asks storage: calls one of a repository's methods on its argument and
/// hands back the answer, recorded as a possible answer of that method on
/// that argument.
pub(crate) fn ask<A, B, T, F: Fn(A, B) -> T>(method: F, a: A, b: B) -> (t: T)
    requires
        call_requires(method, (a, b)),
    ensures
        call_ensures(method, (a, b), t),
{
    method(a, b)
}

} // verus!
