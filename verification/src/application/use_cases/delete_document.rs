use vstd::prelude::*;

use crate::application::dto::DeleteDocumentInput;
use crate::application::repositories::{ask, DocumentRepository, RepositoryError};
use super::UseCaseError;

verus! {

pub struct DeleteDocumentUseCase<R: DocumentRepository> {
    repository: R,
}

/// What a deletion reports for storage's answer.
pub open spec fn deletion_outcome(res: Result<(), RepositoryError>) -> Result<(), UseCaseError> {
    match res {
        Ok(()) => Ok(()),
        Err(e) => Err(UseCaseError::Repository(e)),
    }
}

impl<R: DocumentRepository> DeleteDocumentUseCase<R> {
    pub closed spec fn repository(&self) -> R {
        self.repository
    }

    pub fn new(repository: R) -> (r: Self)
        ensures
            r.repository() == repository,
    {
        Self { repository }
    }

    /// Removes the document from storage; a refusal is reported as a
    /// storage error. What is reported is storage's answer to deleting
    /// `input.id`.
    pub fn execute(&self, input: DeleteDocumentInput) -> (r: Result<(), UseCaseError>)
        ensures
            exists|res: Result<(), RepositoryError>|
                call_ensures(R::delete, (&self.repository(), input.id), res) && r
                    == deletion_outcome(res),
    {
        let res = ask(R::delete, &self.repository, input.id);
        let ghost answer = res;
        assert(call_ensures(R::delete, (&self.repository(), input.id), answer));
        let r = match res {
            Ok(()) => Ok(()),
            Err(e) => Err(UseCaseError::Repository(e)),
        };
        assert(r == deletion_outcome(answer));
        r
    }
}

} // verus!
