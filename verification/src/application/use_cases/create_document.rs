use vstd::prelude::*;

use crate::application::dto::{CreateDocumentInput, CreateDocumentOutput};
use crate::application::repositories::{ask, DocumentRepository, RepositoryError};
use crate::application::utils::now_iso8601;
use crate::domain::entities::{fields_validation, validation, Document};
use crate::domain::errors::DomainError;

verus! {

/// Why a use case failed: the document broke a rule, or storage refused.
#[derive(Debug, PartialEq)]
pub enum UseCaseError {
    Domain(DomainError),
    Repository(RepositoryError),
}

/// The document a creation request describes, stamped with `timestamp` as
/// both creation and update time, if it passes validation. Its id is 0
/// until storage assigns one.
pub fn draft_document(input: CreateDocumentInput, timestamp: String) -> (r: Result<
    Document,
    DomainError,
>)
    ensures
        ({
            let d = Document {
                id: 0,
                title: input.title,
                doc_type: input.doc_type,
                year: input.year,
                source: input.source,
                url: input.url,
                tags: input.tags,
                notes: input.notes,
                created_at: timestamp,
                updated_at: timestamp,
            };
            match validation(d) {
                Ok(_) => r == Ok::<Document, DomainError>(d),
                Err(e) => r == Err::<Document, DomainError>(e),
            }
        }),
{
    Document::new(
        0,
        input.title,
        input.doc_type,
        input.year,
        input.source,
        input.url,
        input.tags,
        input.notes,
        timestamp.clone(),
        timestamp,
    )
}

/// The draft a creation request describes, stamped with `t`: id 0 and `t`
/// as both creation and update time.
pub open spec fn draft_of(input: CreateDocumentInput, t: String) -> Document {
    Document {
        id: 0,
        title: input.title,
        doc_type: input.doc_type,
        year: input.year,
        source: input.source,
        url: input.url,
        tags: input.tags,
        notes: input.notes,
        created_at: t,
        updated_at: t,
    }
}

/// What a creation reports for storage's answer: the created document as
/// output, or storage's refusal.
pub open spec fn creation_outcome(created: Result<Document, RepositoryError>) -> Result<
    CreateDocumentOutput,
    UseCaseError,
> {
    match created {
        Ok(d) => Ok(
            CreateDocumentOutput {
                id: d.id,
                title: d.title,
                doc_type: d.doc_type.name_str(),
                year: d.year,
                source: d.source,
                url: d.url,
                tags: d.tags,
                notes: d.notes,
                created_at: d.created_at,
                updated_at: d.updated_at,
            },
        ),
        Err(e) => Err(UseCaseError::Repository(e)),
    }
}

pub struct CreateDocumentUseCase<R: DocumentRepository> {
    repository: R,
}

impl<R: DocumentRepository> CreateDocumentUseCase<R> {
    pub closed spec fn repository(&self) -> R {
        self.repository
    }

    pub fn new(repository: R) -> (r: Self)
        ensures
            r.repository() == repository,
    {
        Self { repository }
    }

    /// Validates the input, stamps it with the current time and hands it to
    /// storage. Invalid input never reaches storage.
    pub fn execute(&self, input: CreateDocumentInput) -> (r: Result<
        CreateDocumentOutput,
        UseCaseError,
    >)
        ensures
            fields_validation(input.title, input.year, input.tags) matches Err(e) ==> r == Err::<
                CreateDocumentOutput,
                UseCaseError,
            >(UseCaseError::Domain(e)),
            fields_validation(input.title, input.year, input.tags) is Ok ==> exists|
                t: String,
                created: Result<Document, RepositoryError>,
            |
                t@.len() >= 25 && call_ensures(
                    R::create,
                    (&self.repository(), draft_of(input, t)),
                    created,
                ) && r == creation_outcome(created),
    {
        let ghost original = input;
        let timestamp = now_iso8601();
        let ghost stamp = timestamp;
        let document = match draft_document(input, timestamp) {
            Ok(d) => d,
            Err(e) => return Err(UseCaseError::Domain(e)),
        };
        assert(document == draft_of(original, stamp));
        let created = ask(R::create, &self.repository, document);
        let ghost answer = created;
        assert(call_ensures(R::create, (&self.repository(), draft_of(original, stamp)), answer));
        let r = match created {
            Ok(created) => Ok(CreateDocumentOutput::from(created)),
            Err(e) => Err(UseCaseError::Repository(e)),
        };
        assert(r == creation_outcome(answer));
        r
    }
}

} // verus!
