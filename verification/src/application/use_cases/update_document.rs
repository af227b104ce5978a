use vstd::prelude::*;

use crate::application::dto::UpdateDocumentInput;
use crate::application::repositories::{ask, DocumentRepository, RepositoryError};
use crate::application::utils::now_iso8601;
use crate::domain::entities::{validation, Document};
use super::UseCaseError;

verus! {

/// The document with every field the input sets replaced, and its update
/// time set to `now`. Id and creation time never change.
pub open spec fn applied(doc: Document, input: UpdateDocumentInput, now: String) -> Document {
    Document {
        id: doc.id,
        title: if input.title is Some { input.title->0 } else { doc.title },
        doc_type: if input.doc_type is Some { input.doc_type->0 } else { doc.doc_type },
        year: if input.year is Some { input.year } else { doc.year },
        source: if input.source is Some { input.source } else { doc.source },
        url: if input.url is Some { input.url } else { doc.url },
        tags: if input.tags is Some { input.tags->0 } else { doc.tags },
        notes: if input.notes is Some { input.notes } else { doc.notes },
        created_at: doc.created_at,
        updated_at: now,
    }
}

/// An update never touches what it does not set: with no field set, only
/// the update time changes.
pub proof fn lemma_empty_update_changes_only_the_time(doc: Document, id: i64, now: String)
    ensures
        applied(
            doc,
            UpdateDocumentInput {
                id,
                title: None,
                doc_type: None,
                year: None,
                source: None,
                url: None,
                tags: None,
                notes: None,
            },
            now,
        ) == (Document { updated_at: now, ..doc }),
{
}

/// Applying the same update twice is applying it once, at the later time.
pub proof fn lemma_update_is_idempotent(doc: Document, input: UpdateDocumentInput, first: String, second: String)
    ensures
        applied(applied(doc, input, first), input, second) == applied(doc, input, second),
{
}

pub fn apply_update(document: Document, input: UpdateDocumentInput, now: String) -> (r: Document)
    ensures
        r == applied(document, input, now),
{
    let mut document = document;
    if let Some(title) = input.title {
        document.title = title;
    }
    if let Some(doc_type) = input.doc_type {
        document.doc_type = doc_type;
    }
    if let Some(year) = input.year {
        document.year = Some(year);
    }
    if let Some(source) = input.source {
        document.source = Some(source);
    }
    if let Some(url) = input.url {
        document.url = Some(url);
    }
    if let Some(tags) = input.tags {
        document.tags = tags;
    }
    if let Some(notes) = input.notes {
        document.notes = Some(notes);
    }
    document.updated_at = now;
    document
}

/// What an update does with the document storage found: storage's
/// refusal, the rule the edited document breaks, or the edited document to
/// store.
pub open spec fn update_plan(
    found: Result<Document, RepositoryError>,
    input: UpdateDocumentInput,
    now: String,
) -> Result<Document, UseCaseError> {
    match found {
        Err(e) => Err(UseCaseError::Repository(e)),
        Ok(doc) => match validation(applied(doc, input, now)) {
            Ok(_) => Ok(applied(doc, input, now)),
            Err(e) => Err(UseCaseError::Domain(e)),
        },
    }
}

/// What an update reports for storage's answer to storing the edit.
pub open spec fn stored_outcome(stored: Result<Document, RepositoryError>) -> Result<
    Document,
    UseCaseError,
> {
    match stored {
        Ok(d) => Ok(d),
        Err(e) => Err(UseCaseError::Repository(e)),
    }
}

/// What to store after looking a document up: storage's refusal, the
/// rule the edited document breaks, or the edited document.
pub fn updated_document(
    found: Result<Document, RepositoryError>,
    input: UpdateDocumentInput,
    now: String,
) -> (r: Result<Document, UseCaseError>)
    ensures
        match found {
            Err(e) => r == Err::<Document, UseCaseError>(UseCaseError::Repository(e)),
            Ok(doc) => match validation(applied(doc, input, now)) {
                Ok(_) => r == Ok::<Document, UseCaseError>(applied(doc, input, now)),
                Err(e) => r == Err::<Document, UseCaseError>(UseCaseError::Domain(e)),
            },
        },
{
    let document = match found {
        Ok(d) => d,
        Err(e) => return Err(UseCaseError::Repository(e)),
    };
    let document = apply_update(document, input, now);
    match document.validate() {
        Ok(()) => Ok(document),
        Err(e) => Err(UseCaseError::Domain(e)),
    }
}

pub struct UpdateDocumentUseCase<R: DocumentRepository> {
    repository: R,
}

impl<R: DocumentRepository> UpdateDocumentUseCase<R> {
    pub closed spec fn repository(&self) -> R {
        self.repository
    }

    pub fn new(repository: R) -> (r: Self)
        ensures
            r.repository() == repository,
    {
        Self { repository }
    }

    /// Looks the document up, applies the changes, stamps the update time,
    /// validates, and stores the result. An edit that breaks a rule is
    /// never stored.
    pub fn execute(&self, input: UpdateDocumentInput) -> (r: Result<Document, UseCaseError>)
        ensures
            exists|found: Result<Document, RepositoryError>, now: String|
                {
                    &&& call_ensures(R::find_by_id, (&self.repository(), input.id), found)
                    &&& now@.len() >= 25
                    &&& match update_plan(found, input, now) {
                        Err(e) => r == Err::<Document, UseCaseError>(e),
                        Ok(doc) => exists|stored: Result<Document, RepositoryError>|
                            call_ensures(R::update, (&self.repository(), doc), stored) && r
                                == stored_outcome(stored),
                    }
                },
    {
        let ghost original = input;
        let found = ask(R::find_by_id, &self.repository, input.id);
        let ghost looked_up = found;
        assert(call_ensures(R::find_by_id, (&self.repository(), original.id), looked_up));
        let now = now_iso8601();
        let ghost stamp = now;
        let planned = updated_document(found, input, now);
        assert(planned == update_plan(looked_up, original, stamp));
        let document = match planned {
            Ok(d) => d,
            Err(e) => return Err(e),
        };
        let ghost edited = document;
        let stored = ask(R::update, &self.repository, document);
        let ghost answer = stored;
        assert(call_ensures(R::update, (&self.repository(), edited), answer));
        let r = match stored {
            Ok(updated) => Ok(updated),
            Err(e) => Err(UseCaseError::Repository(e)),
        };
        assert(r == stored_outcome(answer));
        r
    }
}

} // verus!
