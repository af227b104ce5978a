use vstd::prelude::*;

use crate::application::dto::{
    summary_of, DocumentSummaryOutput, ListDocumentsFilter, ListDocumentsInput,
};
use crate::application::repositories::{ask, DocumentRepository, RepositoryError};
use crate::domain::entities::Document;
use super::UseCaseError;

verus! {

/// Listing entries for documents, in the same order.
pub fn summarize(docs: Vec<Document>) -> (r: Vec<DocumentSummaryOutput>)
    ensures
        r@ == docs@.map_values(|d: Document| summary_of(d)),
{
    let ghost orig = docs@;
    let mut docs = docs;
    let mut out: Vec<DocumentSummaryOutput> = Vec::new();
    let n = docs.len();
    let mut i: usize = 0;
    while i < n
        invariant
            n == orig.len(),
            i <= n,
            docs@ == orig.skip(i as int),
            out@ == orig.take(i as int).map_values(|d: Document| summary_of(d)),
        decreases n - i,
    {
        let d = docs.remove(0);
        assert(orig.skip(i as int).drop_first() =~= orig.skip(i as int + 1));
        out.push(DocumentSummaryOutput::from(d));
        assert(orig.take(i as int + 1).map_values(|d: Document| summary_of(d)) =~= orig.take(
            i as int,
        ).map_values(|d: Document| summary_of(d)).push(summary_of(orig[i as int])));
        i += 1;
    }
    assert(orig.take(n as int) =~= orig);
    out
}

/// What a listing reports for storage's answer: each document found as a
/// listing entry, in storage's order, or storage's refusal.
pub open spec fn listing_outcome(
    found: Result<Vec<Document>, RepositoryError>,
    r: Result<Vec<DocumentSummaryOutput>, UseCaseError>,
) -> bool {
    match found {
        Ok(docs) => r matches Ok(v) && v@ == docs@.map_values(|d: Document| summary_of(d)),
        Err(e) => r == Err::<Vec<DocumentSummaryOutput>, UseCaseError>(UseCaseError::Repository(e)),
    }
}

pub struct ListDocumentsUseCase<R: DocumentRepository> {
    repository: R,
}

impl<R: DocumentRepository> ListDocumentsUseCase<R> {
    pub closed spec fn repository(&self) -> R {
        self.repository
    }

    pub fn new(repository: R) -> (r: Self)
        ensures
            r.repository() == repository,
    {
        Self { repository }
    }

    /// Asks storage for the documents matching the input's criteria and
    /// reports each one as a listing entry, in storage's order.
    pub fn execute(&self, input: ListDocumentsInput) -> (r: Result<
        Vec<DocumentSummaryOutput>,
        UseCaseError,
    >)
        ensures
            exists|found: Result<Vec<Document>, RepositoryError>|
                call_ensures(
                    R::find_all_with_filter,
                    (
                        &self.repository(),
                        ListDocumentsFilter {
                            doc_types: input.doc_types,
                            tags: input.tags,
                            authors: input.authors,
                        },
                    ),
                    found,
                ) && listing_outcome(found, r),
    {
        let filter = ListDocumentsFilter::from(input);
        let ghost asked = filter;
        let found = ask(R::find_all_with_filter, &self.repository, filter);
        let ghost answer = found;
        assert(call_ensures(R::find_all_with_filter, (&self.repository(), asked), answer));
        let r = match found {
            Ok(documents) => Ok(summarize(documents)),
            Err(e) => Err(UseCaseError::Repository(e)),
        };
        assert(listing_outcome(answer, r));
        r
    }
}

} // verus!
