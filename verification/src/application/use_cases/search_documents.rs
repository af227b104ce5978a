use vstd::prelude::*;

use crate::application::dto::{summary_of, DocumentSummaryOutput, SearchDocumentsInput};
use crate::application::repositories::{ask, DocumentRepository, RepositoryError};
use crate::domain::entities::Document;
use crate::order::{entry_lt, is_permutation, lex_le, stable_sort_by_key};
use crate::text::{chars_of, lowercase, to_lowercase};
use super::UseCaseError;

verus! {

/// What search results are ordered by: the lower-cased title.
pub open spec fn title_key(d: Document) -> Seq<char> {
    lowercase(d.title@)
}

/// `out` holds the documents of `docs` ordered by lower-cased title, with
/// documents whose keys tie left in the order they came in.
pub open spec fn sorted_by_title(docs: Seq<Document>, out: Seq<Document>) -> bool {
    exists|p: Seq<int>|
        {
            &&& is_permutation(p, docs.len() as int)
            &&& out.len() == docs.len()
            &&& forall|k: int| 0 <= k < out.len() ==> #[trigger] out[k] == docs[p[k]]
            &&& forall|i: int, j: int|
                0 <= i < j < out.len() ==> entry_lt(
                    (title_key(#[trigger] out[i]), p[i]),
                    (title_key(#[trigger] out[j]), p[j]),
                )
        }
}

/// Listing entries for documents, ordered by lower-cased title.
pub fn sorted_summaries(docs: Vec<Document>) -> (r: Vec<DocumentSummaryOutput>)
    ensures
        exists|sorted: Seq<Document>|
            sorted_by_title(docs@, sorted) && r@ == sorted.map_values(|d: Document| summary_of(d)),
{
    let ghost orig = docs@;
    let n = docs.len();
    let mut docs = docs;
    let mut keyed: Vec<(Vec<char>, Document)> = Vec::new();
    let mut i: usize = 0;
    while i < n
        invariant
            n == orig.len(),
            i <= n,
            docs@ == orig.skip(i as int),
            keyed@.len() == i,
            forall|k: int|
                0 <= k < i ==> (#[trigger] keyed@[k]).1 == orig[k] && keyed@[k].0@ == title_key(
                    orig[k],
                ),
        decreases n - i,
    {
        let d = docs.remove(0);
        assert(orig.skip(i as int).drop_first() =~= orig.skip(i as int + 1));
        let lower = to_lowercase(d.title.as_str());
        let key = chars_of(lower.as_str());
        keyed.push((key, d));
        i += 1;
    }
    let ghost keyed_view = keyed@;
    let sorted = stable_sort_by_key(keyed);
    let ghost p = choose|p: Seq<int>|
        {
            &&& is_permutation(p, keyed_view.len() as int)
            &&& sorted@.len() == keyed_view.len()
            &&& forall|k: int| 0 <= k < sorted@.len() ==> #[trigger] sorted@[k] == keyed_view[p[k]]
            &&& forall|a: int, b: int|
                0 <= a < b < sorted@.len() ==> entry_lt(
                    (#[trigger] sorted@[a].0@, p[a]),
                    (#[trigger] sorted@[b].0@, p[b]),
                )
        };
    let ghost sorted_docs = Seq::new(n as nat, |k: int| orig[p[k]]);
    assert(sorted_by_title(orig, sorted_docs)) by {
        assert forall|a: int, b: int| 0 <= a < b < sorted_docs.len() implies entry_lt(
            (title_key(#[trigger] sorted_docs[a]), p[a]),
            (title_key(#[trigger] sorted_docs[b]), p[b]),
        ) by {
            assert(sorted@[a] == keyed_view[p[a]]);
            assert(sorted@[b] == keyed_view[p[b]]);
        }
    }
    let ghost sv = sorted@;
    let mut sorted = sorted;
    let mut out: Vec<DocumentSummaryOutput> = Vec::new();
    let mut j: usize = 0;
    while j < n
        invariant
            j <= n,
            sv.len() == n,
            sorted_docs.len() == n,
            sorted@ == sv.skip(j as int),
            forall|k: int| 0 <= k < n ==> #[trigger] sv[k].1 == sorted_docs[k],
            out@ == sorted_docs.take(j as int).map_values(|d: Document| summary_of(d)),
        decreases n - j,
    {
        let entry = sorted.remove(0);
        assert(sv.skip(j as int).drop_first() =~= sv.skip(j as int + 1));
        assert(entry == sv[j as int]);
        out.push(DocumentSummaryOutput::from(entry.1));
        assert(sorted_docs.take(j as int + 1).map_values(|d: Document| summary_of(d))
            =~= sorted_docs.take(j as int).map_values(|d: Document| summary_of(d)).push(
            summary_of(sorted_docs[j as int]),
        ));
        j += 1;
    }
    assert(sorted_docs.take(n as int) =~= sorted_docs);
    out
}

/// What a search reports for storage's answer: the documents found,
/// ordered by lower-cased title, as listing entries, or storage's refusal.
pub open spec fn search_outcome(
    found: Result<Vec<Document>, RepositoryError>,
    r: Result<Vec<DocumentSummaryOutput>, UseCaseError>,
) -> bool {
    match found {
        Ok(docs) => r matches Ok(v) && exists|sorted: Seq<Document>|
            sorted_by_title(docs@, sorted) && v@ == sorted.map_values(|d: Document| summary_of(d)),
        Err(e) => r == Err::<Vec<DocumentSummaryOutput>, UseCaseError>(UseCaseError::Repository(e)),
    }
}

pub struct SearchDocumentsUseCase<R: DocumentRepository> {
    repository: R,
}

impl<R: DocumentRepository> SearchDocumentsUseCase<R> {
    pub closed spec fn repository(&self) -> R {
        self.repository
    }

    pub fn new(repository: R) -> (r: Self)
        ensures
            r.repository() == repository,
    {
        Self { repository }
    }

    /// Asks storage for the documents matching the query and reports them
    /// ordered by title, ignoring case.
    pub fn execute(&self, input: SearchDocumentsInput) -> (r: Result<
        Vec<DocumentSummaryOutput>,
        UseCaseError,
    >)
        ensures
            exists|query: &str, found: Result<Vec<Document>, RepositoryError>|
                query@ == input.query@ && call_ensures(
                    R::search,
                    (&self.repository(), query),
                    found,
                ) && search_outcome(found, r),
            r matches Ok(v) ==> forall|i: int, j: int|
                0 <= i < j < v@.len() ==> lex_le(
                    lowercase((#[trigger] v@[i]).title@),
                    lowercase((#[trigger] v@[j]).title@),
                ),
    {
        let query = input.query.as_str();
        let answer = ask(R::search, &self.repository, query);
        let ghost asked = answer;
        assert(call_ensures(R::search, (&self.repository(), query), asked));
        match answer {
            Ok(documents) => {
                let ghost found = documents@;
                let out = sorted_summaries(documents);
                assert(search_outcome(asked, Ok::<Vec<DocumentSummaryOutput>, UseCaseError>(out)));
                proof {
                    let sorted = choose|sorted: Seq<Document>|
                        sorted_by_title(found, sorted) && out@ == sorted.map_values(
                            |d: Document| summary_of(d),
                        );
                    assert forall|i: int, j: int| 0 <= i < j < out@.len() implies lex_le(
                        lowercase((#[trigger] out@[i]).title@),
                        lowercase((#[trigger] out@[j]).title@),
                    ) by {
                        assert(out@[i] == summary_of(sorted[i]));
                        assert(out@[j] == summary_of(sorted[j]));
                        let p = choose|p: Seq<int>|
                            {
                                &&& is_permutation(p, found.len() as int)
                                &&& sorted.len() == found.len()
                                &&& forall|k: int| 0 <= k < sorted.len() ==> #[trigger] sorted[k] == found[p[k]]
                                &&& forall|a: int, b: int|
                                    0 <= a < b < sorted.len() ==> entry_lt(
                                        (title_key(#[trigger] sorted[a]), p[a]),
                                        (title_key(#[trigger] sorted[b]), p[b]),
                                    )
                            };
                        assert(entry_lt((title_key(sorted[i]), p[i]), (title_key(sorted[j]), p[j])));
                    }
                }
                Ok(out)
            },
            Err(e) => {
                assert(search_outcome(
                    asked,
                    Err::<Vec<DocumentSummaryOutput>, UseCaseError>(UseCaseError::Repository(e)),
                ));
                Err(UseCaseError::Repository(e))
            },
        }
    }
}

} // verus!
