use vstd::prelude::*;

use crate::application::repositories::DocumentRepository;
use crate::application::use_cases::{
    CreateDocumentUseCase, DeleteDocumentUseCase, ListDocumentsUseCase, SearchDocumentsUseCase,
    UpdateDocumentUseCase,
};
use crate::cli::printer::CliPrinter;

verus! {

/// Everything the commands need, built around one repository.
pub struct CliDependencies<R: DocumentRepository + Clone> {
    pub create_document: CreateDocumentUseCase<R>,
    pub list_documents: ListDocumentsUseCase<R>,
    pub search_documents: SearchDocumentsUseCase<R>,
    pub update_document: UpdateDocumentUseCase<R>,
    pub delete_document: DeleteDocumentUseCase<R>,
    pub printer: CliPrinter,
}

impl<R: DocumentRepository + Clone> CliDependencies<R> {
    /// Every use case works on a clone of `repository`; deletion gets the
    /// original.
    pub fn new(repository: R, printer: CliPrinter) -> (r: Self)
        ensures
            cloned(repository, r.create_document.repository()),
            cloned(repository, r.list_documents.repository()),
            cloned(repository, r.search_documents.repository()),
            cloned(repository, r.update_document.repository()),
            r.delete_document.repository() == repository,
            r.printer == printer,
    {
        let create = repository.clone();
        let list = repository.clone();
        let search = repository.clone();
        let update = repository.clone();
        Self {
            create_document: CreateDocumentUseCase::new(create),
            list_documents: ListDocumentsUseCase::new(list),
            search_documents: SearchDocumentsUseCase::new(search),
            update_document: UpdateDocumentUseCase::new(update),
            delete_document: DeleteDocumentUseCase::new(repository),
            printer,
        }
    }
}

} // verus!
