use doclib::application::dto::DeleteDocumentInput;
use doclib::application::use_cases::DeleteDocumentUseCase;
use std::sync::Mutex;

use doclib::application::dto::ListDocumentsFilter;
use doclib::application::repositories::{DocumentRepository, RepositoryError};
use doclib::domain::entities::{Document, DocumentType, NotesMetadata};

struct MockRepository {
    documents: Mutex<Vec<Document>>,
    next_id: Mutex<i64>,
}

impl MockRepository {
    fn new() -> Self {
        Self {
            documents: Mutex::new(Vec::new()),
            next_id: Mutex::new(1),
        }
    }

    #[allow(dead_code)]
    fn with_documents(docs: Vec<Document>) -> Self {
        let max_id = docs.iter().map(|d| d.id).max().unwrap_or(0);
        Self {
            documents: Mutex::new(docs),
            next_id: Mutex::new(max_id + 1),
        }
    }

    #[allow(dead_code)]
    fn add_document(&self, doc: Document) {
        let mut docs = self.documents.lock().unwrap();
        let id = docs.len() as i64 + 1;
        let mut d = doc;
        d.id = id;
        docs.push(d);
    }

    #[allow(dead_code)]
    fn add_test_doc(&self, title: &str) -> i64 {
        let doc = Document::new(
            0,
            title.to_string(),
            DocumentType::Notes(NotesMetadata {}),
            Some(2023),
            Some("Original Source".to_string()),
            Some("https://original.com".to_string()),
            vec!["original-tag".to_string()],
            Some("Original notes".to_string()),
            "2024-01-15T10:00:00Z".to_string(),
            "2024-01-15T10:00:00Z".to_string(),
        )
        .unwrap();

        let id = *self.next_id.lock().unwrap();
        let mut d = doc;
        d.id = id;
        self.documents.lock().unwrap().push(d);
        *self.next_id.lock().unwrap() += 1;
        id
    }
}

fn author_matches(doc_authors: &Option<Vec<String>>, authors: &[String]) -> bool {
    match doc_authors {
        Some(doc_authors) => doc_authors.iter().any(|a| {
            authors
                .iter()
                .any(|f| a.to_lowercase().contains(&f.to_lowercase()))
        }),
        None => false,
    }
}

impl DocumentRepository for MockRepository {
    fn create(&self, mut document: Document) -> Result<Document, RepositoryError> {
        let id = *self.next_id.lock().unwrap();
        *self.next_id.lock().unwrap() += 1;
        document.id = id;
        self.documents.lock().unwrap().push(document.clone());
        Ok(document)
    }

    fn find_by_id(&self, id: i64) -> Result<Document, RepositoryError> {
        self.documents
            .lock()
            .unwrap()
            .iter()
            .find(|d| d.id == id)
            .cloned()
            .ok_or(RepositoryError::NotFound(id))
    }

    fn find_all(&self) -> Result<Vec<Document>, RepositoryError> {
        Ok(self.documents.lock().unwrap().clone())
    }

    fn find_all_with_filter(&self, filter: ListDocumentsFilter) -> Result<Vec<Document>, RepositoryError> {
        let docs = self.documents.lock().unwrap();
        let mut results: Vec<Document> = docs.clone();
        if let Some(doc_types) = &filter.doc_types {
            if !doc_types.is_empty() {
                results.retain(|doc| doc_types.contains(&doc.doc_type.as_str().to_string()));
            }
        }
        if let Some(tags) = &filter.tags {
            if !tags.is_empty() {
                results.retain(|doc| doc.tags.iter().any(|t| tags.contains(t)));
            }
        }
        if let Some(authors) = &filter.authors {
            if !authors.is_empty() {
                results.retain(|doc| match &doc.doc_type {
                    DocumentType::Book(m) => author_matches(&m.authors, authors),
                    DocumentType::Paper(m) => author_matches(&m.authors, authors),
                    _ => false,
                });
            }
        }
        Ok(results)
    }

    fn search(&self, query: &str) -> Result<Vec<Document>, RepositoryError> {
        let docs = self.documents.lock().unwrap();
        let query_lower = query.to_lowercase();
        Ok(docs
            .iter()
            .filter(|d| d.title.to_lowercase().contains(&query_lower))
            .cloned()
            .collect())
    }

    fn update(&self, document: Document) -> Result<Document, RepositoryError> {
        let mut docs = self.documents.lock().unwrap();
        if let Some(idx) = docs.iter().position(|d| d.id == document.id) {
            docs[idx] = document.clone();
            Ok(document)
        } else {
            Err(RepositoryError::NotFound(document.id))
        }
    }

    fn delete(&self, id: i64) -> Result<(), RepositoryError> {
        let mut docs = self.documents.lock().unwrap();
        if let Some(idx) = docs.iter().position(|d| d.id == id) {
            docs.remove(idx);
            Ok(())
        } else {
            Err(RepositoryError::NotFound(id))
        }
    }
}

impl Clone for MockRepository {
    fn clone(&self) -> Self {
        Self::with_documents(self.documents.lock().unwrap().clone())
    }
}

#[test]
fn test_delete_existing() {
    let repo = MockRepository::new();
    let doc_id = repo.add_test_doc("Test Document");

    let use_case = DeleteDocumentUseCase::new(repo);
    let input = DeleteDocumentInput { id: doc_id };

    let result = use_case.execute(input);

    assert!(result.is_ok());
}

#[test]
fn test_delete_nonexistent() {
    let repo = MockRepository::new();
    repo.add_test_doc("Test Document");

    let use_case = DeleteDocumentUseCase::new(repo);
    let input = DeleteDocumentInput { id: 999 };

    let result = use_case.execute(input);

    assert!(result.is_err());
}
