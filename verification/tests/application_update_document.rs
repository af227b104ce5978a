use doclib::application::dto::UpdateDocumentInput;
use doclib::application::use_cases::{apply_update, updated_document, UpdateDocumentUseCase, UseCaseError};
use doclib::domain::errors::DomainError;
use std::sync::Mutex;

use doclib::application::dto::ListDocumentsFilter;
use doclib::application::repositories::{DocumentRepository, RepositoryError};
use doclib::domain::entities::{Document, DocumentType, NotesMetadata};

struct MockRepository {
    documents: Mutex<Vec<Document>>,
    next_id: Mutex<i64>,
}

impl MockRepository {
    fn new() -> Self {
        Self {
            documents: Mutex::new(Vec::new()),
            next_id: Mutex::new(1),
        }
    }

    #[allow(dead_code)]
    fn with_documents(docs: Vec<Document>) -> Self {
        let max_id = docs.iter().map(|d| d.id).max().unwrap_or(0);
        Self {
            documents: Mutex::new(docs),
            next_id: Mutex::new(max_id + 1),
        }
    }

    #[allow(dead_code)]
    fn add_document(&self, doc: Document) {
        let mut docs = self.documents.lock().unwrap();
        let id = docs.len() as i64 + 1;
        let mut d = doc;
        d.id = id;
        docs.push(d);
    }

    #[allow(dead_code)]
    fn add_test_doc(&self, title: &str) -> i64 {
        let doc = Document::new(
            0,
            title.to_string(),
            DocumentType::Notes(NotesMetadata {}),
            Some(2023),
            Some("Original Source".to_string()),
            Some("https://original.com".to_string()),
            vec!["original-tag".to_string()],
            Some("Original notes".to_string()),
            "2024-01-15T10:00:00Z".to_string(),
            "2024-01-15T10:00:00Z".to_string(),
        )
        .unwrap();

        let id = *self.next_id.lock().unwrap();
        let mut d = doc;
        d.id = id;
        self.documents.lock().unwrap().push(d);
        *self.next_id.lock().unwrap() += 1;
        id
    }
}

fn author_matches(doc_authors: &Option<Vec<String>>, authors: &[String]) -> bool {
    match doc_authors {
        Some(doc_authors) => doc_authors.iter().any(|a| {
            authors
                .iter()
                .any(|f| a.to_lowercase().contains(&f.to_lowercase()))
        }),
        None => false,
    }
}

impl DocumentRepository for MockRepository {
    fn create(&self, mut document: Document) -> Result<Document, RepositoryError> {
        let id = *self.next_id.lock().unwrap();
        *self.next_id.lock().unwrap() += 1;
        document.id = id;
        self.documents.lock().unwrap().push(document.clone());
        Ok(document)
    }

    fn find_by_id(&self, id: i64) -> Result<Document, RepositoryError> {
        self.documents
            .lock()
            .unwrap()
            .iter()
            .find(|d| d.id == id)
            .cloned()
            .ok_or(RepositoryError::NotFound(id))
    }

    fn find_all(&self) -> Result<Vec<Document>, RepositoryError> {
        Ok(self.documents.lock().unwrap().clone())
    }

    fn find_all_with_filter(&self, filter: ListDocumentsFilter) -> Result<Vec<Document>, RepositoryError> {
        let docs = self.documents.lock().unwrap();
        let mut results: Vec<Document> = docs.clone();
        if let Some(doc_types) = &filter.doc_types {
            if !doc_types.is_empty() {
                results.retain(|doc| doc_types.contains(&doc.doc_type.as_str().to_string()));
            }
        }
        if let Some(tags) = &filter.tags {
            if !tags.is_empty() {
                results.retain(|doc| doc.tags.iter().any(|t| tags.contains(t)));
            }
        }
        if let Some(authors) = &filter.authors {
            if !authors.is_empty() {
                results.retain(|doc| match &doc.doc_type {
                    DocumentType::Book(m) => author_matches(&m.authors, authors),
                    DocumentType::Paper(m) => author_matches(&m.authors, authors),
                    _ => false,
                });
            }
        }
        Ok(results)
    }

    fn search(&self, query: &str) -> Result<Vec<Document>, RepositoryError> {
        let docs = self.documents.lock().unwrap();
        let query_lower = query.to_lowercase();
        Ok(docs
            .iter()
            .filter(|d| d.title.to_lowercase().contains(&query_lower))
            .cloned()
            .collect())
    }

    fn update(&self, document: Document) -> Result<Document, RepositoryError> {
        let mut docs = self.documents.lock().unwrap();
        if let Some(idx) = docs.iter().position(|d| d.id == document.id) {
            docs[idx] = document.clone();
            Ok(document)
        } else {
            Err(RepositoryError::NotFound(document.id))
        }
    }

    fn delete(&self, id: i64) -> Result<(), RepositoryError> {
        let mut docs = self.documents.lock().unwrap();
        if let Some(idx) = docs.iter().position(|d| d.id == id) {
            docs.remove(idx);
            Ok(())
        } else {
            Err(RepositoryError::NotFound(id))
        }
    }
}

impl Clone for MockRepository {
    fn clone(&self) -> Self {
        Self::with_documents(self.documents.lock().unwrap().clone())
    }
}

#[test]
fn test_update_title() {
    let repo = MockRepository::new();
    let doc_id = repo.add_test_doc("Original Title");

    let use_case = UpdateDocumentUseCase::new(repo);
    let input = UpdateDocumentInput {
        id: doc_id,
        title: Some("New Title".to_string()),
        doc_type: None,
        year: None,
        source: None,
        url: None,
        tags: None,
        notes: None,
    };

    let result = use_case.execute(input);

    assert!(result.is_ok());
    assert_eq!(result.unwrap().title, "New Title");
}

#[test]
fn test_update_year() {
    let repo = MockRepository::new();
    let doc_id = repo.add_test_doc("Original Title");

    let use_case = UpdateDocumentUseCase::new(repo);
    let input = UpdateDocumentInput {
        id: doc_id,
        title: None,
        doc_type: None,
        year: Some(2024),
        source: None,
        url: None,
        tags: None,
        notes: None,
    };

    let result = use_case.execute(input);

    assert!(result.is_ok());
    assert_eq!(result.unwrap().year, Some(2024));
}

#[test]
fn test_update_tags() {
    let repo = MockRepository::new();
    let doc_id = repo.add_test_doc("Original Title");

    let use_case = UpdateDocumentUseCase::new(repo);
    let input = UpdateDocumentInput {
        id: doc_id,
        title: None,
        doc_type: None,
        year: None,
        source: None,
        url: None,
        tags: Some(vec!["new-tag".to_string(), "rust".to_string()]),
        notes: None,
    };

    let result = use_case.execute(input);

    assert!(result.is_ok());
    assert_eq!(result.unwrap().tags, vec!["new-tag", "rust"]);
}

#[test]
fn test_preserve_unmodified_fields() {
    let repo = MockRepository::new();
    let doc_id = repo.add_test_doc("Original Title");

    let use_case = UpdateDocumentUseCase::new(repo);
    let input = UpdateDocumentInput {
        id: doc_id,
        title: Some("New Title".to_string()),
        doc_type: None,
        year: None,
        source: None,
        url: None,
        tags: None,
        notes: None,
    };

    let result = use_case.execute(input);

    assert!(result.is_ok());
    let updated = result.unwrap();

    assert_eq!(updated.year, Some(2023));
    assert_eq!(updated.source, Some("Original Source".to_string()));
    assert_eq!(updated.url, Some("https://original.com".to_string()));
    assert_eq!(updated.tags, vec!["original-tag"]);
    assert_eq!(updated.notes, Some("Original notes".to_string()));
}

#[test]
fn test_update_nonexistent_document() {
    let repo = MockRepository::new();
    repo.add_test_doc("Original Title");

    let use_case = UpdateDocumentUseCase::new(repo);
    let input = UpdateDocumentInput {
        id: 999,
        title: Some("New Title".to_string()),
        doc_type: None,
        year: None,
        source: None,
        url: None,
        tags: None,
        notes: None,
    };

    let result = use_case.execute(input);

    assert!(result.is_err());
}

#[test]
fn test_update_empty_title() {
    let repo = MockRepository::new();
    let doc_id = repo.add_test_doc("Original Title");

    let use_case = UpdateDocumentUseCase::new(repo);
    let input = UpdateDocumentInput {
        id: doc_id,
        title: Some("".to_string()),
        doc_type: None,
        year: None,
        source: None,
        url: None,
        tags: None,
        notes: None,
    };

    let result = use_case.execute(input);

    assert!(result.is_err());
}

#[test]
fn test_update_invalid_tags() {
    let repo = MockRepository::new();
    let doc_id = repo.add_test_doc("Original Title");

    let use_case = UpdateDocumentUseCase::new(repo);
    let input = UpdateDocumentInput {
        id: doc_id,
        title: None,
        doc_type: None,
        year: None,
        source: None,
        url: None,
        tags: Some(vec!["Invalid Tag".to_string()]),
        notes: None,
    };

    let result = use_case.execute(input);

    assert!(result.is_err());
}

fn blank_input(id: i64) -> UpdateDocumentInput {
    UpdateDocumentInput { id, title: None, doc_type: None, year: None, source: None, url: None, tags: None, notes: None }
}

#[test]
fn an_update_keeps_id_and_creation_time_and_stamps_the_update() {
    let repo = MockRepository::new();
    let id = repo.add_test_doc("Original Title");
    let doc = repo.find_by_id(id).unwrap();
    let mut input = blank_input(id);
    input.notes = Some("n".to_string());
    let out = apply_update(doc.clone(), input, "later".to_string());
    assert_eq!(out.id, doc.id);
    assert_eq!(out.created_at, doc.created_at);
    assert_eq!(out.updated_at, "later");
    assert_eq!(out.notes, Some("n".to_string()));
    assert_eq!(out.title, doc.title);
}

#[test]
fn storage_and_rule_errors_are_told_apart() {
    let missing = updated_document(Err(RepositoryError::NotFound(5)), blank_input(5), "t".to_string());
    assert_eq!(missing.err(), Some(UseCaseError::Repository(RepositoryError::NotFound(5))));
    let repo = MockRepository::new();
    let id = repo.add_test_doc("Original Title");
    let mut input = blank_input(id);
    input.year = Some(5000);
    let bad = updated_document(repo.find_by_id(id), input, "t".to_string());
    assert_eq!(bad.err(), Some(UseCaseError::Domain(DomainError::InvalidYear(5000))));
}
