use doclib::application::dto::{DocumentMetadata, ListDocumentsInput};
use doclib::application::use_cases::ListDocumentsUseCase;
use doclib::domain::entities::{BookMetadata, PaperMetadata};
use std::sync::Mutex;

use doclib::application::dto::ListDocumentsFilter;
use doclib::application::repositories::{DocumentRepository, RepositoryError};
use doclib::domain::entities::{Document, DocumentType, NotesMetadata};

struct MockRepository {
    documents: Mutex<Vec<Document>>,
    next_id: Mutex<i64>,
}

impl MockRepository {
    fn new() -> Self {
        Self {
            documents: Mutex::new(Vec::new()),
            next_id: Mutex::new(1),
        }
    }

    #[allow(dead_code)]
    fn with_documents(docs: Vec<Document>) -> Self {
        let max_id = docs.iter().map(|d| d.id).max().unwrap_or(0);
        Self {
            documents: Mutex::new(docs),
            next_id: Mutex::new(max_id + 1),
        }
    }

    #[allow(dead_code)]
    fn add_document(&self, doc: Document) {
        let mut docs = self.documents.lock().unwrap();
        let id = docs.len() as i64 + 1;
        let mut d = doc;
        d.id = id;
        docs.push(d);
    }

    #[allow(dead_code)]
    fn add_test_doc(&self, title: &str) -> i64 {
        let doc = Document::new(
            0,
            title.to_string(),
            DocumentType::Notes(NotesMetadata {}),
            Some(2023),
            Some("Original Source".to_string()),
            Some("https://original.com".to_string()),
            vec!["original-tag".to_string()],
            Some("Original notes".to_string()),
            "2024-01-15T10:00:00Z".to_string(),
            "2024-01-15T10:00:00Z".to_string(),
        )
        .unwrap();

        let id = *self.next_id.lock().unwrap();
        let mut d = doc;
        d.id = id;
        self.documents.lock().unwrap().push(d);
        *self.next_id.lock().unwrap() += 1;
        id
    }
}

fn author_matches(doc_authors: &Option<Vec<String>>, authors: &[String]) -> bool {
    match doc_authors {
        Some(doc_authors) => doc_authors.iter().any(|a| {
            authors
                .iter()
                .any(|f| a.to_lowercase().contains(&f.to_lowercase()))
        }),
        None => false,
    }
}

impl DocumentRepository for MockRepository {
    fn create(&self, mut document: Document) -> Result<Document, RepositoryError> {
        let id = *self.next_id.lock().unwrap();
        *self.next_id.lock().unwrap() += 1;
        document.id = id;
        self.documents.lock().unwrap().push(document.clone());
        Ok(document)
    }

    fn find_by_id(&self, id: i64) -> Result<Document, RepositoryError> {
        self.documents
            .lock()
            .unwrap()
            .iter()
            .find(|d| d.id == id)
            .cloned()
            .ok_or(RepositoryError::NotFound(id))
    }

    fn find_all(&self) -> Result<Vec<Document>, RepositoryError> {
        Ok(self.documents.lock().unwrap().clone())
    }

    fn find_all_with_filter(&self, filter: ListDocumentsFilter) -> Result<Vec<Document>, RepositoryError> {
        let docs = self.documents.lock().unwrap();
        let mut results: Vec<Document> = docs.clone();
        if let Some(doc_types) = &filter.doc_types {
            if !doc_types.is_empty() {
                results.retain(|doc| doc_types.contains(&doc.doc_type.as_str().to_string()));
            }
        }
        if let Some(tags) = &filter.tags {
            if !tags.is_empty() {
                results.retain(|doc| doc.tags.iter().any(|t| tags.contains(t)));
            }
        }
        if let Some(authors) = &filter.authors {
            if !authors.is_empty() {
                results.retain(|doc| match &doc.doc_type {
                    DocumentType::Book(m) => author_matches(&m.authors, authors),
                    DocumentType::Paper(m) => author_matches(&m.authors, authors),
                    _ => false,
                });
            }
        }
        Ok(results)
    }

    fn search(&self, query: &str) -> Result<Vec<Document>, RepositoryError> {
        let docs = self.documents.lock().unwrap();
        let query_lower = query.to_lowercase();
        Ok(docs
            .iter()
            .filter(|d| d.title.to_lowercase().contains(&query_lower))
            .cloned()
            .collect())
    }

    fn update(&self, document: Document) -> Result<Document, RepositoryError> {
        let mut docs = self.documents.lock().unwrap();
        if let Some(idx) = docs.iter().position(|d| d.id == document.id) {
            docs[idx] = document.clone();
            Ok(document)
        } else {
            Err(RepositoryError::NotFound(document.id))
        }
    }

    fn delete(&self, id: i64) -> Result<(), RepositoryError> {
        let mut docs = self.documents.lock().unwrap();
        if let Some(idx) = docs.iter().position(|d| d.id == id) {
            docs.remove(idx);
            Ok(())
        } else {
            Err(RepositoryError::NotFound(id))
        }
    }
}

impl Clone for MockRepository {
    fn clone(&self) -> Self {
        Self::with_documents(self.documents.lock().unwrap().clone())
    }
}

fn create_book(title: &str, authors: Vec<String>, tags: Vec<String>) -> Document {
    Document::new(
        0,
        title.to_string(),
        DocumentType::Book(BookMetadata {
            authors: Some(authors),
            edition: None,
            publisher: Some("O'Reilly".to_string()),
            isbn: None,
        }),
        Some(2024),
        None,
        None,
        tags,
        None,
        "2024-01-15T10:00:00Z".to_string(),
        "2024-01-15T10:00:00Z".to_string(),
    )
    .unwrap()
}

fn create_notes(title: &str, tags: Vec<String>) -> Document {
    Document::new(
        0,
        title.to_string(),
        DocumentType::Notes(NotesMetadata {}),
        None,
        None,
        None,
        tags,
        None,
        "2024-01-15T10:00:00Z".to_string(),
        "2024-01-15T10:00:00Z".to_string(),
    )
    .unwrap()
}

#[test]
fn test_list_all_no_filters() {
    let repo = MockRepository::new();
    repo.add_document(create_book(
        "Book 1",
        vec!["John".to_string()],
        vec!["rust".to_string()],
    ));
    repo.add_document(create_notes("Notes 1", vec!["todo".to_string()]));

    let use_case = ListDocumentsUseCase::new(repo);
    let input = ListDocumentsInput {
        doc_types: None,
        tags: None,
        authors: None,
    };

    let result = use_case.execute(input);

    assert!(result.is_ok());
    assert_eq!(result.unwrap().len(), 2);
}

#[test]
fn test_filter_by_doc_types() {
    let repo = MockRepository::new();
    repo.add_document(create_book(
        "Book 1",
        vec!["John".to_string()],
        vec!["rust".to_string()],
    ));
    repo.add_document(create_notes("Notes 1", vec!["todo".to_string()]));

    let use_case = ListDocumentsUseCase::new(repo);
    let input = ListDocumentsInput {
        doc_types: Some(vec!["book".to_string()]),
        tags: None,
        authors: None,
    };

    let result = use_case.execute(input);

    assert!(result.is_ok());
    assert_eq!(result.unwrap().len(), 1);
}

#[test]
fn test_filter_by_tags() {
    let repo = MockRepository::new();
    repo.add_document(create_book(
        "Book 1",
        vec!["John".to_string()],
        vec!["rust".to_string()],
    ));
    repo.add_document(create_notes("Notes 1", vec!["todo".to_string()]));

    let use_case = ListDocumentsUseCase::new(repo);
    let input = ListDocumentsInput {
        doc_types: None,
        tags: Some(vec!["rust".to_string()]),
        authors: None,
    };

    let result = use_case.execute(input);

    assert!(result.is_ok());
    assert_eq!(result.unwrap().len(), 1);
}

#[test]
fn test_filter_by_authors() {
    let repo = MockRepository::new();
    repo.add_document(create_book(
        "Book 1",
        vec!["John Doe".to_string()],
        vec!["rust".to_string()],
    ));
    repo.add_document(create_book(
        "Book 2",
        vec!["Jane Smith".to_string()],
        vec!["python".to_string()],
    ));

    let use_case = ListDocumentsUseCase::new(repo);
    let input = ListDocumentsInput {
        doc_types: None,
        tags: None,
        authors: Some(vec!["John".to_string()]),
    };

    let result = use_case.execute(input);

    assert!(result.is_ok());
    assert_eq!(result.unwrap().len(), 1);
}

#[test]
fn test_filter_multiple_doc_types() {
    let repo = MockRepository::new();
    repo.add_document(create_book(
        "Book 1",
        vec!["John".to_string()],
        vec!["rust".to_string()],
    ));
    repo.add_document(create_notes("Notes 1", vec!["todo".to_string()]));
    repo.add_document(
        Document::new(
            0,
            "Paper 1".to_string(),
            DocumentType::Paper(PaperMetadata {
                authors: Some(vec!["Author".to_string()]),
                journal: None,
                volume: None,
                issue: None,
                doi: None,
            }),
            Some(2024),
            None,
            None,
            vec!["research".to_string()],
            None,
            "2024-01-15T10:00:00Z".to_string(),
            "2024-01-15T10:00:00Z".to_string(),
        )
        .unwrap(),
    );

    let use_case = ListDocumentsUseCase::new(repo);
    let input = ListDocumentsInput {
        doc_types: Some(vec!["book".to_string(), "paper".to_string()]),
        tags: None,
        authors: None,
    };

    let result = use_case.execute(input);

    assert!(result.is_ok());
    assert_eq!(result.unwrap().len(), 2);
}

#[test]
fn test_metadata_included() {
    let repo = MockRepository::new();
    repo.add_document(create_book(
        "Book 1",
        vec!["John Doe".to_string(), "Jane Smith".to_string()],
        vec![],
    ));

    let use_case = ListDocumentsUseCase::new(repo);
    let input = ListDocumentsInput {
        doc_types: None,
        tags: None,
        authors: None,
    };

    let result = use_case.execute(input);

    assert!(result.is_ok());
    let docs = result.unwrap();
    assert_eq!(docs.len(), 1);

    match &docs[0].metadata {
        DocumentMetadata::Book { authors, .. } => {
            assert!(authors.is_some());
            assert!(authors.as_ref().unwrap().contains(&"John Doe".to_string()));
        }
        _ => panic!("Expected Book metadata"),
    }
}

#[test]
fn an_empty_filter_is_recognised() {
    let f = ListDocumentsFilter::from(ListDocumentsInput { doc_types: None, tags: None, authors: None });
    assert!(f.is_empty());
    let f = ListDocumentsFilter { doc_types: None, tags: Some(vec![]), authors: None };
    assert!(!f.is_empty());
}
