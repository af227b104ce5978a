use doclib::application::dto::CreateDocumentInput;
use doclib::application::use_cases::{draft_document, CreateDocumentUseCase, UseCaseError};
use doclib::domain::entities::BookMetadata;
use doclib::domain::errors::DomainError;
use std::sync::Mutex;

use doclib::application::dto::ListDocumentsFilter;
use doclib::application::repositories::{DocumentRepository, RepositoryError};
use doclib::domain::entities::{Document, DocumentType, NotesMetadata};

struct MockRepository {
    documents: Mutex<Vec<Document>>,
    next_id: Mutex<i64>,
}

impl MockRepository {
    fn new() -> Self {
        Self {
            documents: Mutex::new(Vec::new()),
            next_id: Mutex::new(1),
        }
    }

    #[allow(dead_code)]
    fn with_documents(docs: Vec<Document>) -> Self {
        let max_id = docs.iter().map(|d| d.id).max().unwrap_or(0);
        Self {
            documents: Mutex::new(docs),
            next_id: Mutex::new(max_id + 1),
        }
    }

    #[allow(dead_code)]
    fn add_document(&self, doc: Document) {
        let mut docs = self.documents.lock().unwrap();
        let id = docs.len() as i64 + 1;
        let mut d = doc;
        d.id = id;
        docs.push(d);
    }

    #[allow(dead_code)]
    fn add_test_doc(&self, title: &str) -> i64 {
        let doc = Document::new(
            0,
            title.to_string(),
            DocumentType::Notes(NotesMetadata {}),
            Some(2023),
            Some("Original Source".to_string()),
            Some("https://original.com".to_string()),
            vec!["original-tag".to_string()],
            Some("Original notes".to_string()),
            "2024-01-15T10:00:00Z".to_string(),
            "2024-01-15T10:00:00Z".to_string(),
        )
        .unwrap();

        let id = *self.next_id.lock().unwrap();
        let mut d = doc;
        d.id = id;
        self.documents.lock().unwrap().push(d);
        *self.next_id.lock().unwrap() += 1;
        id
    }
}

fn author_matches(doc_authors: &Option<Vec<String>>, authors: &[String]) -> bool {
    match doc_authors {
        Some(doc_authors) => doc_authors.iter().any(|a| {
            authors
                .iter()
                .any(|f| a.to_lowercase().contains(&f.to_lowercase()))
        }),
        None => false,
    }
}

impl DocumentRepository for MockRepository {
    fn create(&self, mut document: Document) -> Result<Document, RepositoryError> {
        let id = *self.next_id.lock().unwrap();
        *self.next_id.lock().unwrap() += 1;
        document.id = id;
        self.documents.lock().unwrap().push(document.clone());
        Ok(document)
    }

    fn find_by_id(&self, id: i64) -> Result<Document, RepositoryError> {
        self.documents
            .lock()
            .unwrap()
            .iter()
            .find(|d| d.id == id)
            .cloned()
            .ok_or(RepositoryError::NotFound(id))
    }

    fn find_all(&self) -> Result<Vec<Document>, RepositoryError> {
        Ok(self.documents.lock().unwrap().clone())
    }

    fn find_all_with_filter(&self, filter: ListDocumentsFilter) -> Result<Vec<Document>, RepositoryError> {
        let docs = self.documents.lock().unwrap();
        let mut results: Vec<Document> = docs.clone();
        if let Some(doc_types) = &filter.doc_types {
            if !doc_types.is_empty() {
                results.retain(|doc| doc_types.contains(&doc.doc_type.as_str().to_string()));
            }
        }
        if let Some(tags) = &filter.tags {
            if !tags.is_empty() {
                results.retain(|doc| doc.tags.iter().any(|t| tags.contains(t)));
            }
        }
        if let Some(authors) = &filter.authors {
            if !authors.is_empty() {
                results.retain(|doc| match &doc.doc_type {
                    DocumentType::Book(m) => author_matches(&m.authors, authors),
                    DocumentType::Paper(m) => author_matches(&m.authors, authors),
                    _ => false,
                });
            }
        }
        Ok(results)
    }

    fn search(&self, query: &str) -> Result<Vec<Document>, RepositoryError> {
        let docs = self.documents.lock().unwrap();
        let query_lower = query.to_lowercase();
        Ok(docs
            .iter()
            .filter(|d| d.title.to_lowercase().contains(&query_lower))
            .cloned()
            .collect())
    }

    fn update(&self, document: Document) -> Result<Document, RepositoryError> {
        let mut docs = self.documents.lock().unwrap();
        if let Some(idx) = docs.iter().position(|d| d.id == document.id) {
            docs[idx] = document.clone();
            Ok(document)
        } else {
            Err(RepositoryError::NotFound(document.id))
        }
    }

    fn delete(&self, id: i64) -> Result<(), RepositoryError> {
        let mut docs = self.documents.lock().unwrap();
        if let Some(idx) = docs.iter().position(|d| d.id == id) {
            docs.remove(idx);
            Ok(())
        } else {
            Err(RepositoryError::NotFound(id))
        }
    }
}

impl Clone for MockRepository {
    fn clone(&self) -> Self {
        Self::with_documents(self.documents.lock().unwrap().clone())
    }
}

#[test]
fn test_create_document_success() {
    let repo = MockRepository::new();
    let use_case = CreateDocumentUseCase::new(repo);

    let input = CreateDocumentInput {
        title: "Test Document".to_string(),
        doc_type: DocumentType::Notes(NotesMetadata {}),
        year: Some(2024),
        source: Some("Test Source".to_string()),
        url: Some("https://example.com".to_string()),
        tags: vec!["test".to_string()],
        notes: Some("Test notes".to_string()),
    };

    let result = use_case.execute(input);

    assert!(result.is_ok());
    let output = result.unwrap();
    assert_eq!(output.title, "Test Document");
    assert!(output.id > 0);
    assert!(!output.created_at.is_empty());
}

#[test]
fn test_create_document_empty_title() {
    let repo = MockRepository::new();
    let use_case = CreateDocumentUseCase::new(repo);

    let input = CreateDocumentInput {
        title: "".to_string(),
        doc_type: DocumentType::Notes(NotesMetadata {}),
        year: None,
        source: None,
        url: None,
        tags: vec![],
        notes: None,
    };

    let result = use_case.execute(input);

    assert!(result.is_err());
}

#[test]
fn test_create_document_invalid_tags() {
    let repo = MockRepository::new();
    let use_case = CreateDocumentUseCase::new(repo);

    let input = CreateDocumentInput {
        title: "Test".to_string(),
        doc_type: DocumentType::Notes(NotesMetadata {}),
        year: None,
        source: None,
        url: None,
        tags: vec!["Invalid Tag".to_string()], // Not kebab-case
        notes: None,
    };

    let result = use_case.execute(input);

    assert!(result.is_err());
}

#[test]
fn test_create_document_with_book_metadata() {
    let repo = MockRepository::new();
    let use_case = CreateDocumentUseCase::new(repo);

    let input = CreateDocumentInput {
        title: "Rust Programming".to_string(),
        doc_type: DocumentType::Book(BookMetadata {
            authors: Some(vec!["John Doe".to_string()]),
            edition: Some("2nd".to_string()),
            publisher: Some("O'Reilly".to_string()),
            isbn: Some("978-1491950357".to_string()),
        }),
        year: Some(2024),
        source: None,
        url: None,
        tags: vec!["rust".to_string(), "programming".to_string()],
        notes: None,
    };

    let result = use_case.execute(input);

    assert!(result.is_ok());
    let output = result.unwrap();
    assert_eq!(output.doc_type, "book");
    assert_eq!(output.tags, vec!["rust", "programming"]);
}

#[test]
fn an_invalid_document_never_reaches_storage() {
    let repo = MockRepository::new();
    let use_case = CreateDocumentUseCase::new(repo);
    let input = CreateDocumentInput {
        title: "T".to_string(),
        doc_type: DocumentType::Notes(NotesMetadata {}),
        year: Some(999),
        source: None,
        url: None,
        tags: vec![],
        notes: None,
    };
    assert_eq!(
        use_case.execute(input).err(),
        Some(UseCaseError::Domain(DomainError::InvalidYear(999)))
    );
}

#[test]
fn a_draft_is_stamped_with_the_given_time_and_id_zero() {
    let input = CreateDocumentInput {
        title: "Draft".to_string(),
        doc_type: DocumentType::Notes(NotesMetadata {}),
        year: None,
        source: None,
        url: None,
        tags: vec!["a".to_string()],
        notes: None,
    };
    let d = draft_document(input, "2030-01-01T00:00:00+00:00".to_string()).unwrap();
    assert_eq!(d.id, 0);
    assert_eq!(d.created_at, "2030-01-01T00:00:00+00:00");
    assert_eq!(d.updated_at, d.created_at);
}
