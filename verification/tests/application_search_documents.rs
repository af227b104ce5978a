use doclib::application::dto::SearchDocumentsInput;
use doclib::application::use_cases::{sorted_summaries, SearchDocumentsUseCase};
use std::sync::Mutex;

use doclib::application::dto::ListDocumentsFilter;
use doclib::application::repositories::{DocumentRepository, RepositoryError};
use doclib::domain::entities::{Document, DocumentType, NotesMetadata};

struct MockRepository {
    documents: Mutex<Vec<Document>>,
    next_id: Mutex<i64>,
}

impl MockRepository {
    fn new() -> Self {
        Self {
            documents: Mutex::new(Vec::new()),
            next_id: Mutex::new(1),
        }
    }

    #[allow(dead_code)]
    fn with_documents(docs: Vec<Document>) -> Self {
        let max_id = docs.iter().map(|d| d.id).max().unwrap_or(0);
        Self {
            documents: Mutex::new(docs),
            next_id: Mutex::new(max_id + 1),
        }
    }

    #[allow(dead_code)]
    fn add_document(&self, doc: Document) {
        let mut docs = self.documents.lock().unwrap();
        let id = docs.len() as i64 + 1;
        let mut d = doc;
        d.id = id;
        docs.push(d);
    }

    #[allow(dead_code)]
    fn add_test_doc(&self, title: &str) -> i64 {
        let doc = Document::new(
            0,
            title.to_string(),
            DocumentType::Notes(NotesMetadata {}),
            Some(2023),
            Some("Original Source".to_string()),
            Some("https://original.com".to_string()),
            vec!["original-tag".to_string()],
            Some("Original notes".to_string()),
            "2024-01-15T10:00:00Z".to_string(),
            "2024-01-15T10:00:00Z".to_string(),
        )
        .unwrap();

        let id = *self.next_id.lock().unwrap();
        let mut d = doc;
        d.id = id;
        self.documents.lock().unwrap().push(d);
        *self.next_id.lock().unwrap() += 1;
        id
    }
}

fn author_matches(doc_authors: &Option<Vec<String>>, authors: &[String]) -> bool {
    match doc_authors {
        Some(doc_authors) => doc_authors.iter().any(|a| {
            authors
                .iter()
                .any(|f| a.to_lowercase().contains(&f.to_lowercase()))
        }),
        None => false,
    }
}

impl DocumentRepository for MockRepository {
    fn create(&self, mut document: Document) -> Result<Document, RepositoryError> {
        let id = *self.next_id.lock().unwrap();
        *self.next_id.lock().unwrap() += 1;
        document.id = id;
        self.documents.lock().unwrap().push(document.clone());
        Ok(document)
    }

    fn find_by_id(&self, id: i64) -> Result<Document, RepositoryError> {
        self.documents
            .lock()
            .unwrap()
            .iter()
            .find(|d| d.id == id)
            .cloned()
            .ok_or(RepositoryError::NotFound(id))
    }

    fn find_all(&self) -> Result<Vec<Document>, RepositoryError> {
        Ok(self.documents.lock().unwrap().clone())
    }

    fn find_all_with_filter(&self, filter: ListDocumentsFilter) -> Result<Vec<Document>, RepositoryError> {
        let docs = self.documents.lock().unwrap();
        let mut results: Vec<Document> = docs.clone();
        if let Some(doc_types) = &filter.doc_types {
            if !doc_types.is_empty() {
                results.retain(|doc| doc_types.contains(&doc.doc_type.as_str().to_string()));
            }
        }
        if let Some(tags) = &filter.tags {
            if !tags.is_empty() {
                results.retain(|doc| doc.tags.iter().any(|t| tags.contains(t)));
            }
        }
        if let Some(authors) = &filter.authors {
            if !authors.is_empty() {
                results.retain(|doc| match &doc.doc_type {
                    DocumentType::Book(m) => author_matches(&m.authors, authors),
                    DocumentType::Paper(m) => author_matches(&m.authors, authors),
                    _ => false,
                });
            }
        }
        Ok(results)
    }

    fn search(&self, query: &str) -> Result<Vec<Document>, RepositoryError> {
        let docs = self.documents.lock().unwrap();
        let query_lower = query.to_lowercase();
        Ok(docs
            .iter()
            .filter(|d| d.title.to_lowercase().contains(&query_lower))
            .cloned()
            .collect())
    }

    fn update(&self, document: Document) -> Result<Document, RepositoryError> {
        let mut docs = self.documents.lock().unwrap();
        if let Some(idx) = docs.iter().position(|d| d.id == document.id) {
            docs[idx] = document.clone();
            Ok(document)
        } else {
            Err(RepositoryError::NotFound(document.id))
        }
    }

    fn delete(&self, id: i64) -> Result<(), RepositoryError> {
        let mut docs = self.documents.lock().unwrap();
        if let Some(idx) = docs.iter().position(|d| d.id == id) {
            docs.remove(idx);
            Ok(())
        } else {
            Err(RepositoryError::NotFound(id))
        }
    }
}

impl Clone for MockRepository {
    fn clone(&self) -> Self {
        Self::with_documents(self.documents.lock().unwrap().clone())
    }
}

fn create_doc_with_title(title: &str) -> Document {
    Document::new(
        0,
        title.to_string(),
        DocumentType::Notes(NotesMetadata {}),
        None,
        None,
        None,
        vec![],
        None,
        "2024-01-15T10:00:00Z".to_string(),
        "2024-01-15T10:00:00Z".to_string(),
    )
    .unwrap()
}

#[test]
fn test_search_by_title() {
    let repo = MockRepository::new();
    repo.add_document(create_doc_with_title("Rust Programming Guide"));
    repo.add_document(create_doc_with_title("Python Basics"));

    let use_case = SearchDocumentsUseCase::new(repo);
    let input = SearchDocumentsInput {
        query: "rust".to_string(),
    };

    let result = use_case.execute(input);

    assert!(result.is_ok());
    assert_eq!(result.unwrap().len(), 1);
}

#[test]
fn test_search_multiple_results() {
    let repo = MockRepository::new();
    repo.add_document(create_doc_with_title("Rust Programming"));
    repo.add_document(create_doc_with_title("Rust in Action"));
    repo.add_document(create_doc_with_title("Python Guide"));

    let use_case = SearchDocumentsUseCase::new(repo);
    let input = SearchDocumentsInput {
        query: "rust".to_string(),
    };

    let result = use_case.execute(input);

    assert!(result.is_ok());
    assert_eq!(result.unwrap().len(), 2);
}

#[test]
fn test_search_no_matches() {
    let repo = MockRepository::new();
    repo.add_document(create_doc_with_title("Python Guide"));
    repo.add_document(create_doc_with_title("Java Basics"));

    let use_case = SearchDocumentsUseCase::new(repo);
    let input = SearchDocumentsInput {
        query: "rust".to_string(),
    };

    let result = use_case.execute(input);

    assert!(result.is_ok());
    assert_eq!(result.unwrap().len(), 0);
}

#[test]
fn test_search_case_insensitive() {
    let repo = MockRepository::new();
    repo.add_document(create_doc_with_title("RUST Programming"));
    repo.add_document(create_doc_with_title("Python Guide"));

    let use_case = SearchDocumentsUseCase::new(repo);
    let input = SearchDocumentsInput {
        query: "rust".to_string(),
    };

    let result = use_case.execute(input);

    assert!(result.is_ok());
    assert_eq!(result.unwrap().len(), 1);
}

#[test]
fn results_are_ordered_by_title_ignoring_case_and_ties_keep_their_order() {
    let mut a = create_doc_with_title("beta");
    a.id = 1;
    let mut b = create_doc_with_title("Alpha");
    b.id = 2;
    let mut c = create_doc_with_title("BETA");
    c.id = 3;
    let mut d = create_doc_with_title("alpha");
    d.id = 4;
    let out = sorted_summaries(vec![a, b, c, d]);
    let ids: Vec<i64> = out.iter().map(|s| s.id).collect();
    assert_eq!(ids, vec![2, 4, 1, 3]);
}
