use vstd::prelude::*;
use vstd::utf8::encode_utf8;

use super::{DocumentType, NotesMetadata};
use crate::domain::errors::DomainError;
use crate::domain::utils::{is_kebab_case, is_kebab_tag};
use crate::text::{blank, byte_len, is_blank, str_equal};

verus! {

pub const MIN_YEAR: i32 = 1000;

pub const MAX_YEAR: i32 = 2100;

pub const MAX_TAGS: usize = 50;

pub const MAX_TAG_LENGTH: usize = 30;

/// A catalogued document.
#[derive(Debug, Clone, PartialEq)]
pub struct Document {
    pub id: i64,
    pub title: String,
    pub doc_type: DocumentType,
    pub year: Option<i32>,
    pub source: Option<String>,
    pub url: Option<String>,
    pub tags: Vec<String>,
    pub notes: Option<String>,
    pub created_at: String,
    pub updated_at: String,
}

/// What is wrong with a single tag, if anything. Length is measured in
/// UTF-8 bytes.
pub open spec fn tag_problem(tag: String) -> Option<DomainError> {
    if encode_utf8(tag@).len() > MAX_TAG_LENGTH {
        Some(DomainError::TagTooLong(tag))
    } else if !is_kebab_tag(tag@) {
        Some(DomainError::InvalidTagFormat(tag))
    } else {
        None
    }
}

/// The problem of the first tag that has one.
pub open spec fn first_tag_problem(tags: Seq<String>) -> Option<DomainError>
    decreases tags.len(),
{
    if tags.len() == 0 {
        None
    } else if tag_problem(tags[0]) is Some {
        tag_problem(tags[0])
    } else {
        first_tag_problem(tags.drop_first())
    }
}

/// The outcome of checking a title, year and tag list against the rules:
/// the first rule broken, in the order title, year, tag count, then each tag
/// in turn.
pub open spec fn fields_validation(title: String, year: Option<i32>, tags: Vec<String>) -> Result<
    (),
    DomainError,
> {
    if is_blank(title@) {
        Err(DomainError::EmptyTitle)
    } else if year is Some && !(MIN_YEAR <= year->0 && year->0 <= MAX_YEAR) {
        Err(DomainError::InvalidYear(year->0))
    } else if tags.len() > MAX_TAGS {
        Err(DomainError::TooManyTags(tags.len()))
    } else {
        match first_tag_problem(tags@) {
            Some(e) => Err(e),
            None => Ok(()),
        }
    }
}

/// The outcome of validating a document.
pub open spec fn validation(d: Document) -> Result<(), DomainError> {
    fields_validation(d.title, d.year, d.tags)
}

impl Document {
    #[allow(clippy::too_many_arguments)]
    pub fn new(
        id: i64,
        title: String,
        doc_type: DocumentType,
        year: Option<i32>,
        source: Option<String>,
        url: Option<String>,
        tags: Vec<String>,
        notes: Option<String>,
        created_at: String,
        updated_at: String,
    ) -> (r: Result<Self, DomainError>)
        ensures
            ({
                let d = Document {
                    id,
                    title,
                    doc_type,
                    year,
                    source,
                    url,
                    tags,
                    notes,
                    created_at,
                    updated_at,
                };
                match validation(d) {
                    Ok(_) => r == Ok::<Document, DomainError>(d),
                    Err(e) => r == Err::<Document, DomainError>(e),
                }
            }),
    {
        let doc = Self {
            id,
            title,
            doc_type,
            year,
            source,
            url,
            tags,
            notes,
            created_at,
            updated_at,
        };
        match doc.validate() {
            Ok(()) => Ok(doc),
            Err(e) => Err(e),
        }
    }

    pub fn validate(&self) -> (r: Result<(), DomainError>)
        ensures
            r == validation(*self),
    {
        if blank(self.title.as_str()) {
            return Err(DomainError::EmptyTitle);
        }
        if let Some(year) = self.year {
            if !(MIN_YEAR <= year && year <= MAX_YEAR) {
                return Err(DomainError::InvalidYear(year));
            }
        }
        if self.tags.len() > MAX_TAGS {
            return Err(DomainError::TooManyTags(self.tags.len()));
        }
        let mut i: usize = 0;
        assert(self.tags@.skip(0) =~= self.tags@);
        while i < self.tags.len()
            invariant
                i <= self.tags.len(),
                !is_blank(self.title@),
                !(self.year is Some && !(MIN_YEAR <= self.year->0 && self.year->0 <= MAX_YEAR)),
                self.tags.len() <= MAX_TAGS,
                first_tag_problem(self.tags@) == first_tag_problem(self.tags@.skip(i as int)),
            decreases self.tags.len() - i,
        {
            let tag = &self.tags[i];
            assert(self.tags@.skip(i as int)[0] == self.tags@[i as int]);
            assert(self.tags@.skip(i as int).drop_first() =~= self.tags@.skip(i as int + 1));
            if byte_len(tag.as_str()) > MAX_TAG_LENGTH {
                return Err(DomainError::TagTooLong(tag.clone()));
            }
            if !is_kebab_case(tag.as_str()) {
                return Err(DomainError::InvalidTagFormat(tag.clone()));
            }
            i += 1;
        }
        assert(self.tags@.skip(i as int).len() == 0);
        Ok(())
    }

    /// Whether `key` names one of the metadata fields of this document's kind.
    pub fn validate_metadata_key(&self, key: &str) -> (r: bool)
        ensures
            r == self.doc_type.key_names().contains(key@),
    {
        let keys = self.doc_type.metadata_keys();
        let mut i: usize = 0;
        while i < keys.len()
            invariant
                i <= keys@.len(),
                crate::domain::entities::document_type::str_views(keys@) == self.doc_type.key_names(),
                forall|k: int| 0 <= k < i ==> keys@[k]@ != key@,
            decreases keys.len() - i,
        {
            if str_equal(keys[i], key) {
                assert(self.doc_type.key_names()[i as int] == key@);
                return true;
            }
            i += 1;
        }
        assert forall|k: int| 0 <= k < self.doc_type.key_names().len() implies self.doc_type.key_names()[k] != key@ by {
            assert(self.doc_type.key_names()[k] == keys@[k]@);
        }
        false
    }
}

impl Default for Document {
    fn default() -> (r: Self)
        ensures
            r.id == 0,
            r.title@.len() == 0,
            r.doc_type == DocumentType::Notes(NotesMetadata {}),
            r.year is None,
            r.source is None,
            r.url is None,
            r.tags@.len() == 0,
            r.notes is None,
            r.created_at@.len() == 0,
            r.updated_at@.len() == 0,
    {
        Self {
            id: 0,
            title: String::new(),
            doc_type: DocumentType::Notes(NotesMetadata {}),
            year: None,
            source: None,
            url: None,
            tags: Vec::new(),
            notes: None,
            created_at: String::new(),
            updated_at: String::new(),
        }
    }
}

} // verus!
