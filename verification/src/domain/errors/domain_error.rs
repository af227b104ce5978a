use vstd::prelude::*;

use crate::text::{decimal, decimal_of, digits, digits_of, string_of};

verus! {

/// Why a document was refused by the domain rules.
#[derive(Debug, PartialEq)]
pub enum DomainError {
    EmptyTitle,
    InvalidYear(i32),
    InvalidDocumentType(String),
    TooManyTags(usize),
    TagTooLong(String),
    InvalidTagFormat(String),
}

/// The text an error is shown with.
pub open spec fn error_text(e: DomainError) -> Seq<char> {
    match e {
        DomainError::EmptyTitle => "Title cannot be empty"@,
        DomainError::InvalidYear(y) => "Invalid year: "@ + decimal(y as int)
            + ". Must be between 1000 and 2100"@,
        DomainError::InvalidDocumentType(t) => "Invalid document type: "@ + t@,
        DomainError::TooManyTags(n) => "Too many tags: "@ + digits(n as nat) + ". Maximum is 50"@,
        DomainError::TagTooLong(t) => "Tag too long: '"@ + t@ + "'. Maximum is 30 characters"@,
        DomainError::InvalidTagFormat(t) => "Invalid tag format: '"@ + t@
            + "'. Use kebab-case"@,
    }
}

impl DomainError {
    /// The error as a person reads it.
    pub fn message(&self) -> (r: String)
        ensures
            r@ == error_text(*self),
    {
        match self {
            DomainError::EmptyTitle => String::from_str("Title cannot be empty"),
            DomainError::InvalidYear(y) => {
                let mut r = String::from_str("Invalid year: ");
                let d = decimal_of(*y as i64);
                r.append(string_of(&d).as_str());
                r.append(". Must be between 1000 and 2100");
                r
            },
            DomainError::InvalidDocumentType(t) => {
                let mut r = String::from_str("Invalid document type: ");
                r.append(t.as_str());
                r
            },
            DomainError::TooManyTags(n) => {
                let mut r = String::from_str("Too many tags: ");
                let d = digits_of(*n as u64);
                r.append(string_of(&d).as_str());
                r.append(". Maximum is 50");
                r
            },
            DomainError::TagTooLong(t) => {
                let mut r = String::from_str("Tag too long: '");
                r.append(t.as_str());
                r.append("'. Maximum is 30 characters");
                r
            },
            DomainError::InvalidTagFormat(t) => {
                let mut r = String::from_str("Invalid tag format: '");
                r.append(t.as_str());
                r.append("'. Use kebab-case");
                r
            },
        }
    }
}

} // verus!
