use doclib::commands::copy::{name_stem, numbered_name};
use doclib::domain::errors::DomainError;

#[test]
fn a_taken_name_gets_a_counter() {
    assert_eq!(name_stem("Knuth - TAOCP (1997).pdf"), "Knuth - TAOCP (1997)");
    assert_eq!(name_stem("Vol. 1.pdf"), "Vol. 1");
    assert_eq!(name_stem("no-extension"), "no-extension");
    assert_eq!(numbered_name("Knuth - TAOCP", 2, "pdf"), "Knuth - TAOCP (2).pdf");
}

#[test]
fn domain_errors_explain_themselves() {
    assert_eq!(DomainError::EmptyTitle.message(), "Title cannot be empty");
    assert_eq!(
        DomainError::InvalidYear(999).message(),
        "Invalid year: 999. Must be between 1000 and 2100"
    );
    assert_eq!(
        DomainError::InvalidYear(-5).message(),
        "Invalid year: -5. Must be between 1000 and 2100"
    );
    assert_eq!(
        DomainError::TooManyTags(51).message(),
        "Too many tags: 51. Maximum is 50"
    );
    assert_eq!(
        DomainError::TagTooLong("x".to_string()).message(),
        "Tag too long: 'x'. Maximum is 30 characters"
    );
    assert_eq!(
        DomainError::InvalidDocumentType("zine".to_string()).message(),
        "Invalid document type: zine"
    );
    assert_eq!(
        DomainError::InvalidTagFormat("Bad Tag".to_string()).message(),
        "Invalid tag format: 'Bad Tag'. Use kebab-case"
    );
}
