use doclib::commands::copy::{filename_for, sanitize, short_author, trim_to, MAX_STEM};
use doclib::model::{Document, Kind};

fn doc(title: &str, authors: Option<&str>, year: Option<i64>) -> Document {
    Document {
        id: "id".into(),
        kind: Kind::Book,
        title: title.into(),
        authors: authors.map(str::to_string),
        year,
        publisher: None,
        edition: None,
        isbn: None,
        journal: None,
        volume: None,
        issue: None,
        pages: None,
        doi: None,
        ext: "pdf".into(),
        size: 10,
        content_hash: "hash".into(),
        remote_path: "ha/hash.pdf".into(),
        cached_at: None,
        last_opened: None,
        added_at: "2026-01-01".into(),
        extra: None,
    }
}

#[test]
fn builds_a_readable_name() {
    assert_eq!(
        filename_for(&doc(
            "The Art of Computer Programming",
            Some("Donald E. Knuth"),
            Some(1997)
        )),
        "Knuth - The Art of Computer Programming (1997).pdf"
    );
}

#[test]
fn several_authors_become_et_al() {
    assert_eq!(
        filename_for(&doc(
            "Compilers",
            Some("Alfred V. Aho, Monica S. Lam, Ravi Sethi"),
            Some(2006)
        )),
        "Aho et al. - Compilers (2006).pdf"
    );
}

#[test]
fn missing_parts_are_left_out_rather_than_faked() {
    assert_eq!(filename_for(&doc("Scan", None, None)), "Scan.pdf");
    assert_eq!(
        filename_for(&doc("Scan", Some("Meduna"), None)),
        "Meduna - Scan.pdf"
    );
    assert_eq!(
        filename_for(&doc("Scan", None, Some(2014))),
        "Scan (2014).pdf"
    );
}

#[test]
fn strips_characters_filesystems_reject() {
    let name = filename_for(&doc(
        "Where/When: A Study?",
        Some("A. B. Smith"),
        Some(2020),
    ));
    assert_eq!(name, "Smith - Where When A Study (2020).pdf");
    assert!(!name.contains('/'));
    assert!(!name.contains(':'));
}

#[test]
fn never_ends_a_name_with_a_dot_or_space() {
    let name = filename_for(&doc("Vol. 1 .", None, None));
    assert_eq!(name, "Vol. 1.pdf");
}

#[test]
fn long_titles_are_trimmed_but_author_and_year_survive() {
    let name = filename_for(&doc(&"A".repeat(400), Some("Knuth"), Some(1997)));
    let stem = name.strip_suffix(".pdf").unwrap();
    assert!(
        stem.chars().count() <= MAX_STEM,
        "{} chars",
        stem.chars().count()
    );
    assert!(stem.starts_with("Knuth - "));
    assert!(stem.ends_with("(1997)"));
}

#[test]
fn an_untitled_document_still_gets_a_name() {
    assert_eq!(filename_for(&doc("///", None, None)), "untitled.pdf");
}

#[test]
fn negative_years_and_blank_author_lists() {
    assert_eq!(filename_for(&doc("X", Some(" , ,"), Some(-44))), "X (-44).pdf");
    assert_eq!(short_author(" ,  Ada   Lovelace ,"), Some("Lovelace".to_string()));
    assert_eq!(short_author(""), None);
    assert_eq!(short_author("???, Babbage"), None);
}

#[test]
fn sanitize_and_trim_to() {
    assert_eq!(sanitize("  a\u{7}b  c.. "), "a b c");
    assert_eq!(sanitize("a\u{a0}\u{3000}b"), "a b");
    assert_eq!(trim_to("abcdef", 10), "abcdef");
    assert_eq!(trim_to("ab. cdef", 4), "ab");
    assert_eq!(trim_to("ééééé", 3), "ééé");
}
