use doclib::commands::delete::{follow_up, FollowUp};
use doclib::commands::destroy::{confirmed, database_files};
use doclib::commands::edit::{apply, lookup_prompt, to_extracted};
use doclib::commands::copy::{name_step, NameStep};
use doclib::commands::export::{plan_restore, restore_step, Catalog, Entry, RestoreStep, FORMAT_VERSION};
use doclib::commands::import::{
    build, document_from, enriched, guess_kind, identifier_for, identifier_prompt, is_supported,
    stored_extension, to_ascii_lower,
};
use doclib::commands::open::opener_for;
use doclib::commands::purge::{orphans, purged_hashes, stale_tombstones};
use doclib::commands::show::{show_fields, Fields};
use doclib::commands::stats::{catalog_stats, top_tags};
use doclib::commands::sync::plan_store;
use doclib::config::Config;
use doclib::metadata::Extracted;
use doclib::model::{Document, Kind};

fn sample(id: &str, title: &str) -> Document {
    Document {
        id: id.to_string(),
        kind: Kind::Book,
        title: title.to_string(),
        authors: Some("Donald E. Knuth".to_string()),
        year: Some(1997),
        publisher: Some("Addison-Wesley".to_string()),
        edition: Some("3rd".to_string()),
        isbn: Some("9780201896831".to_string()),
        journal: None,
        volume: None,
        issue: None,
        pages: None,
        doi: None,
        ext: "pdf".to_string(),
        size: 1024,
        content_hash: format!("hash-{id}"),
        remote_path: format!("ha/hash-{id}.pdf"),
        cached_at: Some("2026-01-01T00:00:00Z".to_string()),
        last_opened: None,
        added_at: "2026-01-01T00:00:00Z".to_string(),
        extra: None,
    }
}

fn strings(v: &[&str]) -> Vec<String> {
    v.iter().map(|s| s.to_string()).collect()
}

#[test]
fn only_document_formats_are_imported() {
    assert!(is_supported(Some("pdf")));
    assert!(is_supported(Some("EPUB")));
    assert!(is_supported(Some("Azw3")));
    assert!(!is_supported(Some("txt")));
    assert!(!is_supported(None));
    assert_eq!(stored_extension(Some("PDF")), "pdf");
    assert_eq!(stored_extension(None), "bin");
    assert_eq!(to_ascii_lower("ÀbC"), "Àbc");
}

#[test]
fn a_doi_or_journal_means_an_article() {
    let mut found = Extracted::empty();
    assert_eq!(guess_kind(&found), Kind::Book);
    found.journal = Some("CACM".to_string());
    assert_eq!(guess_kind(&found), Kind::Article);
    let mut found = Extracted::empty();
    found.doi = Some("10.1/x".to_string());
    found.isbn = Some("123".to_string());
    assert_eq!(guess_kind(&found), Kind::Article);
    assert_eq!(identifier_for(&found, Kind::Article), Some("10.1/x".to_string()));
    assert_eq!(identifier_for(&found, Kind::Book), Some("123".to_string()));
    assert_eq!(identifier_prompt(Kind::Book), "  ISBN (blank to skip lookup)");
}

#[test]
fn a_registry_record_wins_over_embedded_fields() {
    let mut remote = Extracted::empty();
    remote.title = Some("Right Title".to_string());
    let mut found = Extracted::empty();
    found.title = Some("wrong title".to_string());
    found.year = Some(1999);
    let merged = enriched(remote, found);
    assert_eq!(merged.title, Some("Right Title".to_string()));
    assert_eq!(merged.year, Some(1999));
}

#[test]
fn an_entry_without_a_title_is_untitled() {
    let mut found = Extracted::empty();
    found.title = Some("   ".to_string());
    let doc = document_from(
        &found,
        Kind::Book,
        "pdf",
        10,
        "abcd",
        "ab/abcd.pdf".to_string(),
        "id-1".to_string(),
        "2026-01-01T00:00:00Z".to_string(),
    );
    assert_eq!(doc.title, "(untitled)");
    assert_eq!(doc.cached_at, Some("2026-01-01T00:00:00Z".to_string()));
    assert_eq!(doc.added_at, "2026-01-01T00:00:00Z");
    assert!(doc.last_opened.is_none());
}

#[test]
fn a_built_entry_is_stored_under_its_hash() {
    let cfg = Config::default_for_home(Some("/home/you"));
    let mut found = Extracted::empty();
    found.title = Some("A Book".to_string());
    let doc = build(&found, Kind::Book, "pdf", 5, "abcdef", &cfg);
    assert_eq!(doc.remote_path, "ab/abcdef.pdf");
    assert_eq!(doc.content_hash, "abcdef");
    assert_eq!(doc.title, "A Book");
    assert!(doc.cached_at.is_some());
    assert_eq!(doc.id.len(), 36);
    let again = build(&found, Kind::Book, "pdf", 5, "abcdef", &cfg);
    assert_ne!(doc.id, again.id);
}

#[test]
fn editing_keeps_what_is_known_of_the_file() {
    let doc = sample("a", "Old Title");
    let mut fields = to_extracted(&doc);
    assert_eq!(fields.title, Some("Old Title".to_string()));
    fields.title = Some("  ".to_string());
    fields.doi = Some("10.1/y".to_string());
    let updated = apply(&doc, fields, Kind::Article);
    assert_eq!(updated.title, "Old Title");
    assert_eq!(updated.kind, Kind::Article);
    assert_eq!(updated.doi, Some("10.1/y".to_string()));
    assert_eq!(updated.content_hash, doc.content_hash);
    assert_eq!(updated.id, doc.id);
    assert_eq!(lookup_prompt(Kind::Article), "  DOI");
}

#[test]
fn restoring_merges_rather_than_overwrites() {
    assert!(matches!(
        restore_step(sample("a", "T"), true, false, false),
        RestoreStep::AlreadyPresent
    ));
    match restore_step(sample("a", "T"), false, false, false) {
        RestoreStep::Insert(d) => {
            assert_eq!(d.id, "a");
            assert!(d.cached_at.is_none());
            assert_eq!(d.title, "T");
        }
        RestoreStep::AlreadyPresent => panic!("should insert"),
    }
    match restore_step(sample("a", "T"), false, true, true) {
        RestoreStep::Insert(d) => {
            assert_ne!(d.id, "a");
            assert!(d.cached_at.is_some());
        }
        RestoreStep::AlreadyPresent => panic!("should insert"),
    }
}

#[test]
fn a_backup_carries_its_format_version() {
    let catalog = Catalog::new(vec![Entry {
        document: sample("a", "T"),
        tags: strings(&["algorithms"]),
    }]);
    assert_eq!(catalog.format_version, FORMAT_VERSION);
    assert_eq!(catalog.documents.len(), 1);
    assert!(!catalog.is_newer_format());
    let newer = Catalog {
        format_version: FORMAT_VERSION + 1,
        exported_at: String::new(),
        documents: vec![],
    };
    assert!(newer.is_newer_format());
}

#[test]
fn openers_fall_back_in_order() {
    let cfg = Config::default_for_home(Some("/home/you"));
    assert_eq!(opener_for(&cfg, "pdf", Some("zathura")), "okular");
    assert_eq!(opener_for(&cfg, "epub", Some("zathura")), "zathura");
    assert_eq!(opener_for(&cfg, "epub", Some("  ")), "xdg-open");
    assert_eq!(opener_for(&cfg, "epub", None), "xdg-open");
}

#[test]
fn only_unreferenced_files_are_orphans() {
    let listed = strings(&["ab/a.pdf", "cd/c.pdf", "ef/e.pdf"]);
    let live = strings(&["cd/c.pdf"]);
    assert_eq!(orphans(&listed, &live), vec![0, 2]);
    let tombs = strings(&["cd/c.pdf", "zz/z.pdf"]);
    assert_eq!(stale_tombstones(&tombs, &live), vec![0]);
}

#[test]
fn deletion_records_are_kept_until_every_store_was_checked() {
    let records = vec![
        ("ab/a.pdf".to_string(), "a".to_string()),
        ("cd/c.pdf".to_string(), "c".to_string()),
    ];
    let removed = strings(&["cd/c.pdf"]);
    assert_eq!(purged_hashes(&records, &removed, true), strings(&["c"]));
    assert!(purged_hashes(&records, &removed, false).is_empty());
}

#[test]
fn a_deletion_is_remembered_while_a_copy_may_survive() {
    assert_eq!(follow_up(false, 0, 0), FollowUp::Tombstone);
    assert_eq!(follow_up(true, 1, 0), FollowUp::Tombstone);
    assert_eq!(follow_up(true, 0, 2), FollowUp::Tombstone);
    assert_eq!(follow_up(true, 0, 0), FollowUp::ForgetTombstone);
}

#[test]
fn destroying_needs_the_word() {
    assert!(confirmed("destroy"));
    assert!(!confirmed("y"));
    assert!(!confirmed("destroy "));
    assert_eq!(
        database_files("/d/catalog.db"),
        strings(&["/d/catalog.db", "/d/catalog.db-wal", "/d/catalog.db-shm"])
    );
}

#[test]
fn every_gap_is_copied_or_reported() {
    let plan = plan_store(&vec![true, false, false, true], &vec![false, true, false, true]);
    assert_eq!(plan.missing, vec![1, 2]);
    assert_eq!(plan.copy, vec![1]);
    assert_eq!(plan.unfillable, vec![2]);
}

#[test]
fn stats_count_the_gaps() {
    let mut a = sample("a", "A");
    a.last_opened = Some("2026-02-01".to_string());
    let mut b = sample("b", "B");
    b.kind = Kind::Article;
    b.authors = None;
    b.year = Some(2017);
    b.size = -5;
    let mut c = sample("c", "C");
    c.year = None;
    let stats = catalog_stats(&vec![a, b, c]);
    assert_eq!(stats.documents, 3);
    assert_eq!(stats.books, 2);
    assert_eq!(stats.articles, 1);
    assert_eq!(stats.total_bytes, 2048);
    assert_eq!(stats.years, Some((1997, 2017)));
    assert_eq!(stats.opened, 1);
    assert_eq!(stats.no_authors, 1);
    assert_eq!(stats.no_year, 1);
    let empty = catalog_stats(&vec![]);
    assert_eq!(empty.years, None);
}

#[test]
fn only_the_top_tags_are_listed() {
    let counts: Vec<(String, u64)> = (0..12).map(|i| (format!("t{i}"), 12 - i)).collect();
    let (shown, more) = top_tags(&counts);
    assert_eq!(shown.len(), 10);
    assert_eq!(shown[0], ("t0".to_string(), 12));
    assert_eq!(more, 2);
    let (shown, more) = top_tags(&counts[..3].to_vec());
    assert_eq!(shown.len(), 3);
    assert_eq!(more, 0);
}

#[test]
fn fields_align_to_the_widest_label() {
    let mut f = Fields::new();
    f.add("title", Some("  Dune "));
    f.add("authors", Some("   "));
    f.add("last opened", None);
    f.add_owned("year", Some("1965".to_string()));
    assert_eq!(f.lines(), strings(&["title  Dune", "year   1965"]));
}

#[test]
fn show_lists_the_fields_of_the_kind() {
    let doc = sample("a", "TAOCP");
    let fields = show_fields(
        &doc,
        &strings(&["algorithms", "reference"]),
        "1.0 KiB".to_string(),
        None,
        "/lib/ha/hash-a.pdf".to_string(),
    );
    let lines = fields.lines();
    assert_eq!(lines[0], "title        TAOCP");
    assert_eq!(lines[1], "kind         book");
    assert!(lines.contains(&"isbn         9780201896831".to_string()));
    assert!(lines.contains(&"tags         algorithms, reference".to_string()));
    assert!(lines.contains(&"cached       no (fetched on open)".to_string()));
    assert!(lines.contains(&"last opened  never".to_string()));
    assert!(!lines.iter().any(|l| l.starts_with("journal")));
}

#[test]
fn an_edit_that_changes_nothing_keeps_the_document() {
    let doc = sample("a", "TAOCP");
    assert_eq!(apply(&doc, to_extracted(&doc), doc.kind), doc);
}

#[test]
fn each_extension_uses_its_own_entry() {
    let mut cfg = Config::default_for_home(Some("/home/you"));
    cfg.openers = vec![
        ("djvu".to_string(), "evince".to_string()),
        ("pdf".to_string(), "okular".to_string()),
    ];
    assert_eq!(opener_for(&cfg, "djvu", None), "evince");
    assert_eq!(opener_for(&cfg, "pdf", Some("zathura")), "okular");
}

#[test]
fn a_taken_id_is_replaced_by_a_fresh_uuid() {
    match restore_step(sample("a", "T"), false, true, true) {
        RestoreStep::Insert(d) => {
            assert_eq!(d.id.len(), 36);
            assert_eq!(d.id.matches('-').count(), 4);
            assert!(d.cached_at.unwrap().len() >= 25);
        }
        RestoreStep::AlreadyPresent => panic!("should insert"),
    }
}

#[test]
fn restoring_a_backup_merges_entry_by_entry() {
    let mut dup = sample("b", "Second copy of a");
    dup.content_hash = "hash-a".to_string();
    let mut clash = sample("c", "Clashing id");
    clash.id = "x".to_string();
    let entries = vec![
        Entry { document: sample("a", "A"), tags: strings(&["algorithms"]) },
        Entry { document: dup, tags: strings(&[]) },
        Entry { document: sample("known", "Known"), tags: strings(&[]) },
        Entry { document: clash, tags: strings(&["maths"]) },
        Entry { document: sample("d", "D"), tags: strings(&[]) },
    ];
    let hashes = strings(&["hash-known"]);
    let ids = strings(&["x"]);
    let cached = vec![true, true, true, false, false];
    let plan = plan_restore(&hashes, &ids, &cached, entries);
    assert_eq!(plan.len(), 5);
    let first = plan[0].as_ref().unwrap();
    assert_eq!(first.document.id, "a");
    assert_eq!(first.tags, strings(&["algorithms"]));
    assert!(first.document.cached_at.is_some());
    assert!(plan[1].is_none());
    assert!(plan[2].is_none());
    let third = plan[3].as_ref().unwrap();
    assert_ne!(third.document.id, "x");
    assert_eq!(third.document.id.len(), 36);
    assert_eq!(third.document.title, "Clashing id");
    assert_eq!(third.tags, strings(&["maths"]));
    assert!(third.document.cached_at.is_none());
    let last = plan[4].as_ref().unwrap();
    assert_eq!(last.document.id, "d");
    assert!(last.document.cached_at.is_none());
}

#[test]
fn an_identical_copy_is_skipped_and_a_clash_gets_the_next_number() {
    assert_eq!(name_step(1, false, false), NameStep::Use);
    assert_eq!(name_step(1, true, true), NameStep::Skip);
    assert_eq!(name_step(1, true, false), NameStep::Next(2));
    assert_eq!(name_step(2, true, false), NameStep::Next(3));
}
