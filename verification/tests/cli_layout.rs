use doclib::cli::input::{
    doc_type_choice, optional_text, parse_authors, parse_tags, parse_year, split_list,
    title_answer, YearAnswer,
};
use doclib::cli::printer::{CliPrinter, CliPrinterConfig};
use doclib::cli::utils::truncate;
use doclib::domain::entities::DocumentType;
use doclib::domain::errors::DomainError;
use doclib::words::{join, lines_of, split_words};

fn strings(v: &[&str]) -> Vec<String> {
    v.iter().map(|s| s.to_string()).collect()
}

fn narrow() -> CliPrinter {
    CliPrinter::new(CliPrinterConfig {
        summary_total_width: 20,
        list_title_width: 8,
        list_tags_width: 6,
        list_type_width: 5,
        search_title_width: 8,
        search_type_width: 5,
    })
}

#[test]
fn list_columns_are_padded_and_cut() {
    let p = narrow();
    assert_eq!(
        p.list_header(),
        strings(&["Title    Type  Tags  ", "-------- ----- ------"])
    );
    assert_eq!(
        p.list_row("A Long Title", "book", &strings(&["rust", "cli"])),
        "A Lon... book  rus..."
    );
    assert_eq!(p.list_row("Short", "paper", &vec![]), "Short    paper -     ");
}

#[test]
fn search_rows_show_the_id() {
    let p = narrow();
    assert_eq!(
        p.search_header(),
        strings(&["ID   Title    Type ", "---- -------- -----"])
    );
    assert_eq!(p.search_row(7, "Dune", "book"), "7    Dune     book ");
    assert_eq!(p.search_row(-12345, "Dune", "book"), "-12345 Dune     book ");
}

#[test]
fn empty_results_have_a_message() {
    let p = CliPrinter::with_default_config();
    assert_eq!(p.no_documents(), "No documents found.");
    assert_eq!(p.no_matches(), "No matching documents found.");
}

#[test]
fn the_summary_box_lines_up() {
    let p = narrow();
    let lines = p.document_summary(
        "book",
        "A Title That Is Long",
        Some(&strings(&["Ann"])),
        Some(2024),
        None,
        Some("https://x.org"),
        &vec![],
        None,
    );
    assert_eq!(lines.len(), 14);
    assert_eq!(lines[0], "");
    assert_eq!(lines[1], format!("┌{}┐", "─".repeat(20)));
    assert_eq!(lines[2], format!("│  Add Document {}│", " ".repeat(5)));
    assert_eq!(lines[4], "│  Type:    book     │");
    assert_eq!(lines[5], "│  Title:   A Tit... │");
    assert_eq!(lines[6], "│  Authors: Ann      │");
    assert_eq!(lines[7], "│  Year:        2024 │");
    assert_eq!(lines[8], "│  Source:  -        │");
    assert_eq!(lines[9], "│  URL:     https... │");
    assert_eq!(lines[10], "│  Tags:    -        │");
    assert_eq!(lines[12], format!("└{}┘", "─".repeat(20)));
    assert_eq!(lines[13], "");
}

#[test]
fn truncation_marks_the_cut() {
    assert_eq!(truncate("abcdef", 6), "abcdef");
    assert_eq!(truncate("abcdefg", 6), "abc...");
    assert_eq!(truncate("abcdefg", 2), "...");
}

#[test]
fn comma_lists_are_trimmed_and_blank_items_dropped() {
    assert_eq!(split_list(" Ann , ,Bob,"), strings(&["Ann", "Bob"]));
    assert_eq!(parse_authors("  "), None);
    assert_eq!(parse_authors(", ,"), None);
    assert_eq!(parse_authors("Ann, Bob"), Some(strings(&["Ann", "Bob"])));
}

#[test]
fn tags_must_be_kebab_case() {
    assert_eq!(parse_tags("rust, programming-lang").unwrap(), strings(&["rust", "programming-lang"]));
    assert_eq!(parse_tags("   ").unwrap(), Vec::<String>::new());
    assert_eq!(
        parse_tags("rust, Bad Tag"),
        Err(DomainError::InvalidTagFormat("Bad Tag".to_string()))
    );
}

#[test]
fn years_between_1000_and_2100_are_accepted() {
    assert_eq!(parse_year("  "), YearAnswer::Blank);
    assert_eq!(parse_year(" 2024 "), YearAnswer::Year(2024));
    assert_eq!(parse_year("+1999"), YearAnswer::Year(1999));
    assert_eq!(parse_year("1000"), YearAnswer::Year(1000));
    assert_eq!(parse_year("2100"), YearAnswer::Year(2100));
    assert_eq!(parse_year("999"), YearAnswer::Invalid);
    assert_eq!(parse_year("2101"), YearAnswer::Invalid);
    assert_eq!(parse_year("-2000"), YearAnswer::Invalid);
    assert_eq!(parse_year("20x4"), YearAnswer::Invalid);
    assert_eq!(parse_year("+"), YearAnswer::Invalid);
    assert_eq!(parse_year("99999999999999999999999"), YearAnswer::Invalid);
}

#[test]
fn blank_answers_mean_none() {
    assert_eq!(optional_text("  "), None);
    assert_eq!(optional_text(" Amazon "), Some(" Amazon ".to_string()));
    assert_eq!(title_answer(""), None);
    assert_eq!(title_answer("Dune"), Some("Dune".to_string()));
}

#[test]
fn the_type_list_maps_to_kinds() {
    assert!(matches!(doc_type_choice(0), DocumentType::Book(_)));
    assert!(matches!(doc_type_choice(1), DocumentType::Paper(_)));
    assert!(matches!(doc_type_choice(2), DocumentType::Lecture(_)));
    assert!(matches!(doc_type_choice(3), DocumentType::Notes(_)));
}

#[test]
fn lines_words_and_joins_follow_std() {
    for text in ["a\nb", "a\r\nb\n", "", "\n", "x\r", "a\n\nb"] {
        let expected: Vec<String> = text.lines().map(|l| l.to_string()).collect();
        assert_eq!(lines_of(text), expected, "lines of {text:?}");
    }
    for text in ["  a  b ", "", "one", "\ta\u{3000}b"] {
        let expected: Vec<String> = text.split_whitespace().map(|w| w.to_string()).collect();
        assert_eq!(split_words(text), expected, "words of {text:?}");
    }
    assert_eq!(join(&strings(&["a", "b", "c"]), ", "), "a, b, c");
    assert_eq!(join(&vec![], ", "), "");
}

#[test]
fn the_first_tag_not_in_kebab_case_is_named() {
    assert_eq!(
        parse_tags("rust, Bad Tag, Worse_Tag"),
        Err(DomainError::InvalidTagFormat("Bad Tag".to_string()))
    );
}
