use vstd::prelude::*;

use crate::cli::utils::{can_truncate, truncate, truncated};
use crate::commands::update::names_view;
use crate::text::{
    decimal, decimal_of, pad_left, pad_right, padded, padded_left, repeat_char, repeated,
    string_of,
};
use crate::words::{join, join_with};

verus! {

/// Column widths of the command line's tables and boxes.
pub struct CliPrinterConfig {
    pub summary_total_width: usize,
    pub list_title_width: usize,
    pub list_tags_width: usize,
    pub list_type_width: usize,
    pub search_title_width: usize,
    pub search_type_width: usize,
}

impl Default for CliPrinterConfig {
    fn default() -> (r: Self)
        ensures
            r.summary_total_width == 42,
            r.list_title_width == 50,
            r.list_tags_width == 50,
            r.list_type_width == 10,
            r.search_title_width == 50,
            r.search_type_width == 10,
    {
        Self {
            summary_total_width: 42,
            list_title_width: 50,
            list_tags_width: 50,
            list_type_width: 10,
            search_title_width: 50,
            search_type_width: 10,
        }
    }
}

/// Lays out what the command line shows.
pub struct CliPrinter {
    config: CliPrinterConfig,
}

impl CliPrinter {
    pub closed spec fn config(&self) -> CliPrinterConfig {
        self.config
    }

    /// The widths this printer lays out with.
    pub fn layout(&self) -> (r: &CliPrinterConfig)
        ensures
            *r == self.config(),
    {
        &self.config
    }

    pub fn new(config: CliPrinterConfig) -> (r: Self)
        ensures
            r.config() == config,
    {
        Self { config }
    }

    #[allow(clippy::should_implement_trait)]
    pub fn with_default_config() -> (r: Self)
        ensures
            r.config().summary_total_width == 42,
            r.config().list_title_width == 50,
            r.config().list_tags_width == 50,
            r.config().list_type_width == 10,
            r.config().search_title_width == 50,
            r.config().search_type_width == 10,
    {
        Self::new(CliPrinterConfig::default())
    }
}

/// A list's tags as one cell: `-` for none.
pub open spec fn tags_cell(tags: Seq<Seq<char>>) -> Seq<char> {
    if tags.len() == 0 {
        "-"@
    } else {
        join_with(tags, ", "@)
    }
}

/// One boxed summary line: the label, the value padded to the content
/// width, and the box's right edge.
pub open spec fn boxed(label: Seq<char>, value: Seq<char>) -> Seq<char> {
    label + value + " \u{2502}"@
}

/// An optional text as a summary cell: truncated to the width and padded,
/// or `-`.
pub open spec fn text_cell(v: Option<Seq<char>>, w: int) -> Seq<char> {
    match v {
        Some(s) => padded(truncated(s, w as nat), w),
        None => padded("-"@, w),
    }
}

pub open spec fn opt_str(v: Option<&str>) -> Option<Seq<char>> {
    match v {
        Some(s) => Some(s@),
        None => None,
    }
}

/// Whether every optional text can be cut to the width.
pub open spec fn opt_can_truncate(v: Option<&str>, w: nat) -> bool {
    match v {
        Some(s) => can_truncate(s@, w),
        None => true,
    }
}

/// The summary box shown before a document is saved.
pub open spec fn summary_text(
    total: int,
    doc_type: Seq<char>,
    title: Seq<char>,
    authors: Option<Seq<Seq<char>>>,
    year: Option<i32>,
    source: Option<Seq<char>>,
    url: Option<Seq<char>>,
    tags: Seq<Seq<char>>,
    notes: Option<Seq<char>>,
) -> Seq<Seq<char>> {
    let w = total - 12;
    let top = seq![
        Seq::empty(),
        "\u{250c}"@ + repeated('\u{2500}', total) + "\u{2510}"@,
        "\u{2502}  Add Document "@ + repeated(' ', total - 15) + "\u{2502}"@,
        "\u{251c}"@ + repeated('\u{2500}', total) + "\u{2524}"@,
        boxed("\u{2502}  Type:    "@, padded(doc_type, w)),
        boxed("\u{2502}  Title:   "@, padded(truncated(title, w as nat), w)),
    ];
    let with_authors = match authors {
        Some(a) => top.push(
            boxed("\u{2502}  Authors: "@, padded(truncated(join_with(a, ", "@), w as nat), w)),
        ),
        None => top,
    };
    with_authors + seq![
        boxed("\u{2502}  Year:    "@, match year {
            Some(y) => padded_left(decimal(y as int), w),
            None => padded("-"@, w),
        }),
        boxed("\u{2502}  Source:  "@, text_cell(source, w)),
        boxed("\u{2502}  URL:     "@, text_cell(url, w)),
        boxed("\u{2502}  Tags:    "@, if tags.len() == 0 {
            padded("-"@, w)
        } else {
            padded(truncated(join_with(tags, ", "@), w as nat), w)
        }),
        boxed("\u{2502}  Notes:   "@, text_cell(notes, w)),
        "\u{2514}"@ + repeated('\u{2500}', total) + "\u{2518}"@,
        Seq::empty(),
    ]
}

fn text_cell_of(v: Option<&str>, w: usize) -> (r: String)
    requires
        opt_can_truncate(v, w as nat),
    ensures
        r@ == text_cell(opt_str(v), w as int),
{
    match v {
        Some(s) => {
            let t = truncate(s, w);
            pad_right(t.as_str(), w)
        },
        None => pad_right("-", w),
    }
}

fn boxed_line(label: &str, value: String) -> (r: String)
    ensures
        r@ == boxed(label@, value@),
{
    let mut r = label.to_owned();
    r.append(value.as_str());
    r.append(" \u{2502}");
    r
}

fn rule_line(left: &str, n: usize, right: &str) -> (r: String)
    ensures
        r@ == left@ + repeated('\u{2500}', n as int) + right@,
{
    let mut r = left.to_owned();
    let line = repeat_char('\u{2500}', n);
    r.append(line.as_str());
    r.append(right);
    r
}

impl CliPrinter {
    /// The list's heading and the rule under it.
    pub fn list_header(&self) -> (r: Vec<String>)
        ensures
            names_view(r@) == seq![
                padded("Title"@, self.config().list_title_width as int) + " "@ + padded(
                    "Type"@,
                    self.config().list_type_width as int,
                ) + " "@ + padded("Tags"@, self.config().list_tags_width as int),
                repeated('-', self.config().list_title_width as int) + " "@ + repeated(
                    '-',
                    self.config().list_type_width as int,
                ) + " "@ + repeated('-', self.config().list_tags_width as int),
            ],
    {
        let tw = self.config.list_title_width;
        let tyw = self.config.list_type_width;
        let tgw = self.config.list_tags_width;
        let mut head = pad_right("Title", tw);
        head.append(" ");
        head.append(pad_right("Type", tyw).as_str());
        head.append(" ");
        head.append(pad_right("Tags", tgw).as_str());
        let mut rule = repeat_char('-', tw);
        rule.append(" ");
        rule.append(repeat_char('-', tyw).as_str());
        rule.append(" ");
        rule.append(repeat_char('-', tgw).as_str());
        let r = vec![head, rule];
        assert(names_view(r@) =~= seq![r@[0]@, r@[1]@]);
        r
    }

    /// One document in the list: its title and tags cut to their columns.
    pub fn list_row(&self, title: &str, doc_type: &str, tags: &Vec<String>) -> (r: String)
        requires
            can_truncate(title@, self.config().list_title_width as nat),
            can_truncate(tags_cell(names_view(tags@)), self.config().list_tags_width as nat),
        ensures
            r@ == padded(
                truncated(title@, self.config().list_title_width as nat),
                self.config().list_title_width as int,
            ) + " "@ + padded(doc_type@, self.config().list_type_width as int) + " "@ + padded(
                truncated(tags_cell(names_view(tags@)), self.config().list_tags_width as nat),
                self.config().list_tags_width as int,
            ),
    {
        let tw = self.config.list_title_width;
        let tyw = self.config.list_type_width;
        let tgw = self.config.list_tags_width;
        let tags_text = if tags.len() == 0 {
            String::from_str("-")
        } else {
            join(tags, ", ")
        };
        let mut r = pad_right(truncate(title, tw).as_str(), tw);
        r.append(" ");
        r.append(pad_right(doc_type, tyw).as_str());
        r.append(" ");
        r.append(pad_right(truncate(tags_text.as_str(), tgw).as_str(), tgw).as_str());
        r
    }

    /// The search results' heading and the rule under it.
    pub fn search_header(&self) -> (r: Vec<String>)
        ensures
            names_view(r@) == seq![
                padded("ID"@, 4) + " "@ + padded("Title"@, self.config().search_title_width as int)
                    + " "@ + padded("Type"@, self.config().search_type_width as int),
                repeated('-', 4) + " "@ + repeated('-', self.config().search_title_width as int)
                    + " "@ + repeated('-', self.config().search_type_width as int),
            ],
    {
        let tw = self.config.search_title_width;
        let tyw = self.config.search_type_width;
        let mut head = pad_right("ID", 4);
        head.append(" ");
        head.append(pad_right("Title", tw).as_str());
        head.append(" ");
        head.append(pad_right("Type", tyw).as_str());
        let mut rule = repeat_char('-', 4);
        rule.append(" ");
        rule.append(repeat_char('-', tw).as_str());
        rule.append(" ");
        rule.append(repeat_char('-', tyw).as_str());
        let r = vec![head, rule];
        assert(names_view(r@) =~= seq![r@[0]@, r@[1]@]);
        r
    }

    /// One search result: its id, its title cut to the column, its type.
    pub fn search_row(&self, id: i64, title: &str, doc_type: &str) -> (r: String)
        requires
            can_truncate(title@, self.config().search_title_width as nat),
        ensures
            r@ == padded(decimal(id as int), 4) + " "@ + padded(
                truncated(title@, self.config().search_title_width as nat),
                self.config().search_title_width as int,
            ) + " "@ + padded(doc_type@, self.config().search_type_width as int),
    {
        let tw = self.config.search_title_width;
        let tyw = self.config.search_type_width;
        let digits = decimal_of(id);
        let id_text = string_of(&digits);
        let mut r = pad_right(id_text.as_str(), 4);
        r.append(" ");
        r.append(pad_right(truncate(title, tw).as_str(), tw).as_str());
        r.append(" ");
        r.append(pad_right(doc_type, tyw).as_str());
        r
    }

    /// The line shown when the list is empty.
    pub fn no_documents(&self) -> (r: &'static str)
        ensures
            r@ == "No documents found."@,
    {
        "No documents found."
    }

    /// The line shown when a search finds nothing.
    pub fn no_matches(&self) -> (r: &'static str)
        ensures
            r@ == "No matching documents found."@,
    {
        "No matching documents found."
    }

    /// The lines of the box that sums up a document before it is saved.
    pub fn document_summary(
        &self,
        doc_type: &str,
        title: &str,
        authors: Option<&Vec<String>>,
        year: Option<i32>,
        source: Option<&str>,
        url: Option<&str>,
        tags: &Vec<String>,
        notes: Option<&str>,
    ) -> (r: Vec<String>)
        requires
            self.config().summary_total_width >= 15,
            can_truncate(title@, (self.config().summary_total_width - 12) as nat),
            authors matches Some(a) ==> can_truncate(
                join_with(names_view(a@), ", "@),
                (self.config().summary_total_width - 12) as nat,
            ),
            opt_can_truncate(source, (self.config().summary_total_width - 12) as nat),
            opt_can_truncate(url, (self.config().summary_total_width - 12) as nat),
            tags@.len() > 0 ==> can_truncate(
                join_with(names_view(tags@), ", "@),
                (self.config().summary_total_width - 12) as nat,
            ),
            opt_can_truncate(notes, (self.config().summary_total_width - 12) as nat),
        ensures
            names_view(r@) == summary_text(
                self.config().summary_total_width as int,
                doc_type@,
                title@,
                match authors {
                    Some(a) => Some(names_view(a@)),
                    None => None,
                },
                year,
                opt_str(source),
                opt_str(url),
                names_view(tags@),
                opt_str(notes),
            ),
    {
        let total = self.config.summary_total_width;
        let w = total - 12;
        let mut out: Vec<String> = Vec::new();
        out.push(String::new());
        out.push(rule_line("\u{250c}", total, "\u{2510}"));
        let mut head = String::from_str("\u{2502}  Add Document ");
        head.append(repeat_char(' ', total - 15).as_str());
        head.append("\u{2502}");
        out.push(head);
        out.push(rule_line("\u{251c}", total, "\u{2524}"));
        out.push(boxed_line("\u{2502}  Type:    ", pad_right(doc_type, w)));
        out.push(boxed_line("\u{2502}  Title:   ", pad_right(truncate(title, w).as_str(), w)));
        if let Some(a) = authors {
            let joined = join(a, ", ");
            out.push(
                boxed_line("\u{2502}  Authors: ", pad_right(truncate(joined.as_str(), w).as_str(), w)),
            );
        }
        let year_cell = match year {
            Some(y) => {
                let digits = decimal_of(y as i64);
                pad_left(string_of(&digits).as_str(), w)
            },
            None => pad_right("-", w),
        };
        out.push(boxed_line("\u{2502}  Year:    ", year_cell));
        out.push(boxed_line("\u{2502}  Source:  ", text_cell_of(source, w)));
        out.push(boxed_line("\u{2502}  URL:     ", text_cell_of(url, w)));
        let tags_cell_text = if tags.len() == 0 {
            pad_right("-", w)
        } else {
            let joined = join(tags, ", ");
            pad_right(truncate(joined.as_str(), w).as_str(), w)
        };
        out.push(boxed_line("\u{2502}  Tags:    ", tags_cell_text));
        out.push(boxed_line("\u{2502}  Notes:   ", text_cell_of(notes, w)));
        out.push(rule_line("\u{2514}", total, "\u{2518}"));
        out.push(String::new());
        assert(names_view(out@) =~= summary_text(
            total as int,
            doc_type@,
            title@,
            match authors {
                Some(a) => Some(names_view(a@)),
                None => None,
            },
            year,
            opt_str(source),
            opt_str(url),
            names_view(tags@),
            opt_str(notes),
        ));
        out
    }
}

} // verus!
