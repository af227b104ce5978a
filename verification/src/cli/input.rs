//! What the `add` command makes of each answer typed at its prompts.

use vstd::prelude::*;

use crate::commands::copy::author_names;
use crate::commands::update::names_view;
use crate::domain::entities::{
    BookMetadata, DocumentType, LectureMetadata, NotesMetadata, PaperMetadata,
};
use crate::domain::errors::DomainError;
use crate::domain::utils::validate_tags;
use crate::text::{
    blank, chars_of, is_blank, split_chars, split_on, string_of, trim, trim_chars,
};

verus! {

/// The trimmed, non-blank items of a comma-separated answer.
pub open spec fn comma_items(s: Seq<char>) -> Seq<Seq<char>> {
    author_names(split_on(s, ','))
}

/// Splits a comma-separated answer into its trimmed, non-blank items.
pub fn split_list(input: &str) -> (r: Vec<String>)
    ensures
        names_view(r@) == comma_items(input@),
{
    let cs = chars_of(input);
    let pieces = split_chars(&cs, ',');
    let ghost ps = split_on(input@, ',');
    let mut out: Vec<String> = Vec::new();
    let mut i: usize = 0;
    while i < pieces.len()
        invariant
            i <= pieces@.len(),
            pieces@.len() == ps.len(),
            forall|k: int| 0 <= k < pieces@.len() ==> (#[trigger] pieces@[k])@ == ps[k],
            names_view(out@) == author_names(ps.take(i as int)),
        decreases pieces.len() - i,
    {
        assert(ps.take(i as int + 1).drop_last() =~= ps.take(i as int));
        let t = trim_chars(&pieces[i]);
        if t.len() > 0 {
            let ghost before = names_view(out@);
            out.push(string_of(&t));
            assert(names_view(out@) =~= before.push(trim(ps[i as int])));
        }
        i += 1;
    }
    assert(ps.take(pieces@.len() as int) =~= ps);
    out
}

/// The authors typed, comma-separated; `None` when there are none.
pub fn parse_authors(input: &str) -> (r: Option<Vec<String>>)
    ensures
        comma_items(input@).len() == 0 <==> r is None,
        r matches Some(v) ==> names_view(v@) == comma_items(input@),
{
    let items = split_list(input);
    if items.len() == 0 {
        None
    } else {
        Some(items)
    }
}

/// The error that refuses tag `t` for not being in kebab case.
pub open spec fn refuses_tag(e: DomainError, t: Seq<char>) -> bool {
    match e {
        DomainError::InvalidTagFormat(x) => x@ == t,
        _ => false,
    }
}

/// The tags typed, comma-separated, if they are all in kebab case;
/// otherwise the error naming the first that is not, and the prompt asks
/// again. A blank answer means no tags.
pub fn parse_tags(input: &str) -> (r: Result<Vec<String>, DomainError>)
    ensures
        r matches Ok(v) ==> names_view(v@) == comma_items(input@),
        r is Ok <==> {
            let items = comma_items(input@);
            forall|k: int| 0 <= k < items.len() ==> crate::domain::utils::is_kebab_tag(
                #[trigger] items[k],
            )
        },
        r matches Err(e) ==> exists|i: int|
            0 <= i < comma_items(input@).len() && refuses_tag(e, comma_items(input@)[i])
                && !crate::domain::utils::is_kebab_tag(comma_items(input@)[i]) && forall|k: int|
                0 <= k < i ==> crate::domain::utils::is_kebab_tag(#[trigger] comma_items(input@)[k]),
{
    let items = split_list(input);
    match validate_tags(items.as_slice()) {
        Ok(()) => {
            assert forall|k: int| 0 <= k < comma_items(input@).len() implies crate::domain::utils::is_kebab_tag(
                #[trigger] comma_items(input@)[k],
            ) by {
                assert(comma_items(input@)[k] == items@[k]@);
            }
            Ok(items)
        },
        Err(e) => {
            let ghost i = choose|i: int|
                0 <= i < items@.len() && e == DomainError::InvalidTagFormat(items@[i])
                    && !crate::domain::utils::is_kebab_tag(items@[i]@) && forall|k: int|
                    0 <= k < i ==> crate::domain::utils::is_kebab_tag(#[trigger] items@[k]@);
            assert(comma_items(input@)[i] == items@[i]@);
            assert forall|k: int| 0 <= k < i implies crate::domain::utils::is_kebab_tag(
                #[trigger] comma_items(input@)[k],
            ) by {
                assert(comma_items(input@)[k] == items@[k]@);
            }
            Err(e)
        },
    }
}

/// An optional free-text answer: a blank one means none, any other is kept
/// as typed.
pub fn optional_text(input: &str) -> (r: Option<String>)
    ensures
        is_blank(input@) <==> r is None,
        r matches Some(s) ==> s@ == input@,
{
    if blank(input) {
        None
    } else {
        Some(input.to_owned())
    }
}

/// A title answer, or `None` when it is blank and has to be asked again.
pub fn title_answer(input: &str) -> (r: Option<String>)
    ensures
        is_blank(input@) <==> r is None,
        r matches Some(s) ==> s@ == input@,
{
    optional_text(input)
}

/// What a year answer says.
#[derive(Debug, Clone, Copy, PartialEq, Eq)]
pub enum YearAnswer {
    /// Left blank: no year.
    Blank,
    /// A year between 1000 and 2100.
    Year(i32),
    /// Anything else; the prompt asks again.
    Invalid,
}

/// Whether a character is an ASCII digit.
pub open spec fn is_digit(c: char) -> bool {
    '0' <= c && c <= '9'
}

/// The value of a string of ASCII digits.
pub open spec fn digits_value(s: Seq<char>) -> int
    decreases s.len(),
{
    if s.len() == 0 {
        0
    } else {
        digits_value(s.drop_last()) * 10 + (s.last() as int - '0' as int)
    }
}

/// The number `str::parse::<i32>` reads from text, as far as a year needs:
/// an optional `+` then digits (a `-` only starts a negative number, never a
/// year), or `None`.
pub open spec fn unsigned_value(t: Seq<char>) -> Option<int> {
    let body = if t.len() > 0 && t[0] == '+' {
        t.skip(1)
    } else {
        t
    };
    if body.len() > 0 && all_digits(body) {
        Some(digits_value(body))
    } else {
        None
    }
}

/// The answer a year prompt gets: blank, a year between 1000 and 2100
/// (surrounding whitespace ignored), or invalid.
pub open spec fn year_answer(input: Seq<char>) -> YearAnswer {
    let t = trim(input);
    if t.len() == 0 {
        YearAnswer::Blank
    } else {
        match unsigned_value(t) {
            Some(v) => if 1000 <= v && v <= 2100 {
                YearAnswer::Year(v as i32)
            } else {
                YearAnswer::Invalid
            },
            None => YearAnswer::Invalid,
        }
    }
}

/// Whether every character is an ASCII digit.
pub open spec fn all_digits(b: Seq<char>) -> bool {
    forall|k: int| 0 <= k < b.len() ==> is_digit(#[trigger] b[k])
}

/// A value past every year stands for all of them.
pub open spec fn capped(v: int) -> int {
    if v > 2100 {
        2101
    } else {
        v
    }
}

/// Reads a run of ASCII digits; the count stops past 2100, so it never
/// overflows.
fn read_digits(b: &Vec<char>) -> (r: Option<u64>)
    ensures
        all_digits(b@) <==> r is Some,
        r matches Some(v) ==> v == capped(digits_value(b@)),
{
    let mut value: u64 = 0;
    let mut i: usize = 0;
    while i < b.len()
        invariant
            i <= b@.len(),
            all_digits(b@.take(i as int)),
            value == capped(digits_value(b@.take(i as int))),
            digits_value(b@.take(i as int)) >= 0,
        decreases b.len() - i,
    {
        let c = b[i];
        if !('0' <= c && c <= '9') {
            assert(!is_digit(b@[i as int]));
            return None;
        }
        assert(b@.take(i as int + 1).drop_last() =~= b@.take(i as int));
        let d = (c as u32 - '0' as u32) as u64;
        if value <= 2100 {
            let next = value * 10 + d;
            value = if next > 2100 {
                2101
            } else {
                next
            };
        }
        i += 1;
    }
    assert(b@.take(i as int) =~= b@);
    Some(value)
}

/// Reads a year answer.
pub fn parse_year(input: &str) -> (r: YearAnswer)
    ensures
        r == year_answer(input@),
{
    let cs = chars_of(input);
    let t = trim_chars(&cs);
    if t.len() == 0 {
        return YearAnswer::Blank;
    }
    let start: usize = if t[0] == '+' {
        1
    } else {
        0
    };
    let mut body: Vec<char> = Vec::new();
    let mut j: usize = start;
    while j < t.len()
        invariant
            start <= j <= t@.len(),
            body@ == t@.subrange(start as int, j as int),
        decreases t.len() - j,
    {
        body.push(t[j]);
        assert(t@.subrange(start as int, j as int + 1) =~= t@.subrange(start as int, j as int).push(
            t@[j as int],
        ));
        j += 1;
    }
    assert(body@ =~= (if t@.len() > 0 && t@[0] == '+' {
        t@.skip(1)
    } else {
        t@
    }));
    if body.len() == 0 {
        return YearAnswer::Invalid;
    }
    match read_digits(&body) {
        None => YearAnswer::Invalid,
        Some(v) => if 1000 <= v && v <= 2100 {
            YearAnswer::Year(v as i32)
        } else {
            YearAnswer::Invalid
        },
    }
}

/// The document type chosen from the list `book`, `paper`, `lecture`,
/// `notes`, with no metadata yet.
pub fn doc_type_choice(index: usize) -> (r: DocumentType)
    requires
        index < 4,
    ensures
        index == 0 ==> r == DocumentType::Book(
            BookMetadata { authors: None, edition: None, publisher: None, isbn: None },
        ),
        index == 1 ==> r == DocumentType::Paper(
            PaperMetadata { authors: None, journal: None, volume: None, issue: None, doi: None },
        ),
        index == 2 ==> r == DocumentType::Lecture(
            LectureMetadata { event: None, institution: None, location: None, topic: None },
        ),
        index == 3 ==> r == DocumentType::Notes(NotesMetadata {  }),
{
    if index == 0 {
        DocumentType::Book(BookMetadata { authors: None, edition: None, publisher: None, isbn: None })
    } else if index == 1 {
        DocumentType::Paper(
            PaperMetadata { authors: None, journal: None, volume: None, issue: None, doi: None },
        )
    } else if index == 2 {
        DocumentType::Lecture(
            LectureMetadata { event: None, institution: None, location: None, topic: None },
        )
    } else {
        DocumentType::Notes(NotesMetadata {  })
    }
}

} // verus!
