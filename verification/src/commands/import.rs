//! `doclib import`: which files are documents, what kind each is taken for,
//! and the catalog entry made for it.

use vstd::prelude::*;

use crate::application::utils::now_iso8601;
use crate::config::{can_shard, file_name_of, shard_of, Config};
use crate::metadata::{filled, Extracted};
use crate::model::{Document, Kind};
use crate::text::{blank, chars_of, copy_opt, is_blank, str_equal, string_of};

verus! {

/// A fresh random identifier: `uuid::Uuid::new_v4`, written out with its
/// `Display` impl, which writes the hyphenated form of 36 characters. The
/// value is random, so nothing more is claimed of it.
#[verifier::external_body]
pub(crate) fn new_id() -> (r: String)
    ensures
        r@.len() == 36,
{
    uuid::Uuid::new_v4().to_string()
}

/// ASCII letters lowered; every other character kept.
pub open spec fn ascii_lower(c: char) -> char {
    if 'A' <= c && c <= 'Z' {
        ((c as u8) + 32) as char
    } else {
        c
    }
}

pub open spec fn ascii_lowered(s: Seq<char>) -> Seq<char> {
    s.map_values(|c: char| ascii_lower(c))
}

/// `str::to_ascii_lowercase`.
pub fn to_ascii_lower(s: &str) -> (r: String)
    ensures
        r@ == ascii_lowered(s@),
{
    let cs = chars_of(s);
    let mut out: Vec<char> = Vec::new();
    let mut i: usize = 0;
    while i < cs.len()
        invariant
            i <= cs@.len(),
            cs@ == s@,
            out@ == ascii_lowered(cs@.take(i as int)),
        decreases cs.len() - i,
    {
        let c = cs[i];
        let l = if 'A' <= c && c <= 'Z' {
            ((c as u8) + 32) as char
        } else {
            c
        };
        out.push(l);
        assert(out@ =~= ascii_lowered(cs@.take(i as int + 1)));
        i += 1;
    }
    assert(cs@.take(i as int) =~= s@);
    string_of(&out)
}

/// The extensions of the document formats imported.
pub open spec fn supported_ext(e: Seq<char>) -> bool {
    e == "pdf"@ || e == "epub"@ || e == "djvu"@ || e == "mobi"@ || e == "azw3"@ || e == "chm"@
}

/// The formats imported are exactly PDF, EPUB, DjVu, MOBI, AZW3 and CHM,
/// whatever the case of the extension: each of the six is taken in lower
/// case and in capitals, and any other extension is not.
pub proof fn lemma_supported_formats(e: Seq<char>)
    ensures
        supported_ext(ascii_lowered("pdf"@)),
        supported_ext(ascii_lowered("epub"@)),
        supported_ext(ascii_lowered("djvu"@)),
        supported_ext(ascii_lowered("mobi"@)),
        supported_ext(ascii_lowered("azw3"@)),
        supported_ext(ascii_lowered("chm"@)),
        supported_ext(ascii_lowered("PDF"@)),
        supported_ext(ascii_lowered("EPUB"@)),
        supported_ext(ascii_lowered("DJVU"@)),
        supported_ext(ascii_lowered("MOBI"@)),
        supported_ext(ascii_lowered("AZW3"@)),
        supported_ext(ascii_lowered("CHM"@)),
        supported_ext(ascii_lowered(e)) ==> ascii_lowered(e) == "pdf"@ || ascii_lowered(e) == "epub"@
            || ascii_lowered(e) == "djvu"@ || ascii_lowered(e) == "mobi"@ || ascii_lowered(e)
            == "azw3"@ || ascii_lowered(e) == "chm"@,
{
    reveal_strlit("pdf");
    reveal_strlit("epub");
    reveal_strlit("djvu");
    reveal_strlit("mobi");
    reveal_strlit("azw3");
    reveal_strlit("chm");
    reveal_strlit("PDF");
    reveal_strlit("EPUB");
    reveal_strlit("DJVU");
    reveal_strlit("MOBI");
    reveal_strlit("AZW3");
    reveal_strlit("CHM");
    assert(ascii_lowered("pdf"@) =~= "pdf"@);
    assert(ascii_lowered("epub"@) =~= "epub"@);
    assert(ascii_lowered("djvu"@) =~= "djvu"@);
    assert(ascii_lowered("mobi"@) =~= "mobi"@);
    assert(ascii_lowered("azw3"@) =~= "azw3"@);
    assert(ascii_lowered("chm"@) =~= "chm"@);
    assert(ascii_lowered("PDF"@) =~= "pdf"@);
    assert(ascii_lowered("EPUB"@) =~= "epub"@);
    assert(ascii_lowered("DJVU"@) =~= "djvu"@);
    assert(ascii_lowered("MOBI"@) =~= "mobi"@);
    assert(ascii_lowered("AZW3"@) =~= "azw3"@);
    assert(ascii_lowered("CHM"@) =~= "chm"@);
}

/// Whether a file with this extension (any case) is a document to import; a
/// file with none is not.
pub fn is_supported(ext: Option<&str>) -> (r: bool)
    ensures
        r == match ext {
            Some(e) => supported_ext(ascii_lowered(e@)),
            None => false,
        },
{
    match ext {
        Some(e) => {
            let l = to_ascii_lower(e);
            let t = l.as_str();
            str_equal(t, "pdf") || str_equal(t, "epub") || str_equal(t, "djvu") || str_equal(
                t,
                "mobi",
            ) || str_equal(t, "azw3") || str_equal(t, "chm")
        },
        None => false,
    }
}

/// The extension a document is stored under: its own, lowered, or `bin`.
pub fn stored_extension(ext: Option<&str>) -> (r: String)
    ensures
        r@ == match ext {
            Some(e) => ascii_lowered(e@),
            None => ascii_lowered("bin"@),
        },
{
    match ext {
        Some(e) => to_ascii_lower(e),
        None => to_ascii_lower("bin"),
    }
}

/// A DOI or a journal means an article; anything else is taken for a book.
pub fn guess_kind(found: &Extracted) -> (r: Kind)
    ensures
        r == (if found.doi is Some || found.journal is Some {
            Kind::Article
        } else {
            Kind::Book
        }),
{
    if found.doi.is_some() || found.journal.is_some() {
        Kind::Article
    } else {
        Kind::Book
    }
}

/// The identifier a registry is asked with: the DOI of an article, the
/// ISBN of a book.
pub fn identifier_for(found: &Extracted, kind: Kind) -> (r: Option<String>)
    ensures
        r == match kind {
            Kind::Article => found.doi,
            Kind::Book => found.isbn,
        },
{
    match kind {
        Kind::Article => copy_opt(&found.doi),
        Kind::Book => copy_opt(&found.isbn),
    }
}

/// The prompt for an identifier to look up when the file carries none.
pub fn identifier_prompt(kind: Kind) -> (r: &'static str)
    ensures
        r@ == match kind {
            Kind::Article => "  DOI (blank to skip lookup)"@,
            Kind::Book => "  ISBN (blank to skip lookup)"@,
        },
{
    match kind {
        Kind::Article => "  DOI (blank to skip lookup)",
        Kind::Book => "  ISBN (blank to skip lookup)",
    }
}

/// A registry's record wins over the fields embedded in a file, which are
/// frequently wrong; the file's fields only fill what the record lacks.
/// Editing a document merges a fresh lookup into its fields the same way.
pub fn enriched(remote: Extracted, found: Extracted) -> (r: Extracted)
    ensures
        r == filled(remote, found),
{
    let mut merged = remote;
    merged.merge_from(found);
    merged
}

/// The title an entry gets: the one found, unless it is missing or blank.
pub open spec fn entry_title(t: Option<String>) -> Seq<char> {
    match t {
        Some(s) => if is_blank(s@) {
            "(untitled)"@
        } else {
            s@
        },
        None => "(untitled)"@,
    }
}

/// The entry's fields that come from what was found and from the file.
pub open spec fn entry_matches(
    d: Document,
    found: Extracted,
    kind: Kind,
    ext: Seq<char>,
    size: i64,
    hash: Seq<char>,
) -> bool {
    &&& d.kind == kind
    &&& d.title@ == entry_title(found.title)
    &&& d.authors == found.authors
    &&& d.year == found.year
    &&& d.publisher == found.publisher
    &&& d.edition == found.edition
    &&& d.isbn == found.isbn
    &&& d.journal == found.journal
    &&& d.volume == found.volume
    &&& d.issue == found.issue
    &&& d.pages == found.pages
    &&& d.doi == found.doi
    &&& d.ext@ == ext
    &&& d.size == size
    &&& d.content_hash@ == hash
    &&& d.last_opened is None
    &&& d.extra is None
}

/// The catalog entry for an imported file, given its identifier and the
/// time: cached now, never opened, stored under its content hash.
pub fn document_from(
    found: &Extracted,
    kind: Kind,
    ext: &str,
    size: i64,
    hash: &str,
    remote_path: String,
    id: String,
    now: String,
) -> (r: Document)
    ensures
        entry_matches(r, *found, kind, ext@, size, hash@),
        r.id == id,
        r.remote_path == remote_path,
        r.cached_at == Some(now),
        r.added_at == now,
{
    let title = match &found.title {
        Some(t) => if blank(t.as_str()) {
            String::from_str("(untitled)")
        } else {
            t.clone()
        },
        None => String::from_str("(untitled)"),
    };
    Document {
        id,
        kind,
        title,
        authors: copy_opt(&found.authors),
        year: found.year,
        publisher: copy_opt(&found.publisher),
        edition: copy_opt(&found.edition),
        isbn: copy_opt(&found.isbn),
        journal: copy_opt(&found.journal),
        volume: copy_opt(&found.volume),
        issue: copy_opt(&found.issue),
        pages: copy_opt(&found.pages),
        doi: copy_opt(&found.doi),
        ext: ext.to_owned(),
        size,
        content_hash: hash.to_owned(),
        remote_path,
        cached_at: Some(now.clone()),
        last_opened: None,
        added_at: now,
        extra: None,
    }
}

/// The catalog entry for an imported file: a fresh identifier, stored at
/// the path its content hash gives, cached and added now.
pub fn build(found: &Extracted, kind: Kind, ext: &str, size: i64, hash: &str, cfg: &Config) -> (r:
    Document)
    requires
        can_shard(hash@),
    ensures
        entry_matches(r, *found, kind, ext@, size, hash@),
        r.remote_path@ == shard_of(hash@) + "/"@ + file_name_of(hash@, ext@),
        r.cached_at is Some,
{
    let id = new_id();
    let stored = cfg.stored_path(hash, ext);
    let cached_at = now_iso8601();
    let added_at = now_iso8601();
    let mut doc = document_from(found, kind, ext, size, hash, stored, id, added_at);
    doc.cached_at = Some(cached_at);
    doc
}

} // verus!
