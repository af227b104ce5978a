//! `doclib edit`: a catalog entry's fields offered for editing, and the
//! edited fields put back.

use vstd::prelude::*;

use crate::metadata::Extracted;
use crate::model::{Document, Kind};
use crate::text::{blank, copy_opt, is_blank};

verus! {

/// A document's bibliographic fields.
pub open spec fn extracted_of(doc: Document) -> Extracted {
    Extracted {
        title: Some(doc.title),
        authors: doc.authors,
        publisher: doc.publisher,
        edition: doc.edition,
        year: doc.year,
        isbn: doc.isbn,
        doi: doc.doi,
        journal: doc.journal,
        volume: doc.volume,
        issue: doc.issue,
        pages: doc.pages,
    }
}

/// A document's bibliographic fields, ready to be edited.
pub fn to_extracted(doc: &Document) -> (r: Extracted)
    ensures
        r == extracted_of(*doc),
{
    Extracted {
        title: Some(doc.title.clone()),
        authors: copy_opt(&doc.authors),
        publisher: copy_opt(&doc.publisher),
        edition: copy_opt(&doc.edition),
        year: doc.year,
        isbn: copy_opt(&doc.isbn),
        doi: copy_opt(&doc.doi),
        journal: copy_opt(&doc.journal),
        volume: copy_opt(&doc.volume),
        issue: copy_opt(&doc.issue),
        pages: copy_opt(&doc.pages),
    }
}

/// The title after an edit: the edited one, unless it was cleared.
pub open spec fn edited_title(doc: Document, t: Option<String>) -> String {
    match t {
        Some(s) => if is_blank(s@) {
            doc.title
        } else {
            s
        },
        None => doc.title,
    }
}

/// The document with its kind and bibliographic fields replaced.
pub open spec fn applied(doc: Document, fields: Extracted, kind: Kind) -> Document {
    Document {
        kind,
        title: edited_title(doc, fields.title),
        authors: fields.authors,
        year: fields.year,
        publisher: fields.publisher,
        edition: fields.edition,
        isbn: fields.isbn,
        journal: fields.journal,
        volume: fields.volume,
        issue: fields.issue,
        pages: fields.pages,
        doi: fields.doi,
        ..doc
    }
}

/// An edit takes every bibliographic field and the kind from what was
/// edited, the title too unless it was left blank or out, and keeps all
/// the catalog knows of the file itself; putting back a document's own
/// fields unchanged gives the document back.
pub proof fn lemma_apply_takes_the_edits(doc: Document, fields: Extracted, kind: Kind)
    ensures
        applied(doc, fields, kind).kind == kind,
        applied(doc, fields, kind).authors == fields.authors,
        applied(doc, fields, kind).year == fields.year,
        applied(doc, fields, kind).publisher == fields.publisher,
        applied(doc, fields, kind).edition == fields.edition,
        applied(doc, fields, kind).isbn == fields.isbn,
        applied(doc, fields, kind).journal == fields.journal,
        applied(doc, fields, kind).volume == fields.volume,
        applied(doc, fields, kind).issue == fields.issue,
        applied(doc, fields, kind).pages == fields.pages,
        applied(doc, fields, kind).doi == fields.doi,
        fields.title matches Some(t) ==> (!is_blank(t@) ==> applied(doc, fields, kind).title == t)
            && (is_blank(t@) ==> applied(doc, fields, kind).title == doc.title),
        fields.title is None ==> applied(doc, fields, kind).title == doc.title,
        applied(doc, fields, kind).id == doc.id,
        applied(doc, fields, kind).ext == doc.ext,
        applied(doc, fields, kind).size == doc.size,
        applied(doc, fields, kind).content_hash == doc.content_hash,
        applied(doc, fields, kind).remote_path == doc.remote_path,
        applied(doc, fields, kind).cached_at == doc.cached_at,
        applied(doc, fields, kind).last_opened == doc.last_opened,
        applied(doc, fields, kind).added_at == doc.added_at,
        applied(doc, fields, kind).extra == doc.extra,
        applied(doc, extracted_of(doc), doc.kind) == doc,
{
}

/// The document with its kind and bibliographic fields replaced by the
/// edited ones; a cleared title keeps the old one, and what the catalog
/// knows of the file itself stays as it was.
pub fn apply(doc: &Document, fields: Extracted, kind: Kind) -> (r: Document)
    ensures
        r == applied(*doc, fields, kind),
{
    let title = match fields.title {
        Some(t) => if blank(t.as_str()) {
            doc.title.clone()
        } else {
            t
        },
        None => doc.title.clone(),
    };
    Document {
        id: doc.id.clone(),
        kind,
        title,
        authors: fields.authors,
        year: fields.year,
        publisher: fields.publisher,
        edition: fields.edition,
        isbn: fields.isbn,
        journal: fields.journal,
        volume: fields.volume,
        issue: fields.issue,
        pages: fields.pages,
        doi: fields.doi,
        ext: doc.ext.clone(),
        size: doc.size,
        content_hash: doc.content_hash.clone(),
        remote_path: doc.remote_path.clone(),
        cached_at: copy_opt(&doc.cached_at),
        last_opened: copy_opt(&doc.last_opened),
        added_at: doc.added_at.clone(),
        extra: copy_opt(&doc.extra),
    }
}

/// The prompt for the identifier to look a document up again by.
pub fn lookup_prompt(kind: Kind) -> (r: &'static str)
    ensures
        r@ == match kind {
            Kind::Article => "  DOI"@,
            Kind::Book => "  ISBN"@,
        },
{
    match kind {
        Kind::Article => "  DOI",
        Kind::Book => "  ISBN",
    }
}

/// An edit that changes nothing leaves the document exactly as it was.
pub proof fn lemma_unchanged_edit_keeps_document(doc: Document)
    ensures
        applied(doc, extracted_of(doc), doc.kind) == doc,
{
}

} // verus!
