use vstd::prelude::*;

verus! {

/// One free-form key/value pair attached to a document.
#[derive(Debug, Clone, PartialEq)]
pub struct Metadata {
    pub document_id: i64,
    pub key: String,
    pub value: String,
}

impl Metadata {
    pub fn new(document_id: i64, key: String, value: String) -> (r: Self)
        ensures
            r.document_id == document_id,
            r.key == key,
            r.value == value,
    {
        Self { document_id, key, value }
    }
}

} // verus!
