use vstd::prelude::*;

verus! {

/// Which document to remove.
pub struct DeleteDocumentInput {
    pub id: i64,
}

} // verus!
