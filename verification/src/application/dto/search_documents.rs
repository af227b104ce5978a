use vstd::prelude::*;

verus! {

/// Free text to look for in titles.
pub struct SearchDocumentsInput {
    pub query: String,
}

} // verus!
