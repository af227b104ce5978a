//! `doclib destroy`: the confirmation it asks for, and the files that make
//! up the catalog database.

use vstd::prelude::*;

use crate::commands::update::names_view;
use crate::text::str_equal;

verus! {

/// Typing `y` is too easy for something this final.
pub open spec fn confirmation_word() -> Seq<char> {
    "destroy"@
}

/// Whether the answer confirms destroying the library: exactly `destroy`.
pub fn confirmed(answer: &str) -> (r: bool)
    ensures
        r == (answer@ == confirmation_word()),
{
    str_equal(answer, "destroy")
}

/// The database file and the two files SQLite keeps beside it in WAL mode.
pub fn database_files(db: &str) -> (r: Vec<String>)
    ensures
        names_view(r@) == seq![db@, db@ + "-wal"@, db@ + "-shm"@],
{
    let mut wal = db.to_owned();
    wal.append("-wal");
    let mut shm = db.to_owned();
    shm.append("-shm");
    let r = vec![db.to_owned(), wal, shm];
    assert(names_view(r@) =~= seq![db@, db@ + "-wal"@, db@ + "-shm"@]);
    r
}

} // verus!
