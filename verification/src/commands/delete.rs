//! `doclib delete`: what becomes of a deleted document's stored copies.

use vstd::prelude::*;

verus! {

/// What is recorded once a document's catalog entry goes.
#[derive(Debug, Clone, Copy, PartialEq, Eq)]
pub enum FollowUp {
    /// A copy may still be out there: remember the deletion, so `update`
    /// does not copy the file back and `purge` can finish the job.
    Tombstone,
    /// Every copy is gone: any earlier record of the deletion can go.
    ForgetTombstone,
}

/// Whether a stored copy may outlive the entry: always without purging,
/// and with purging while some store was unavailable or refused the removal.
pub open spec fn copies_may_survive(purge: bool, unavailable: usize, failed: usize) -> bool {
    !purge || unavailable > 0 || failed > 0
}

/// Decides the follow-up to deleting a document: without `purge` the
/// stored copies are kept, so the deletion is recorded; with it, the record
/// is kept only when `unavailable` stores could not be reached or `failed`
/// removals did not go through.
pub fn follow_up(purge: bool, unavailable: usize, failed: usize) -> (r: FollowUp)
    ensures
        r == FollowUp::Tombstone <==> copies_may_survive(purge, unavailable, failed),
        r == FollowUp::ForgetTombstone <==> !copies_may_survive(purge, unavailable, failed),
{
    if !purge || unavailable > 0 || failed > 0 {
        FollowUp::Tombstone
    } else {
        FollowUp::ForgetTombstone
    }
}

} // verus!
