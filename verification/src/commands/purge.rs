//! `doclib purge`: which stored files no catalog entry points at, and which
//! deletion records can be let go.

use vstd::prelude::*;

use crate::commands::update::names_view;
use crate::words::listed;

verus! {

/// Positions of the listed files whose path no catalog entry uses.
pub open spec fn orphan_positions(listed_paths: Seq<Seq<char>>, live: Seq<Seq<char>>) -> Seq<int>
    decreases listed_paths.len(),
{
    if listed_paths.len() == 0 {
        Seq::empty()
    } else {
        let rest = orphan_positions(listed_paths.drop_last(), live);
        if live.contains(listed_paths.last()) {
            rest
        } else {
            rest.push(listed_paths.len() - 1)
        }
    }
}

/// The positions in `listed_paths` of the files that are orphans: stored,
/// but referenced by no catalog entry (`live` holds the stored paths the
/// catalog uses). These come from deletions without purging and from
/// imports that failed after the file was stored.
pub fn orphans(listed_paths: &Vec<String>, live: &Vec<String>) -> (r: Vec<usize>)
    ensures
        r@.len() == orphan_positions(names_view(listed_paths@), names_view(live@)).len(),
        forall|k: int|
            0 <= k < r@.len() ==> #[trigger] r@[k] as int == orphan_positions(
                names_view(listed_paths@),
                names_view(live@),
            )[k],
{
    let ghost all = names_view(listed_paths@);
    let ghost lv = names_view(live@);
    let mut out: Vec<usize> = Vec::new();
    let mut i: usize = 0;
    while i < listed_paths.len()
        invariant
            i <= listed_paths@.len(),
            all == names_view(listed_paths@),
            lv == names_view(live@),
            out@.len() == orphan_positions(all.take(i as int), lv).len(),
            forall|k: int|
                0 <= k < out@.len() ==> #[trigger] out@[k] as int == orphan_positions(
                    all.take(i as int),
                    lv,
                )[k],
        decreases listed_paths.len() - i,
    {
        assert(all.take(i as int + 1).drop_last() =~= all.take(i as int));
        if !listed(live, listed_paths[i].as_str()) {
            out.push(i);
        }
        i += 1;
    }
    assert(all.take(i as int) =~= all);
    out
}

/// The catalog never loses a file to a purge: no orphan is a path that a
/// catalog entry uses.
pub proof fn lemma_orphans_are_unreferenced(listed_paths: Seq<Seq<char>>, live: Seq<Seq<char>>, k: int)
    requires
        0 <= k < orphan_positions(listed_paths, live).len(),
    ensures
        0 <= orphan_positions(listed_paths, live)[k] < listed_paths.len(),
        !live.contains(listed_paths[orphan_positions(listed_paths, live)[k]]),
    decreases listed_paths.len(),
{
    let rest = orphan_positions(listed_paths.drop_last(), live);
    if k < rest.len() {
        lemma_orphans_are_unreferenced(listed_paths.drop_last(), live, k);
    }
}

/// Positions of the deletion records whose path the catalog uses again.
pub open spec fn stale_positions(tomb_paths: Seq<Seq<char>>, live: Seq<Seq<char>>) -> Seq<int>
    decreases tomb_paths.len(),
{
    if tomb_paths.len() == 0 {
        Seq::empty()
    } else {
        let rest = stale_positions(tomb_paths.drop_last(), live);
        if live.contains(tomb_paths.last()) {
            rest.push(tomb_paths.len() - 1)
        } else {
            rest
        }
    }
}

/// The deletion records (by their stored path) that describe nothing any
/// more because the path is catalogued again. A record is deliberately not
/// let go merely because no store listed the file: an unmounted disk lists
/// as empty.
pub fn stale_tombstones(tomb_paths: &Vec<String>, live: &Vec<String>) -> (r: Vec<usize>)
    ensures
        r@.len() == stale_positions(names_view(tomb_paths@), names_view(live@)).len(),
        forall|k: int|
            0 <= k < r@.len() ==> #[trigger] r@[k] as int == stale_positions(
                names_view(tomb_paths@),
                names_view(live@),
            )[k],
{
    let ghost all = names_view(tomb_paths@);
    let ghost lv = names_view(live@);
    let mut out: Vec<usize> = Vec::new();
    let mut i: usize = 0;
    while i < tomb_paths.len()
        invariant
            i <= tomb_paths@.len(),
            all == names_view(tomb_paths@),
            lv == names_view(live@),
            out@.len() == stale_positions(all.take(i as int), lv).len(),
            forall|k: int|
                0 <= k < out@.len() ==> #[trigger] out@[k] as int == stale_positions(
                    all.take(i as int),
                    lv,
                )[k],
        decreases tomb_paths.len() - i,
    {
        assert(all.take(i as int + 1).drop_last() =~= all.take(i as int));
        if listed(live, tomb_paths[i].as_str()) {
            out.push(i);
        }
        i += 1;
    }
    assert(all.take(i as int) =~= all);
    out
}

/// The content hashes of the deletion records whose stored file was
/// removed, in record order: `(path, hash)` records, `removed` the removed
/// paths.
pub open spec fn purged_of(records: Seq<(Seq<char>, Seq<char>)>, removed: Seq<Seq<char>>) -> Seq<
    Seq<char>,
>
    decreases records.len(),
{
    if records.len() == 0 {
        Seq::empty()
    } else {
        let rest = purged_of(records.drop_last(), removed);
        if removed.contains(records.last().0) {
            rest.push(records.last().1)
        } else {
            rest
        }
    }
}

pub open spec fn records_view(records: Seq<(String, String)>) -> Seq<(Seq<char>, Seq<char>)> {
    records.map_values(|r: (String, String)| (r.0@, r.1@))
}

/// The deletion records that a purge lets go: those whose file it removed,
/// and only when every store was checked, since a disconnected store could
/// still hold the file.
pub fn purged_hashes(records: &Vec<(String, String)>, removed: &Vec<String>, all_stores_checked: bool) -> (r:
    Vec<String>)
    ensures
        !all_stores_checked ==> r@.len() == 0,
        all_stores_checked ==> names_view(r@) == purged_of(
            records_view(records@),
            names_view(removed@),
        ),
{
    let mut out: Vec<String> = Vec::new();
    if !all_stores_checked {
        return out;
    }
    let ghost all = records_view(records@);
    let ghost rm = names_view(removed@);
    let mut i: usize = 0;
    while i < records.len()
        invariant
            i <= records@.len(),
            all == records_view(records@),
            rm == names_view(removed@),
            names_view(out@) == purged_of(all.take(i as int), rm),
        decreases records.len() - i,
    {
        assert(all.take(i as int + 1).drop_last() =~= all.take(i as int));
        if listed(removed, records[i].0.as_str()) {
            let ghost before = names_view(out@);
            out.push(records[i].1.clone());
            assert(names_view(out@) =~= before.push(all[i as int].1));
        }
        i += 1;
    }
    assert(all.take(i as int) =~= all);
    out
}

} // verus!
