//! Catalog backup. The stored files can be copied from a store again; the
//! tags and corrected metadata exist nowhere else, so they are written
//! somewhere a human can read and version-control, and restored from there.

use vstd::prelude::*;

use crate::application::utils::now_iso8601;
use crate::commands::import::new_id;
use crate::commands::update::{is_listed, names_view};
use crate::model::Document;

verus! {

/// The backup format this build writes and understands.
pub const FORMAT_VERSION: u32 = 1;

/// A backup: every catalogued document with its tags.
pub struct Catalog {
    pub format_version: u32,
    pub exported_at: String,
    pub documents: Vec<Entry>,
}

/// One document in a backup, with its tags.
pub struct Entry {
    pub document: Document,
    pub tags: Vec<String>,
}

impl Catalog {
    /// A backup of `documents`, in this build's format, stamped now.
    pub fn new(documents: Vec<Entry>) -> (r: Catalog)
        ensures
            r.format_version == FORMAT_VERSION,
            r.documents@ == documents@,
    {
        Catalog { format_version: FORMAT_VERSION, exported_at: now_iso8601(), documents }
    }

    /// Whether the backup was written by a newer build, whose format this
    /// one may not fully understand.
    pub fn is_newer_format(&self) -> (r: bool)
        ensures
            r == (self.format_version > FORMAT_VERSION),
    {
        self.format_version > FORMAT_VERSION
    }
}

/// What restoring does with one backed-up document.
pub enum RestoreStep {
    /// Its bytes are catalogued already; the entry is left alone.
    AlreadyPresent,
    /// The document to insert.
    Insert(Document),
}

/// Restoring merges rather than overwrites: a document whose content hash
/// is catalogued already is left alone. Otherwise it is inserted, under a
/// fresh identifier if its own is taken (identifiers are only unique within
/// one catalog), and marked cached only if this machine's cache holds its
/// bytes, which is a fact about this machine and not something a backup can
/// assert.
pub fn restore_step(doc: Document, hash_known: bool, id_taken: bool, cached: bool) -> (r:
    RestoreStep)
    ensures
        hash_known <==> r is AlreadyPresent,
        r matches RestoreStep::Insert(d) ==> {
            &&& d == (Document { id: d.id, cached_at: d.cached_at, ..doc })
            &&& !id_taken ==> d.id == doc.id
            &&& id_taken ==> d.id@.len() == 36
            &&& d.cached_at is Some <==> cached
            &&& d.cached_at matches Some(t) ==> t@.len() >= 25
        },
{
    if hash_known {
        return RestoreStep::AlreadyPresent;
    }
    let mut document = doc;
    if id_taken {
        document.id = new_id();
    }
    document.cached_at = if cached {
        Some(now_iso8601())
    } else {
        None
    };
    RestoreStep::Insert(document)
}

proof fn lemma_push_contains(s: Seq<Seq<char>>, a: Seq<char>, x: Seq<char>)
    ensures
        s.push(a).contains(x) <==> (s.contains(x) || x == a),
{
    if s.contains(x) {
        let k = choose|k: int| 0 <= k < s.len() && s[k] == x;
        assert(s.push(a)[k] == x);
    }
    if x == a {
        assert(s.push(a)[s.len() as int] == x);
    }
    if s.push(a).contains(x) {
        let k = choose|k: int| 0 <= k < s.push(a).len() && s.push(a)[k] == x;
        if k < s.len() {
            assert(s[k] == x);
        }
    }
}

/// The content of entry `i` is catalogued before it comes up: the catalog
/// held it before the restore, or an earlier entry of the backup has it.
pub open spec fn hash_seen(catalogued: Seq<Seq<char>>, entries: Seq<Entry>, i: int) -> bool {
    catalogued.contains(entries[i].document.content_hash@) || exists|j: int|
        0 <= j < i && (#[trigger] entries[j]).document.content_hash@
            == entries[i].document.content_hash@
}

/// `o` is an entry inserted under `id`.
pub open spec fn inserted_under(o: Option<Entry>, id: Seq<char>) -> bool {
    match o {
        Some(e) => e.document.id@ == id,
        None => false,
    }
}

/// `id` is taken when entry `i` comes up: the catalog held it before the
/// restore, or an entry restored earlier was inserted under it.
pub open spec fn id_seen(catalogued: Seq<Seq<char>>, restored: Seq<Option<Entry>>, i: int, id: Seq<char>) -> bool {
    catalogued.contains(id) || exists|j: int|
        0 <= j < i && inserted_under(#[trigger] restored[j], id)
}

/// `e` is what restoring `entry` inserts: the same document and tags, with
/// its own identifier unless that is taken (then a fresh 36-character one),
/// and marked cached, with a timestamp, exactly when this machine's cache
/// holds its bytes.
pub open spec fn restored_as(entry: Entry, e: Entry, cached: bool, id_taken: bool) -> bool {
    &&& e.tags == entry.tags
    &&& e.document == (Document { id: e.document.id, cached_at: e.document.cached_at, ..entry.document })
    &&& !id_taken ==> e.document.id == entry.document.id
    &&& id_taken ==> e.document.id@.len() == 36
    &&& e.document.cached_at is Some <==> cached
    &&& e.document.cached_at matches Some(t) ==> t@.len() >= 25
}

/// Restoring a whole backup into a catalog that holds the content hashes
/// `hashes` and the identifiers `ids`; `cached[i]` says whether this
/// machine's cache holds the bytes of entry `i`. Entry by entry, in order:
/// `None` where the content is catalogued already, before the restore or by
/// an earlier entry, so the entry is left alone; otherwise the entry to
/// insert. Nothing catalogued is touched: the result only adds entries, and
/// only under content hashes not catalogued before.
pub fn plan_restore(hashes: &Vec<String>, ids: &Vec<String>, cached: &Vec<bool>, entries: Vec<Entry>) -> (r: Vec<Option<Entry>>)
    requires
        cached@.len() == entries@.len(),
    ensures
        r@.len() == entries@.len(),
        forall|i: int| 0 <= i < r@.len() ==> ((#[trigger] r@[i]) is None <==> hash_seen(names_view(hashes@), entries@, i)),
        forall|i: int| 0 <= i < r@.len() ==> ((#[trigger] r@[i]) matches Some(e) ==> restored_as(
            entries@[i],
            e,
            cached@[i],
            id_seen(names_view(ids@), r@, i, entries@[i].document.id@),
        )),
{
    let ghost all = entries@;
    let n = entries.len();
    let mut rest = entries;
    let mut pending: Vec<Entry> = Vec::new();
    while rest.len() > 0
        invariant
            all.len() == n,
            rest@ == all.take(rest@.len() as int),
            pending@.len() + rest@.len() == n,
            forall|j: int| 0 <= j < pending@.len() ==> #[trigger] pending@[j] == all[n - 1 - j],
        decreases rest.len(),
    {
        let ghost k = rest@.len();
        let e = rest.pop().unwrap();
        assert(e == all[k - 1]);
        assert(rest@ =~= all.take(k - 1));
        pending.push(e);
    }
    let mut seen_hashes: Vec<String> = hashes.clone();
    let mut taken_ids: Vec<String> = ids.clone();
    let mut out: Vec<Option<Entry>> = Vec::new();
    let mut i: usize = 0;
    while i < n
        invariant
            all.len() == n,
            i <= n,
            out@.len() == i,
            pending@.len() == n - i,
            cached@.len() == n,
            forall|j: int| 0 <= j < pending@.len() ==> #[trigger] pending@[j] == all[n - 1 - j],
            forall|x: Seq<char>| names_view(seen_hashes@).contains(x) <==> (names_view(hashes@).contains(x) || exists|j: int| 0 <= j < i && (#[trigger] all[j]).document.content_hash@ == x),
            forall|x: Seq<char>| names_view(taken_ids@).contains(x) <==> id_seen(names_view(ids@), out@, i as int, x),
            forall|j: int| 0 <= j < i ==> ((#[trigger] out@[j]) is None <==> hash_seen(names_view(hashes@), all, j)),
            forall|j: int| 0 <= j < i ==> ((#[trigger] out@[j]) matches Some(e) ==> restored_as(
                all[j],
                e,
                cached@[j],
                id_seen(names_view(ids@), out@, j, all[j].document.id@),
            )),
        decreases n - i,
    {
        let entry = pending.pop().unwrap();
        assert(entry == all[i as int]);
        let hash_known = is_listed(&seen_hashes, &entry.document.content_hash);
        let ghost before = out@;
        let ghost old_hashes = seen_hashes@;
        let ghost old_ids = taken_ids@;
        let hash = entry.document.content_hash.clone();
        seen_hashes.push(hash);
        assert(names_view(seen_hashes@) =~= names_view(old_hashes).push(all[i as int].document.content_hash@));
        assert forall|x: Seq<char>| names_view(seen_hashes@).contains(x) <==> (names_view(hashes@).contains(x)
            || exists|j: int| 0 <= j < i + 1 && (#[trigger] all[j]).document.content_hash@ == x) by {
            lemma_push_contains(names_view(old_hashes), all[i as int].document.content_hash@, x);
            if exists|j: int| 0 <= j < i + 1 && (#[trigger] all[j]).document.content_hash@ == x {
                let j = choose|j: int| 0 <= j < i + 1 && (#[trigger] all[j]).document.content_hash@ == x;
                if j < i {
                    assert(exists|j: int| 0 <= j < i && (#[trigger] all[j]).document.content_hash@ == x);
                }
            }
            if names_view(old_hashes).contains(x) && !names_view(hashes@).contains(x) {
                let j = choose|j: int| 0 <= j < i && (#[trigger] all[j]).document.content_hash@ == x;
                assert(0 <= j < i + 1 && all[j].document.content_hash@ == x);
            }
        }
        if hash_known {
            out.push(None);
            assert(names_view(taken_ids@) == names_view(old_ids));
            assert forall|x: Seq<char>| names_view(taken_ids@).contains(x) <==> id_seen(names_view(ids@), out@, i as int + 1, x) by {
                if id_seen(names_view(ids@), out@, i as int + 1, x) && !names_view(ids@).contains(x) {
                    let j = choose|j: int| 0 <= j < i + 1 && inserted_under(#[trigger] out@[j], x);
                    assert(out@[j] == before[j]);
                }
                if id_seen(names_view(ids@), before, i as int, x) && !names_view(ids@).contains(x) {
                    let j = choose|j: int| 0 <= j < i && inserted_under(#[trigger] before[j], x);
                    assert(out@[j] == before[j]);
                }
            }
        } else {
            let id_taken = is_listed(&taken_ids, &entry.document.id);
            let Entry { document, tags } = entry;
            match restore_step(document, false, id_taken, cached[i]) {
                RestoreStep::Insert(d) => {
                    let id = d.id.clone();
                    taken_ids.push(id);
                    out.push(Some(Entry { document: d, tags }));
                    assert(names_view(taken_ids@) =~= names_view(old_ids).push(out@[i as int]->Some_0.document.id@));
                    assert forall|x: Seq<char>| names_view(taken_ids@).contains(x) <==> id_seen(names_view(ids@), out@, i as int + 1, x) by {
                        lemma_push_contains(names_view(old_ids), out@[i as int]->Some_0.document.id@, x);
                        if x == out@[i as int]->Some_0.document.id@ {
                            assert(inserted_under(out@[i as int], x));
                        }
                        if id_seen(names_view(ids@), out@, i as int + 1, x) && !names_view(ids@).contains(x) {
                            let j = choose|j: int| 0 <= j < i + 1 && inserted_under(#[trigger] out@[j], x);
                            if j < i {
                                assert(out@[j] == before[j]);
                                assert(id_seen(names_view(ids@), before, i as int, x));
                            }
                        }
                        if names_view(old_ids).contains(x) && !names_view(ids@).contains(x) {
                            assert(id_seen(names_view(ids@), before, i as int, x));
                            let j = choose|j: int| 0 <= j < i && inserted_under(#[trigger] before[j], x);
                            assert(out@[j] == before[j]);
                        }
                    }
                },
                RestoreStep::AlreadyPresent => {
                    out.push(None);
                },
            }
        }
        assert forall|j: int| 0 <= j < i + 1 implies ((#[trigger] out@[j]) is None <==> hash_seen(names_view(hashes@), all, j)) by {
            if j < i {
                assert(out@[j] == before[j]);
            }
        }
        assert forall|j: int| 0 <= j < i + 1 && (#[trigger] out@[j]) is Some implies restored_as(
            all[j],
            out@[j]->Some_0,
            cached@[j],
            id_seen(names_view(ids@), out@, j, all[j].document.id@),
        ) by {
            if j < i {
                assert(out@[j] == before[j]);
                assert(id_seen(names_view(ids@), out@, j, all[j].document.id@) == id_seen(names_view(ids@), before, j, all[j].document.id@)) by {
                    if id_seen(names_view(ids@), out@, j, all[j].document.id@) && !names_view(ids@).contains(all[j].document.id@) {
                        let m = choose|m: int| 0 <= m < j && inserted_under(#[trigger] out@[m], all[j].document.id@);
                        assert(out@[m] == before[m]);
                    }
                    if id_seen(names_view(ids@), before, j, all[j].document.id@) && !names_view(ids@).contains(all[j].document.id@) {
                        let m = choose|m: int| 0 <= m < j && inserted_under(#[trigger] before[m], all[j].document.id@);
                        assert(out@[m] == before[m]);
                    }
                }
            } else {
                assert(id_seen(names_view(ids@), out@, j, all[j].document.id@) == id_seen(names_view(ids@), before, j, all[j].document.id@)) by {
                    if id_seen(names_view(ids@), out@, j, all[j].document.id@) && !names_view(ids@).contains(all[j].document.id@) {
                        let m = choose|m: int| 0 <= m < j && inserted_under(#[trigger] out@[m], all[j].document.id@);
                        assert(out@[m] == before[m]);
                    }
                    if id_seen(names_view(ids@), before, j, all[j].document.id@) && !names_view(ids@).contains(all[j].document.id@) {
                        let m = choose|m: int| 0 <= m < j && inserted_under(#[trigger] before[m], all[j].document.id@);
                        assert(out@[m] == before[m]);
                    }
                }
            }
        }
        i += 1;
    }
    out
}

} // verus!
