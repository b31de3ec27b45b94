use vstd::prelude::*;

use crate::files::{spec_dirs_has, spec_dirs_has_prefix, FileID, Storage};
use crate::seqs::{lemma_filter_singleton, lemma_filter_subset};
use crate::store::{file_ids_unique, FileRecord, Store};

verus! {

/// Whether a metadata row is past its expiration at `now`.
pub open spec fn spec_expired(f: FileRecord, now: i64) -> bool {
    f.expiration_time < now
}

/// Whether one of the first `bound` rows is an expired row carrying this
/// identifier.
pub open spec fn spec_expired_id_prefix(
    files: Seq<FileRecord>,
    bound: int,
    id: u64,
    now: i64,
) -> bool {
    exists|i: int|
        0 <= i < bound && (#[trigger] files[i]).id == id && files[i].expiration_time < now
}

/// Whether some expired row carries this identifier.
pub open spec fn spec_expired_id(files: Seq<FileRecord>, id: u64, now: i64) -> bool {
    spec_expired_id_prefix(files, files.len() as int, id, now)
}

/// The rows one reclamation pass keeps.
pub open spec fn spec_files_kept(files: Seq<FileRecord>, now: i64) -> Seq<FileRecord> {
    files.filter(|f: FileRecord| f.expiration_time >= now)
}

/// Decide whether one row is reclaimed this cycle.
pub fn is_expired(f: &FileRecord, now: i64) -> (r: bool)
    ensures
        r == spec_expired(*f, now),
{
    f.expiration_time < now
}

/// Decide one row's fate in the live loop, where the storage
/// collaborator's removal can fail: a row leaves the store only when it
/// is expired and its storage was actually removed.  An unexpired row, or
/// an expired one whose removal failed, stays so the next cycle retries;
/// one row's outcome never touches another's.
pub fn keep_row(f: &FileRecord, now: i64, storage_removed: bool) -> (r: bool)
    ensures
        r == !(spec_expired(*f, now) && storage_removed),
{
    !(is_expired(f, now) && storage_removed)
}

/// One reclamation pass: every row past its expiration loses first its
/// storage directory and then its metadata row; every other resource is
/// left fully intact.  In the live system the storage collaborator's
/// removal can fail; the caller then keeps that row so the next cycle
/// retries, and one row's failure never aborts the pass — here the
/// in-memory storage model always succeeds, so exactly the expired rows
/// leave.
pub fn run_reclamation_cycle(store: &mut Store, storage: &mut Storage, now: i64)
    requires
        old(store).wf(),
        old(storage).wf(),
    ensures
        final(store).users@ == old(store).users@,
        final(store).tokens@ == old(store).tokens@,
        final(store).files@ == spec_files_kept(old(store).files@, now),
        final(store).wf(),
        final(storage).wf(),
        forall|d: u64| #[trigger]
            final(storage).spec_has(d) <==> (old(storage).spec_has(d) && !spec_expired_id(
                old(store).files@,
                d,
                now,
            )),
{
    let ghost pred = |f: FileRecord| f.expiration_time >= now;
    let ghost full = store.files@;
    let ghost dirs0 = storage.dirs@;
    let n = store.files.len();
    let mut kept: Vec<FileRecord> = Vec::new();
    let mut i: usize = 0;
    proof {
        reveal(Seq::filter);
        assert(full.take(0) =~= Seq::<FileRecord>::empty());
    }
    while i < n
        invariant
            i <= n,
            n == store.files@.len(),
            full == store.files@,
            old(store).wf(),
            full == old(store).files@,
            dirs0 == old(storage).dirs@,
            kept@ == full.take(i as int).filter(pred),
            pred == (|f: FileRecord| f.expiration_time >= now),
            storage.wf(),
            forall|d: u64| #[trigger]
                storage.spec_has(d) <==> (spec_dirs_has(dirs0, d) && !spec_expired_id_prefix(
                    full,
                    i as int,
                    d,
                    now,
                )),
        decreases n - i,
    {
        proof {
            assert(full.take(i + 1) =~= full.take(i as int) + seq![full[i as int]]);
            Seq::filter_distributes_over_add(full.take(i as int), seq![full[i as int]], pred);
            lemma_filter_singleton(full[i as int], pred);
        }
        let f = &store.files[i];
        let ghost dirs_before = storage.dirs@;
        if is_expired(f, now) {
            storage.remove_dir_for_fid(FileID { inner: f.id });
            proof {
                assert(kept@ =~= full.take(i as int).filter(pred) + Seq::<FileRecord>::empty());
            }
        } else {
            kept.push(f.clone());
            proof {
                assert(kept@ =~= full.take(i as int).filter(pred) + seq![full[i as int]]);
            }
        }
        proof {
            assert forall|d: u64| #[trigger]
                storage.spec_has(d) <==> (spec_dirs_has(dirs0, d) && !spec_expired_id_prefix(
                    full,
                    i + 1,
                    d,
                    now,
                )) by {
                if spec_expired_id_prefix(full, i + 1, d, now) {
                    let j = choose|j: int|
                        0 <= j < i + 1 && full[j].id == d && full[j].expiration_time < now;
                    if j < i {
                        assert(spec_expired_id_prefix(full, i as int, d, now));
                    }
                }
                if spec_expired_id_prefix(full, i as int, d, now) {
                    let j = choose|j: int|
                        0 <= j < i && full[j].id == d && full[j].expiration_time < now;
                    assert(spec_expired_id_prefix(full, i + 1, d, now));
                }
            }
        }
        i = i + 1;
    }
    proof {
        assert(full.take(n as int) =~= full);
        lemma_file_filter_keeps_uniqueness(full, pred);
    }
    store.files = kept;
}

/// Dropping rows cannot make two remaining file identifiers collide.
proof fn lemma_file_filter_keeps_uniqueness(
    s: Seq<FileRecord>,
    pred: spec_fn(FileRecord) -> bool,
)
    requires
        file_ids_unique(s),
    ensures
        file_ids_unique(s.filter(pred)),
    decreases s.len(),
{
    reveal(Seq::filter);
    if s.len() > 0 {
        let prefix = s.drop_last();
        assert(file_ids_unique(prefix)) by {
            assert forall|i: int, j: int|
                #![trigger prefix[i], prefix[j]]
                0 <= i < j < prefix.len() implies prefix[i].id != prefix[j].id by {
                assert(prefix[i] == s[i]);
                assert(prefix[j] == s[j]);
            }
        }
        lemma_file_filter_keeps_uniqueness(prefix, pred);
        let out = s.filter(pred);
        let sub = prefix.filter(pred);
        if pred(s.last()) {
            lemma_filter_subset(prefix, pred);
            assert forall|i: int, j: int|
                #![trigger out[i], out[j]]
                0 <= i < j < out.len() implies out[i].id != out[j].id by {
                if j < sub.len() {
                    assert(out[i] == sub[i]);
                    assert(out[j] == sub[j]);
                } else {
                    assert(out[j] == s.last());
                    assert(out[i] == sub[i]);
                    assert(prefix.contains(sub[i]));
                    let k = choose|k: int| 0 <= k < prefix.len() && prefix[k] == sub[i];
                    assert(s[k] == sub[i]);
                    assert(s[s.len() - 1] == s.last());
                }
            }
        }
    }
}

} // verus!
