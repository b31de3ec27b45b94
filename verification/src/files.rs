use vstd::prelude::*;

use crate::errors::Error;
use crate::rng::draw_u64;
use crate::store::{
    spec_find_user_by_id, spec_has_file, file_ids_unique, FileRecord, Store, User,
};
use vstd::string::StrSliceExecFns;

verus! {

/// How often the allocator retries after a collision before it gives up.
/// Exceeding the bound signals identifier-space exhaustion or a store
/// malfunction, a fatal condition.
pub const MAX_FID_RETRIES: u32 = 20;

/// Ten to the `e`, as a mathematical integer.
pub open spec fn spec_pow10(e: int) -> int
    decreases e,
{
    if e <= 0 {
        1
    } else {
        10 * spec_pow10(e - 1)
    }
}

/// An ASCII digit.
pub open spec fn is_digit_char(c: char) -> bool {
    48 <= c as u32 <= 57
}

pub open spec fn spec_all_digits(s: Seq<char>) -> bool {
    forall|i: int| 0 <= i < s.len() ==> is_digit_char(#[trigger] s[i])
}

/// The numeric value of a digit string.
pub open spec fn spec_decimal_value(s: Seq<char>) -> int
    decreases s.len(),
{
    if s.len() == 0 {
        0
    } else {
        10 * spec_decimal_value(s.drop_last()) + (s.last() as u32 - 48)
    }
}

/// An opaque random identifier naming one uploaded resource.  Random and
/// non-sequential, it doubles as an unguessable capability for reading an
/// anonymous-readable resource, so it is never reused and never guessable
/// from earlier identifiers.
#[derive(Clone, Copy, PartialEq, Eq, Hash, Structural, Debug)]
pub struct FileID {
    pub inner: u64,
}

fn digit_str(d: u64) -> (r: &'static str)
    requires
        d < 10,
    ensures
        r@.len() == 1,
        r@[0] as u32 == 48 + d,
{
    proof {
        reveal_strlit("0");
        reveal_strlit("1");
        reveal_strlit("2");
        reveal_strlit("3");
        reveal_strlit("4");
        reveal_strlit("5");
        reveal_strlit("6");
        reveal_strlit("7");
        reveal_strlit("8");
        reveal_strlit("9");
    }
    match d {
        0 => "0",
        1 => "1",
        2 => "2",
        3 => "3",
        4 => "4",
        5 => "5",
        6 => "6",
        7 => "7",
        8 => "8",
        _ => "9",
    }
}

impl FileID {
    pub fn inner(&self) -> (r: u64)
        ensures
            r == self.inner,
    {
        self.inner
    }

    /// Render as exactly 20 decimal digits, zero-padded on the left: the
    /// fixed-width form used as a storage path segment.
    pub fn to_decimal_string(&self) -> (r: String)
        ensures
            r@.len() == 20,
            spec_all_digits(r@),
            forall|i: int|
                0 <= i < 20 ==> (#[trigger] r@[i]) as u32 == 48 + (self.inner as int / spec_pow10(
                    19 - i,
                )) % 10,
    {
        let v = self.inner;
        let mut out = String::new();
        let mut p: u64 = 10_000_000_000_000_000_000;
        let mut i: usize = 0;
        proof {
            reveal_with_fuel(spec_pow10, 21);
            assert(spec_pow10(19) == 10_000_000_000_000_000_000);
        }
        while i < 20
            invariant
                i <= 20,
                v == self.inner,
                out@.len() == i,
                forall|j: int|
                    0 <= j < i ==> (#[trigger] out@[j]) as u32 == 48 + (v as int / spec_pow10(
                        19 - j,
                    )) % 10,
                i < 20 ==> p as int == spec_pow10(19 - i as int),
            decreases 20 - i,
        {
            proof {
                lemma_pow10_pos(19 - i as int);
            }
            let d = (v / p) % 10;
            let ghost before = out@;
            out = out.concat(digit_str(d));
            proof {
                assert(out@[i as int] as u32 == 48 + (v as int / spec_pow10(19 - i as int)) % 10);
            }
            if i < 19 {
                proof {
                    assert(spec_pow10(19 - i as int) == 10 * spec_pow10(18 - i as int));
                }
                p = p / 10;
            }
            i = i + 1;
        }
        out
    }

    /// Parse a decimal digit string back into an identifier.  Accepts
    /// exactly the non-empty all-digit strings whose value fits; leading
    /// zeros are allowed.
    pub fn from_str(s: &str) -> (r: Result<FileID, Error>)
        ensures
            r matches Ok(fid) ==> s@.len() > 0 && spec_all_digits(s@) && fid.inner as int
                == spec_decimal_value(s@),
            r is Ok <==> (s@.len() > 0 && spec_all_digits(s@) && spec_decimal_value(s@)
                <= u64::MAX),
            r is Err ==> r == Err::<FileID, Error>(Error::BadFileID),
    {
        let n = s.unicode_len();
        if n == 0 {
            return Err(Error::BadFileID);
        }
        let mut v: u64 = 0;
        let mut i: usize = 0;
        proof {
            assert(s@.take(0) =~= Seq::<char>::empty());
        }
        while i < n
            invariant
                i <= n,
                n == s@.len(),
                spec_all_digits(s@.take(i as int)),
                v as int == spec_decimal_value(s@.take(i as int)),
            decreases n - i,
        {
            let c = s.get_char(i);
            let code = c as u32;
            if code < 48 || code > 57 {
                return Err(Error::BadFileID);
            }
            let d = (code - 48) as u64;
            proof {
                assert(s@.take(i + 1).drop_last() =~= s@.take(i as int));
                assert(s@.take(i + 1).last() == s@[i as int]);
            }
            if v > (u64::MAX - d) / 10 {
                proof {
                    if spec_all_digits(s@) {
                        lemma_decimal_value_monotone(s@, i + 1);
                    }
                }
                return Err(Error::BadFileID);
            }
            v = v * 10 + d;
            i = i + 1;
        }
        proof {
            assert(s@.take(n as int) =~= s@);
        }
        Ok(FileID { inner: v })
    }
}

impl From<u64> for FileID {
    fn from(v: u64) -> Self {
        FileID { inner: v }
    }
}

impl vstd::std_specs::convert::FromSpecImpl<u64> for FileID {
    open spec fn obeys_from_spec() -> bool {
        true
    }

    open spec fn from_spec(v: u64) -> Self {
        FileID { inner: v }
    }
}

impl From<FileID> for u64 {
    fn from(fid: FileID) -> Self {
        fid.inner
    }
}

impl vstd::std_specs::convert::FromSpecImpl<FileID> for u64 {
    open spec fn obeys_from_spec() -> bool {
        true
    }

    open spec fn from_spec(fid: FileID) -> Self {
        fid.inner
    }
}

/// Powers of ten are positive.
proof fn lemma_pow10_pos(e: int)
    ensures
        spec_pow10(e) >= 1,
    decreases e,
{
    if e > 0 {
        lemma_pow10_pos(e - 1);
    }
}

/// A digit string's value never shrinks as more digits are appended.
proof fn lemma_decimal_value_nonneg(s: Seq<char>)
    requires
        spec_all_digits(s),
    ensures
        spec_decimal_value(s) >= 0,
    decreases s.len(),
{
    if s.len() > 0 {
        assert(spec_all_digits(s.drop_last())) by {
            assert(forall|i: int|
                0 <= i < s.len() - 1 ==> #[trigger] s.drop_last()[i] == s[i]);
        }
        lemma_decimal_value_nonneg(s.drop_last());
    }
}

/// The value of an all-digit string bounds the value of each of its
/// prefixes.
proof fn lemma_decimal_value_monotone(s: Seq<char>, k: int)
    requires
        0 <= k <= s.len(),
        spec_all_digits(s),
    ensures
        spec_decimal_value(s.take(k)) <= spec_decimal_value(s),
    decreases s.len() - k,
{
    if k < s.len() {
        assert(spec_all_digits(s.take(k))) by {
            assert(forall|i: int| 0 <= i < k ==> #[trigger] s.take(k)[i] == s[i]);
        }
        lemma_decimal_value_nonneg(s.take(k));
        assert(s.take(k + 1).drop_last() =~= s.take(k));
        assert(s.take(k + 1).last() == s[k]);
        lemma_decimal_value_monotone(s, k + 1);
    } else {
        assert(s.take(k) =~= s);
    }
}

/// In-memory image of the storage collaborator: the set of identifiers
/// that name an existing storage directory.
#[derive(Debug)]
pub struct Storage {
    pub dirs: Vec<u64>,
}

/// Whether one of the first `bound` recorded directories carries this
/// identifier.
pub open spec fn spec_dirs_has_prefix(dirs: Seq<u64>, bound: int, id: u64) -> bool {
    exists|i: int| 0 <= i < bound && #[trigger] dirs[i] == id
}

/// Whether some recorded directory carries this identifier.
pub open spec fn spec_dirs_has(dirs: Seq<u64>, id: u64) -> bool {
    spec_dirs_has_prefix(dirs, dirs.len() as int, id)
}

impl Storage {
    /// No directory is recorded twice.
    pub open spec fn wf(&self) -> bool {
        forall|i: int, j: int|
            0 <= i < j < self.dirs@.len() ==> #[trigger] self.dirs@[i] != #[trigger] self.dirs@[j]
    }

    /// Whether a directory for this identifier exists.
    pub open spec fn spec_has(&self, id: u64) -> bool {
        spec_dirs_has(self.dirs@, id)
    }

    /// An empty storage area.
    pub fn new() -> (r: Storage)
        ensures
            r.wf(),
            r.dirs@.len() == 0,
    {
        Storage { dirs: Vec::new() }
    }

    /// Whether a directory for this identifier exists.
    pub fn has_fid(&self, fid: FileID) -> (r: bool)
        ensures
            r == self.spec_has(fid.inner),
    {
        let n = self.dirs.len();
        let mut i: usize = 0;
        while i < n
            invariant
                i <= n,
                n == self.dirs@.len(),
                forall|j: int| 0 <= j < i ==> #[trigger] self.dirs@[j] != fid.inner,
            decreases n - i,
        {
            if self.dirs[i] == fid.inner {
                return true;
            }
            i = i + 1;
        }
        false
    }

    /// Record the directory for this identifier; recording it twice keeps
    /// one entry.
    pub fn create_dir_for_fid(&mut self, fid: FileID)
        requires
            old(self).wf(),
        ensures
            final(self).wf(),
            forall|d: u64|
                final(self).spec_has(d) <==> (old(self).spec_has(d) || d == fid.inner),
            old(self).spec_has(fid.inner) ==> final(self).dirs@ == old(self).dirs@,
            !old(self).spec_has(fid.inner) ==> final(self).dirs@ == old(self).dirs@.push(
                fid.inner,
            ),
    {
        if !self.has_fid(fid) {
            let ghost before = self.dirs@;
            self.dirs.push(fid.inner);
            proof {
                assert(forall|j: int| 0 <= j < before.len() ==> self.dirs@[j] == before[j]);
                assert(self.dirs@[before.len() as int] == fid.inner);
            }
        }
    }

    /// Remove the directory for this identifier, if it exists.
    pub fn remove_dir_for_fid(&mut self, fid: FileID)
        requires
            old(self).wf(),
        ensures
            final(self).wf(),
            forall|d: u64|
                final(self).spec_has(d) <==> (old(self).spec_has(d) && d != fid.inner),
    {
        let ghost full = self.dirs@;
        let n = self.dirs.len();
        let mut kept: Vec<u64> = Vec::new();
        let mut i: usize = 0;
        while i < n
            invariant
                i <= n,
                n == full.len(),
                full == self.dirs@,
                forall|a: int, b: int| 0 <= a < b < full.len() ==> full[a] != full[b],
                forall|a: int, b: int|
                    0 <= a < b < kept@.len() ==> #[trigger] kept@[a] != #[trigger] kept@[b],
                forall|d: u64| #[trigger]
                    spec_dirs_has(kept@, d) <==> (spec_dirs_has_prefix(full, i as int, d) && d
                        != fid.inner),
            decreases n - i,
        {
            let x = self.dirs[i];
            let ghost kept_before = kept@;
            if x != fid.inner {
                kept.push(x);
                proof {
                    assert forall|a: int, b: int|
                        0 <= a < b < kept@.len() implies #[trigger] kept@[a] != #[trigger] kept@[b]
                    by {
                        if b == kept@.len() - 1 {
                            assert(kept@[b] == full[i as int]);
                            assert(kept@[a] == kept_before[a]);
                            assert(spec_dirs_has(kept_before, kept_before[a]));
                            let j = choose|j: int| 0 <= j < i && full[j] == kept_before[a];
                            assert(full[j] != full[i as int]);
                        }
                    }
                }
            }
            proof {
                assert forall|d: u64| #[trigger]
                    spec_dirs_has(kept@, d) <==> (spec_dirs_has_prefix(full, i + 1, d) && d
                        != fid.inner) by {
                    if spec_dirs_has(kept@, d) {
                        let k = choose|k: int| 0 <= k < kept@.len() && kept@[k] == d;
                        if k < kept_before.len() {
                            assert(kept_before[k] == d);
                            assert(spec_dirs_has(kept_before, d));
                        } else {
                            assert(d == full[i as int]);
                        }
                    }
                    if spec_dirs_has_prefix(full, i + 1, d) && d != fid.inner {
                        let j = choose|j: int| 0 <= j < i + 1 && full[j] == d;
                        if j < i {
                            assert(spec_dirs_has_prefix(full, i as int, d));
                            assert(spec_dirs_has(kept_before, d));
                            let k = choose|k: int|
                                0 <= k < kept_before.len() && kept_before[k] == d;
                            assert(kept@[k] == d);
                        } else {
                            assert(full[i as int] == d);
                            assert(kept@[kept@.len() - 1] == d);
                        }
                    }
                }
            }
            i = i + 1;
        }
        self.dirs = kept;
        proof {
            assert forall|d: u64| #[trigger]
                final(self).spec_has(d) <==> (old(self).spec_has(d) && d != fid.inner) by {
                assert(spec_dirs_has_prefix(full, n as int, d) == spec_dirs_has(full, d));
            }
        }
    }
}

/// Draw fresh identifiers from the shared secure generator until one names
/// no existing storage directory, up to the retry bound.  Against an empty
/// storage area the very first draw is fresh, so allocation succeeds.
/// Exhausting the bound is fatal: the caller is expected to stop, not to
/// retry.
pub fn new_fid(storage: &Storage, rng: &mut rand::rngs::StdRng) -> (r: Result<FileID, Error>)
    ensures
        r matches Ok(fid) ==> !storage.spec_has(fid.inner),
        r is Err ==> r == Err::<FileID, Error>(Error::IdSpaceExhausted),
        storage.dirs@.len() == 0 ==> r is Ok,
{
    let mut attempts: u32 = 0;
    while attempts < MAX_FID_RETRIES
        invariant
            attempts <= MAX_FID_RETRIES,
            attempts > 0 ==> storage.dirs@.len() > 0,
        decreases MAX_FID_RETRIES - attempts,
    {
        let candidate = FileID { inner: draw_u64(rng) };
        if !storage.has_fid(candidate) {
            return Ok(candidate);
        }
        attempts = attempts + 1;
    }
    Err(Error::IdSpaceExhausted)
}

/// Law: identifiers allocated in sequence never repeat.  Each allocation
/// returns an identifier absent from storage; once it is recorded, the
/// next allocation cannot return it again.
pub proof fn lemma_allocated_identifiers_distinct(
    before: Storage,
    after: Storage,
    first: u64,
    second: u64,
)
    requires
        !before.spec_has(first),
        forall|d: u64| #[trigger] after.spec_has(d) <==> (before.spec_has(d) || d == first),
        !after.spec_has(second),
    ensures
        first != second,
{
    assert(after.spec_has(first));
}

/// Record metadata for a fresh upload: refuse an identifier that already
/// has a row, else append a row expiring after the configured retention
/// window.
pub fn create_file_db_entry(
    store: &mut Store,
    fid: FileID,
    user: Option<u64>,
    now: i64,
    expiration_offset_seconds: i64,
) -> (r: Result<(), Error>)
    requires
        old(store).wf(),
        0 <= expiration_offset_seconds,
        now <= i64::MAX - expiration_offset_seconds,
    ensures
        final(store).users@ == old(store).users@,
        final(store).tokens@ == old(store).tokens@,
        final(store).wf(),
        spec_has_file(old(store).files@, fid.inner) ==> r == Err::<(), Error>(Error::FileExists)
            && final(store).files@ == old(store).files@,
        !spec_has_file(old(store).files@, fid.inner) ==> r is Ok && final(store).files@ == old(
            store,
        ).files@.push(
            FileRecord {
                id: fid.inner,
                user_id: user,
                expiration_time: (now + expiration_offset_seconds) as i64,
            },
        ),
{
    if store.has_file(fid.inner) {
        return Err(Error::FileExists);
    }
    let ghost before = store.files@;
    let record = FileRecord {
        id: fid.inner,
        user_id: user,
        expiration_time: now + expiration_offset_seconds,
    };
    store.files.push(record);
    proof {
        assert forall|i: int, j: int|
            #![trigger store.files@[i], store.files@[j]]
            0 <= i < j < store.files@.len() implies store.files@[i].id != store.files@[j].id by {
            if j < before.len() {
                assert(file_ids_unique(before));
            } else {
                assert(store.files@[j] == record);
                assert(store.files@[i] == before[i]);
            }
        }
    }
    Ok(())
}

/// Decide which name an identifier's data directory serves: the directory
/// must hold exactly one entry, whose name is the stored file's.  Any
/// other count is a storage fault.
pub fn pick_single_filename(entries: Vec<String>) -> (r: Result<String, Error>)
    ensures
        entries@.len() == 1 ==> (r matches Ok(n) && n == entries@[0]),
        entries@.len() != 1 ==> r == Err::<String, Error>(Error::NotOneFileInStorageDir),
{
    if entries.len() == 1 {
        Ok(entries[0].clone())
    } else {
        Err(Error::NotOneFileInStorageDir)
    }
}

/// Resolve the uploader a metadata row names: anonymous uploads and rows
/// whose recorded user has vanished both read as no uploader.
pub fn uploader_for(store: &Store, record: &FileRecord) -> (r: Option<User>)
    ensures
        (match record.user_id {
            None => r is None,
            Some(id) => r == spec_find_user_by_id(store.users@, id),
        }),
{
    match record.user_id {
        None => None,
        Some(id) => match store.find_user_by_id(id) {
            Some(i) => Some(store.users[i].clone()),
            None => None,
        },
    }
}

/// The metadata row for this identifier, if any.
pub fn get_file_db_entry(store: &Store, fid: FileID) -> (r: Option<FileRecord>)
    ensures
        (match r {
            Some(f) => f.id == fid.inner && (exists|i: int|
                0 <= i < store.files@.len() && #[trigger] store.files@[i] == f),
            None => !spec_has_file(store.files@, fid.inner),
        }),
{
    let n = store.files.len();
    let mut i: usize = 0;
    while i < n
        invariant
            i <= n,
            n == store.files@.len(),
            forall|j: int| 0 <= j < i ==> (#[trigger] store.files@[j]).id != fid.inner,
        decreases n - i,
    {
        if store.files[i].id == fid.inner {
            return Some(store.files[i].clone());
        }
        i = i + 1;
    }
    None
}

} // verus!
