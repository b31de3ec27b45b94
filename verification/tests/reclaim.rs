use rand::rngs::StdRng;
use rand::SeedableRng;
use std::collections::HashSet;
use tempshare::errors::Error;
use tempshare::files::{pick_single_filename, uploader_for};
use tempshare::store::{FileRecord, User};
use tempshare::user::{UserKind, UserRegisterData};
use tempshare::files::{create_file_db_entry, get_file_db_entry, new_fid, FileID, Storage};
use tempshare::garbage_collector::{keep_row, run_reclamation_cycle};
use tempshare::store::Store;

const NOW: i64 = 1_700_000_000;
const DAY: i64 = 86400;

#[test]
fn allocations_do_not_collide() {
    let mut storage = Storage::new();
    let mut rng = StdRng::seed_from_u64(12);
    let mut seen: HashSet<u64> = HashSet::new();
    for _ in 0..10_000 {
        let fid = new_fid(&storage, &mut rng).unwrap();
        assert!(seen.insert(fid.inner()), "allocator returned a duplicate");
        storage.create_dir_for_fid(fid);
    }
}

#[test]
fn metadata_rows_are_unique_per_identifier() {
    let mut store = Store::new();
    let fid = FileID::from(77u64);
    create_file_db_entry(&mut store, fid, None, NOW, 7 * DAY).unwrap();
    let again = create_file_db_entry(&mut store, fid, Some(3), NOW, 7 * DAY);
    assert!(matches!(again, Err(Error::FileExists)));
    assert_eq!(store.files.len(), 1);

    let row = get_file_db_entry(&store, fid).unwrap();
    assert_eq!(row.id, 77);
    assert_eq!(row.user_id, None);
    assert_eq!(row.expiration_time, NOW + 7 * DAY);
    assert!(get_file_db_entry(&store, FileID::from(78u64)).is_none());
}

#[test]
fn reclamation_removes_exactly_the_expired_resource() {
    let mut store = Store::new();
    let mut storage = Storage::new();
    let expired = FileID::from(100u64);
    let live = FileID::from(200u64);

    // One resource created long ago, one fresh; both have storage and a row.
    create_file_db_entry(&mut store, expired, None, NOW - 10 * DAY, 7 * DAY).unwrap();
    create_file_db_entry(&mut store, live, Some(1), NOW, 7 * DAY).unwrap();
    storage.create_dir_for_fid(expired);
    storage.create_dir_for_fid(live);

    run_reclamation_cycle(&mut store, &mut storage, NOW);

    assert!(get_file_db_entry(&store, expired).is_none());
    assert!(!storage.has_fid(expired));
    let kept = get_file_db_entry(&store, live).unwrap();
    assert_eq!(kept.user_id, Some(1));
    assert_eq!(kept.expiration_time, NOW + 7 * DAY);
    assert!(storage.has_fid(live));
    assert_eq!(store.files.len(), 1);
    assert_eq!(storage.dirs.len(), 1);
}

#[test]
fn reclamation_keeps_a_row_expiring_exactly_now() {
    let mut store = Store::new();
    let mut storage = Storage::new();
    let edge = FileID::from(5u64);
    create_file_db_entry(&mut store, edge, None, NOW - 7 * DAY, 7 * DAY).unwrap();
    storage.create_dir_for_fid(edge);

    // Its expiration instant is exactly NOW: not yet past, so it stays.
    run_reclamation_cycle(&mut store, &mut storage, NOW);
    assert!(get_file_db_entry(&store, edge).is_some());
    assert!(storage.has_fid(edge));

    // One second later it is past and leaves.
    run_reclamation_cycle(&mut store, &mut storage, NOW + 1);
    assert!(get_file_db_entry(&store, edge).is_none());
    assert!(!storage.has_fid(edge));
}

#[test]
fn failed_storage_removal_keeps_the_row_for_retry() {
    let expired = FileRecord { id: 9, user_id: None, expiration_time: NOW - 1 };
    let live = FileRecord { id: 10, user_id: None, expiration_time: NOW + 1 };
    // An expired row leaves only once its storage is really gone.
    assert!(!keep_row(&expired, NOW, true));
    assert!(keep_row(&expired, NOW, false));
    // An unexpired row stays regardless.
    assert!(keep_row(&live, NOW, false));
}

#[test]
fn storage_directory_must_hold_exactly_one_file() {
    assert_eq!(
        pick_single_filename(vec!["report.pdf".to_owned()]).unwrap(),
        "report.pdf"
    );
    assert!(matches!(
        pick_single_filename(vec![]),
        Err(Error::NotOneFileInStorageDir)
    ));
    assert!(matches!(
        pick_single_filename(vec!["a".to_owned(), "b".to_owned()]),
        Err(Error::NotOneFileInStorageDir)
    ));
}

#[test]
fn uploader_resolution_tolerates_vanished_users() {
    let mut store = Store::new();
    let owner = User::register(
        UserRegisterData {
            email: "up@example.com".to_owned(),
            password: "a long password".to_owned(),
            username: "uploader".to_owned(),
        },
        UserKind::Standard,
        &mut store,
        NOW,
    )
    .unwrap();

    let anon = FileRecord { id: 1, user_id: None, expiration_time: NOW };
    assert!(uploader_for(&store, &anon).is_none());

    let owned = FileRecord { id: 2, user_id: Some(owner.id()), expiration_time: NOW };
    assert_eq!(uploader_for(&store, &owned).unwrap().email(), "up@example.com");

    let orphaned = FileRecord { id: 3, user_id: Some(owner.id() + 1), expiration_time: NOW };
    assert!(uploader_for(&store, &orphaned).is_none());
}
