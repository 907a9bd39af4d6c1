use proof_of_tests::digest::{digest, hex_encode};
use proof_of_tests::error::ProofError;
use proof_of_tests::store::ContentAddressStore;

#[test]
fn digest_of_empty_input() {
    assert_eq!(
        digest(b""),
        "e3b0c44298fc1c149afbf4c8996fb92427ae41e4649b934ca495991b7852b855"
    );
}

#[test]
fn digest_of_abc() {
    assert_eq!(
        digest(b"abc"),
        "ba7816bf8f01cfea414140de5dae2223b00361a396177a9cb410ff61f20015ad"
    );
}

#[test]
fn digest_is_stable() {
    let b = vec![1u8, 2, 3, 250];
    assert_eq!(digest(&b), digest(&b));
    assert_eq!(digest(&b).len(), 64);
}

#[test]
fn hex_encoding_is_lowercase_two_digits_per_byte() {
    assert_eq!(hex_encode(&[0x00, 0xff, 0x1a, 0x09]), "00ff1a09");
    assert_eq!(hex_encode(&[]), "");
}

#[test]
fn put_twice_writes_once_and_returns_same_digest() {
    let mut store = ContentAddressStore::new();
    let b = b"module bytes".to_vec();
    let d1 = store.put(&b);
    assert_eq!(store.writes(), 1);
    let d2 = store.put(&b);
    assert_eq!(store.writes(), 1);
    assert_eq!(d1, d2);
    assert_eq!(d1, digest(&b));
}

#[test]
fn distinct_contents_are_stored_separately() {
    let mut store = ContentAddressStore::new();
    let d1 = store.put(b"one");
    let d2 = store.put(b"two");
    assert_ne!(d1, d2);
    assert_eq!(store.writes(), 2);
    assert_eq!(store.get(&d1), Ok(b"one".to_vec()));
    assert_eq!(store.get(&d2), Ok(b"two".to_vec()));
}

#[test]
fn get_returns_what_put_stored() {
    let mut store = ContentAddressStore::new();
    let b = vec![0u8, 97, 115, 109, 1, 0, 0, 0];
    let d = store.put(&b);
    assert_eq!(store.get(&d), Ok(b));
    assert!(store.contains(&d));
}

#[test]
fn get_of_unknown_digest_is_not_found() {
    let store = ContentAddressStore::new();
    let d = digest(b"never stored");
    assert_eq!(store.get(&d), Err(ProofError::NotFound));
    assert!(!store.contains(&d));
}

#[test]
fn empty_blob_round_trips() {
    let mut store = ContentAddressStore::new();
    let d = store.put(&[]);
    assert_eq!(store.get(&d), Ok(vec![]));
}

#[test]
fn failed_backend_write_is_storage_failure() {
    let mut store = ContentAddressStore::new();
    assert_eq!(store.commit(b"blob", false), Err(ProofError::StorageFailure));
    assert_eq!(store.writes(), 0);
    assert_eq!(store.get(&digest(b"blob")), Err(ProofError::NotFound));
}

#[test]
fn successful_backend_write_is_committed() {
    let mut store = ContentAddressStore::new();
    let d = store.commit(b"blob", true).unwrap();
    assert_eq!(d, digest(b"blob"));
    assert_eq!(store.get(&d), Ok(b"blob".to_vec()));
    assert_eq!(store.commit(b"blob", false), Ok(d));
    assert_eq!(store.writes(), 1);
}
