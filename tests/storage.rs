use hive::storage::{content_hash, Storage};

const EMPTY_DIGEST: &str = "e3b0c44298fc1c149afbf4c8996fb92427ae41e4649b934ca495991b7852b855";
const ABC_DIGEST: &str = "ba7816bf8f01cfea414140de5dae2223b00361a396177a9cb410ff61f20015ad";

#[test]
fn content_hash_of_empty_input() {
    assert_eq!(content_hash(b""), EMPTY_DIGEST);
}

#[test]
fn content_hash_of_abc() {
    let h = content_hash(b"abc");
    assert_eq!(h, ABC_DIGEST);
    assert_eq!(h.len(), 64);
}

#[test]
fn store_then_retrieve_returns_payload() {
    let mut s = Storage::new(String::from(".hive/storage"));
    let payload = vec![1u8, 2, 3, 250, 0];
    let h = s.store(&payload);
    assert_eq!(h, content_hash(&payload));
    assert_eq!(s.retrieve(&h), Some(payload));
}

#[test]
fn store_twice_gives_same_digest() {
    let mut s = Storage::new(String::from("root"));
    let h1 = s.store(b"abc");
    let h2 = s.store(b"abc");
    assert_eq!(h1, h2);
    assert_eq!(h1, ABC_DIGEST);
    assert!(s.contains(ABC_DIGEST));
    assert_eq!(s.retrieve(ABC_DIGEST), Some(b"abc".to_vec()));
}

#[test]
fn retrieve_of_never_stored_digest_is_absent() {
    let mut s = Storage::new(String::from("root"));
    assert_eq!(s.retrieve(ABC_DIGEST), None);
    s.store(b"something else");
    assert_eq!(s.retrieve(ABC_DIGEST), None);
    assert!(!s.contains(ABC_DIGEST));
}

#[test]
fn empty_payload_is_stored() {
    let mut s = Storage::new(String::from("root"));
    let h = s.store(b"");
    assert_eq!(h, EMPTY_DIGEST);
    assert_eq!(s.retrieve(EMPTY_DIGEST), Some(Vec::new()));
}

#[test]
fn root_dir_is_kept() {
    let s = Storage::new(String::from(".hive/storage"));
    assert_eq!(s.root_dir(), ".hive/storage");
}

#[test]
fn write_needed_only_when_absent() {
    assert!(hive::storage::write_needed(false));
    assert!(!hive::storage::write_needed(true));
}
