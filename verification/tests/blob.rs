use tessera::blob::BlobStore;

#[test]
fn a_blob_fans_out_on_its_first_two_byte_pairs() {
    let store = BlobStore::new("/data/blobs".to_string());
    let digest = BlobStore::hash(b"hello");
    assert_eq!(digest, "2cf24dba5fb0a30e26e83b2ac5b9e29e1b161e5c1fa7425e73043362938b9824");
    assert_eq!(store.path_for(&digest), format!("/data/blobs/2c/f2/{digest}"));
}

#[test]
fn the_prefix_is_cut_by_bytes_and_joined_as_paths() {
    let store = BlobStore::new("root/".to_string());
    assert_eq!(store.path_for("ab\u{e9}c"), "root/ab/\u{e9}/ab\u{e9}c");
    assert_eq!(BlobStore::new(String::new()).path_for("abcd"), "ab/cd/abcd");
}

#[test]
fn a_corrupt_blob_reports_what_it_hashes_to() {
    let good = BlobStore::hash(b"bytes");
    assert_eq!(BlobStore::corrupt_digest(&good, b"bytes"), None);
    assert_eq!(BlobStore::corrupt_digest(&good, b"other"), Some(BlobStore::hash(b"other")));
}
