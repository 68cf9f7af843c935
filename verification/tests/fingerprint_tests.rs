use babushkaml::fingerprint::{fingerprint_entries, sha256_hex, FileEntry};
use sha2::Digest;

fn entry(path: &str, hash: &str, size: u64) -> FileEntry {
    FileEntry { path: String::from(path), hash: String::from(hash), size }
}

#[test]
fn sha256_hex_matches_known_vectors() {
    // The well-known digests of the empty input and of "abc".
    assert_eq!(
        sha256_hex(&Vec::new()),
        "e3b0c44298fc1c149afbf4c8996fb92427ae41e4649b934ca495991b7852b855"
    );
    assert_eq!(
        sha256_hex(&b"abc".to_vec()),
        "ba7816bf8f01cfea414140de5dae2223b00361a396177a9cb410ff61f20015ad"
    );
}

#[test]
fn fingerprint_is_traversal_order_independent() {
    let scan_one = vec![
        entry("a.txt", "1111", 3),
        entry("sub/b.txt", "2222", 5),
        entry("zz.bin", "3333", 7),
    ];
    let scan_two = vec![
        entry("zz.bin", "3333", 7),
        entry("a.txt", "1111", 3),
        entry("sub/b.txt", "2222", 5),
    ];
    let f1 = fingerprint_entries(scan_one);
    let f2 = fingerprint_entries(scan_two);
    assert_eq!(f1.fingerprint, f2.fingerprint);
    assert_eq!(f1.total_size, f2.total_size);
    assert_eq!(f1.file_count, f2.file_count);
    let paths1: Vec<&str> = f1.files.iter().map(|e| e.path.as_str()).collect();
    let paths2: Vec<&str> = f2.files.iter().map(|e| e.path.as_str()).collect();
    assert_eq!(paths1, paths2);
}

#[test]
fn fingerprint_entries_sorts_and_sums() {
    let f = fingerprint_entries(vec![
        entry("b", "hb", 2),
        entry("a", "ha", 1),
        entry("c", "hc", 4),
    ]);
    assert_eq!(f.file_count, 3);
    assert_eq!(f.total_size, 7);
    let paths: Vec<&str> = f.files.iter().map(|e| e.path.as_str()).collect();
    assert_eq!(paths, vec!["a", "b", "c"]);
}

#[test]
fn fingerprint_digest_is_sha256_of_sorted_path_hash_pairs() {
    let f = fingerprint_entries(vec![entry("b", "hb", 2), entry("a", "ha", 1)]);
    let mut hasher = sha2::Sha256::new();
    hasher.update(b"a");
    hasher.update(b"ha");
    hasher.update(b"b");
    hasher.update(b"hb");
    let expected = hex::encode(hasher.finalize());
    assert_eq!(f.fingerprint, expected);
}

#[test]
fn differing_contents_differ_in_practice() {
    let f1 = fingerprint_entries(vec![entry("a", "1111", 1)]);
    let f2 = fingerprint_entries(vec![entry("a", "2222", 1)]);
    assert_ne!(f1.fingerprint, f2.fingerprint);
}

#[test]
fn empty_directory_fingerprint() {
    let f = fingerprint_entries(Vec::new());
    assert_eq!(f.file_count, 0);
    assert_eq!(f.total_size, 0);
    // The digest of the empty pre-image.
    assert_eq!(
        f.fingerprint,
        "e3b0c44298fc1c149afbf4c8996fb92427ae41e4649b934ca495991b7852b855"
    );
}
