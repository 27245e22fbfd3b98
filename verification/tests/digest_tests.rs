use file_hasher::DigestEngine;
use file_hasher::digest_bytes;

#[test]
fn digest_of_empty_input_is_the_known_vector() {
    let digest = digest_bytes(&[]);
    assert_eq!(digest, "af1349b9f5f9a1a6a0404dea36dcc9499bcb25c9adc112b7cc9a93cae41f3262");
}

#[test]
fn digest_is_deterministic() {
    let data = b"hello world\n";
    let first = digest_bytes(data);
    let second = digest_bytes(data);
    assert_eq!(first, second);
    assert_eq!(first.len(), 64);
}

#[test]
fn equal_contents_give_equal_digests_and_different_contents_differ() {
    let a = digest_bytes(b"x");
    let b = digest_bytes(b"x");
    let c = digest_bytes(b"y");
    assert_eq!(a, b);
    assert_ne!(a, c);
}

#[test]
fn incremental_feeding_matches_hashing_in_one_piece() {
    let mut engine = DigestEngine::new();
    engine.update(b"hello ");
    engine.update(b"world");
    engine.update(b"");
    let streamed = engine.finish();
    let whole = digest_bytes(b"hello world");
    assert_eq!(streamed, whole);
}

#[test]
fn digest_is_lowercase_hex_of_fixed_length() {
    let digest = digest_bytes(b"some file content");
    assert_eq!(digest.len(), 64);
    assert!(digest.chars().all(|c| c.is_ascii_hexdigit() && !c.is_ascii_uppercase()));
}
