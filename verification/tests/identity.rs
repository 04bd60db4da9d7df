use pdf_reader::identity::{compute_hash, ContentHasher};

#[test]
fn content_hash_is_the_head_of_the_sha256_digest() {
    assert_eq!(compute_hash(b""), "e3b0c44298fc1c14");
    assert_eq!(compute_hash(b"abc"), "ba7816bf8f01cfea");
}

#[test]
fn content_hash_has_sixteen_hexadecimal_digits() {
    let hash = compute_hash(b"some document");
    assert_eq!(hash.len(), 16);
    assert!(hash.chars().all(|c| c.is_ascii_digit() || ('a'..='f').contains(&c)));
}

#[test]
fn equal_contents_have_equal_hashes() {
    assert_eq!(compute_hash(b"same bytes"), compute_hash(b"same bytes"));
    assert_ne!(compute_hash(b"same bytes"), compute_hash(b"other bytes"));
}

#[test]
fn hashing_in_pieces_gives_the_hash_of_the_whole() {
    let data: Vec<u8> = (0..20_000u32).map(|i| (i % 251) as u8).collect();
    let mut hasher = ContentHasher::new();
    for chunk in data.chunks(8192) {
        hasher.update(chunk);
    }
    assert_eq!(hasher.finish(), compute_hash(&data));
    let mut hasher = ContentHasher::new();
    hasher.update(b"a");
    hasher.update(b"");
    hasher.update(b"bc");
    assert_eq!(hasher.finish(), "ba7816bf8f01cfea");
    assert_eq!(ContentHasher::new().finish(), "e3b0c44298fc1c14");
}
