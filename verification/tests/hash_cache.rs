use pdf_reader::hash_cache::{hash_cache_key, parse_hash_cache_key, HashCache};

#[test]
fn a_key_joins_path_time_and_size_with_colons() {
    assert_eq!(hash_cache_key("/books/a.pdf", 1700000000, 12345), "/books/a.pdf:1700000000:12345");
    assert_eq!(hash_cache_key("", 0, 0), ":0:0");
    assert_eq!(hash_cache_key("C:/x.pdf", 7, u64::MAX), "C:/x.pdf:7:18446744073709551615");
}

#[test]
fn a_key_is_taken_apart_into_what_it_was_made_of() {
    assert_eq!(
        parse_hash_cache_key("/books/a.pdf:1700000000:12345"),
        Some(("/books/a.pdf".to_string(), 1700000000, 12345))
    );
    assert_eq!(parse_hash_cache_key(":0:0"), Some((String::new(), 0, 0)));
    assert_eq!(
        parse_hash_cache_key("/a:12:b.pdf:3:4"),
        Some(("/a:12:b.pdf".to_string(), 3, 4))
    );
    let key = hash_cache_key("/书/b:c.pdf", 5, 6);
    assert_eq!(parse_hash_cache_key(&key), Some(("/书/b:c.pdf".to_string(), 5, 6)));
}

#[test]
fn a_text_that_is_no_key_is_not_taken_apart() {
    assert_eq!(parse_hash_cache_key(""), None);
    assert_eq!(parse_hash_cache_key("/books/a.pdf"), None);
    assert_eq!(parse_hash_cache_key("/books/a.pdf:12"), None);
    assert_eq!(parse_hash_cache_key("/books/a.pdf:12:"), None);
    assert_eq!(parse_hash_cache_key("/books/a.pdf::12"), None);
    assert_eq!(parse_hash_cache_key("/books/a.pdf:012:5"), None);
    assert_eq!(parse_hash_cache_key("/books/a.pdf:12:5x"), None);
    assert_eq!(parse_hash_cache_key("/books/a.pdf:12:18446744073709551616"), None);
}

#[test]
fn a_hash_is_found_only_for_the_same_path_time_and_size() {
    let mut cache = HashCache::new();
    assert_eq!(cache.get("/a.pdf", 1, 2), None);
    cache.insert("/a.pdf", 1, 2, "aaaa".to_string());
    assert_eq!(cache.get("/a.pdf", 1, 2), Some("aaaa".to_string()));
    assert_eq!(cache.get("/a.pdf", 1, 3), None);
    assert_eq!(cache.get("/a.pdf", 2, 2), None);
    assert_eq!(cache.get("/b.pdf", 1, 2), None);
}

#[test]
fn a_new_hash_replaces_the_one_for_the_same_key_only() {
    let mut cache = HashCache::new();
    cache.insert("/a.pdf", 1, 2, "aaaa".to_string());
    cache.insert("/a.pdf", 1, 3, "bbbb".to_string());
    cache.insert("/a.pdf", 1, 2, "cccc".to_string());
    assert_eq!(cache.get("/a.pdf", 1, 2), Some("cccc".to_string()));
    assert_eq!(cache.get("/a.pdf", 1, 3), Some("bbbb".to_string()));
    assert_eq!(cache.len(), 2);
    assert_eq!(cache.to_json().unwrap(), r#"{"/a.pdf:1:2":"cccc","/a.pdf:1:3":"bbbb"}"#);
}

#[test]
fn removing_a_path_forgets_all_its_states_and_nothing_else() {
    let mut cache = HashCache::new();
    cache.insert("/a.pdf", 1, 2, "a1".to_string());
    cache.insert("/b.pdf", 1, 2, "b1".to_string());
    cache.insert("/a.pdf", 5, 9, "a2".to_string());
    cache.insert("/a.pdf:1", 2, 3, "c1".to_string());
    cache.insert("/a", 4, 4, "d1".to_string());
    cache.remove_path("/a.pdf");
    assert_eq!(cache.get("/a.pdf", 1, 2), None);
    assert_eq!(cache.get("/a.pdf", 5, 9), None);
    assert_eq!(cache.get("/b.pdf", 1, 2), Some("b1".to_string()));
    assert_eq!(cache.get("/a.pdf:1", 2, 3), Some("c1".to_string()));
    assert_eq!(cache.get("/a", 4, 4), Some("d1".to_string()));
    cache.remove_path("/missing.pdf");
    assert_eq!(cache.get("/b.pdf", 1, 2), Some("b1".to_string()));
}

#[test]
fn the_cache_is_kept_as_a_json_map_from_key_to_hash() {
    let mut cache = HashCache::new();
    assert_eq!(cache.to_json().unwrap(), "{}");
    cache.insert("/b.pdf", 10, 20, "0123456789abcdef".to_string());
    cache.insert("/a \"x\".pdf", 1, 2, "fedcba9876543210".to_string());
    assert_eq!(
        cache.to_json().unwrap(),
        r#"{"/a \"x\".pdf:1:2":"fedcba9876543210","/b.pdf:10:20":"0123456789abcdef"}"#
    );
}

#[test]
fn what_was_written_reads_back() {
    let mut cache = HashCache::new();
    cache.insert("/b.pdf", 10, 20, "0123456789abcdef".to_string());
    cache.insert("/书/a:b.pdf", 1, 2, "fedcba9876543210".to_string());
    let text = cache.to_json().unwrap();
    let back = HashCache::from_json(&text);
    assert_eq!(back.get("/b.pdf", 10, 20), Some("0123456789abcdef".to_string()));
    assert_eq!(back.get("/书/a:b.pdf", 1, 2), Some("fedcba9876543210".to_string()));
    assert_eq!(back.get("/b.pdf", 10, 21), None);
    assert_eq!(back.to_json().unwrap(), text);
}

#[test]
fn a_corrupt_file_stands_for_the_empty_cache() {
    for text in ["", "not json", "[1,2]", r#"{"/a.pdf:1:2":5}"#, r#"{"/a.pdf:1:2":"x""#] {
        let cache = HashCache::from_json(text);
        assert_eq!(cache.get("/a.pdf", 1, 2), None);
        assert_eq!(cache.to_json().unwrap(), "{}");
    }
}

#[test]
fn entries_whose_key_is_no_key_are_passed_over() {
    let cache = HashCache::from_json(
        r#"{"garbage":"x","/a.pdf:1:2":"aaaa","/a.pdf:01:2":"bbbb","/b.pdf:3:4":"cccc"}"#,
    );
    assert_eq!(cache.get("/a.pdf", 1, 2), Some("aaaa".to_string()));
    assert_eq!(cache.get("/b.pdf", 3, 4), Some("cccc".to_string()));
    assert_eq!(cache.to_json().unwrap(), r#"{"/a.pdf:1:2":"aaaa","/b.pdf:3:4":"cccc"}"#);
}
