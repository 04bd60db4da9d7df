use pdf_reader::hash_cache::HashCache;
use pdf_reader::pdf_info::{describe, FileFacts, ModTime, PdfCache, PdfInfo};
use pdf_reader::text::is_blank;
use pdf_reader::scan::{
    compute_hash_cached, extract_info, invalidate_cache, Scan, ScanError, ScanGoal, ScanOutcome,
    ScanPhase, ScanReply, ScanRequest, ScanStep,
};

fn at(secs: u64) -> ModTime {
    ModTime { secs, nanos: 500, before_epoch: false }
}

fn file(path: &str, secs: u64, size: u64) -> FileFacts {
    let name = path.rsplit('/').next().unwrap().to_string();
    let stem = name.trim_end_matches(".pdf").to_string();
    FileFacts {
        path: path.to_string(),
        file_name: Some(name),
        file_stem: Some(stem),
        size,
        mtime: at(secs),
    }
}

fn info(path: &str, filename: &str, title: &str, pages: u32, hash: &str, size: u64) -> PdfInfo {
    PdfInfo {
        path: path.to_string(),
        filename: filename.to_string(),
        title: title.to_string(),
        page_count: pages,
        hash: hash.to_string(),
        file_size: size,
    }
}

struct Host {
    hashed: usize,
    parsed: usize,
    persisted: Vec<String>,
    title: Option<Vec<u8>>,
}

fn run(
    host: &mut Host,
    infos: &mut PdfCache,
    hashes: &mut HashCache,
    start: (Scan, ScanStep),
) -> ScanOutcome {
    let (mut scan, mut step) = start;
    loop {
        let reply = match step {
            ScanStep::Finish(outcome) => return outcome,
            ScanStep::Ask(ScanRequest::Hash) => {
                host.hashed += 1;
                ScanReply::Hashed("0123456789abcdef".to_string())
            }
            ScanStep::Ask(ScanRequest::Persist(text)) => {
                host.persisted.push(text);
                ScanReply::Persisted
            }
            ScanStep::Ask(ScanRequest::Parse) => {
                host.parsed += 1;
                ScanReply::Parsed { page_count: 12, title: host.title.clone() }
            }
        };
        let turn = scan.resume(infos, hashes, reply);
        scan = turn.0;
        step = turn.1;
    }
}

fn host(title: Option<&[u8]>) -> Host {
    Host { hashed: 0, parsed: 0, persisted: Vec::new(), title: title.map(|t| t.to_vec()) }
}

#[test]
fn a_hash_is_computed_once_for_a_file_that_does_not_change() {
    let mut h = host(None);
    let mut infos = PdfCache::new();
    let mut hashes = HashCache::new();
    let start = compute_hash_cached(&hashes, file("/b/a.pdf", 10, 20));
    let first = run(&mut h, &mut infos, &mut hashes, start);
    assert_eq!(first, ScanOutcome::Hash("0123456789abcdef".to_string()));
    assert_eq!(h.hashed, 1);
    assert_eq!(h.persisted, vec![r#"{"/b/a.pdf:10:20":"0123456789abcdef"}"#.to_string()]);
    let (scan, step) = compute_hash_cached(&hashes, file("/b/a.pdf", 10, 20));
    assert_eq!(step, ScanStep::Finish(ScanOutcome::Hash("0123456789abcdef".to_string())));
    assert_eq!(scan.phase, ScanPhase::Finished);
    assert_eq!(scan.goal, ScanGoal::Hash);
    assert_eq!(h.hashed, 1);
}

#[test]
fn a_change_of_time_or_size_asks_for_a_new_hash() {
    let mut hashes = HashCache::new();
    hashes.insert("/b/a.pdf", 10, 20, "0123456789abcdef".to_string());
    let (_, step) = compute_hash_cached(&hashes, file("/b/a.pdf", 11, 20));
    assert_eq!(step, ScanStep::Ask(ScanRequest::Hash));
    let (_, step) = compute_hash_cached(&hashes, file("/b/a.pdf", 10, 21));
    assert_eq!(step, ScanStep::Ask(ScanRequest::Hash));
    let (_, step) = compute_hash_cached(&hashes, file("/b/c.pdf", 10, 20));
    assert_eq!(step, ScanStep::Ask(ScanRequest::Hash));
}

#[test]
fn a_time_before_the_epoch_counts_as_the_epoch_in_the_hash_cache() {
    let mut hashes = HashCache::new();
    hashes.insert("/b/a.pdf", 0, 20, "0123456789abcdef".to_string());
    let mut f = file("/b/a.pdf", 77, 20);
    f.mtime.before_epoch = true;
    assert_eq!(f.mtime.whole_seconds(), 0);
    let (_, step) = compute_hash_cached(&hashes, f);
    assert_eq!(step, ScanStep::Finish(ScanOutcome::Hash("0123456789abcdef".to_string())));
}

#[test]
fn a_description_is_made_once_for_a_file_that_does_not_change() {
    let mut h = host(Some(b"A Title"));
    let mut infos = PdfCache::new();
    let mut hashes = HashCache::new();
    let start = extract_info(&infos, &hashes, file("/b/a.pdf", 10, 20));
    let first = run(&mut h, &mut infos, &mut hashes, start);
    let expected = info("/b/a.pdf", "a.pdf", "A Title", 12, "0123456789abcdef", 20);
    assert_eq!(first, ScanOutcome::Info(expected.clone()));
    assert_eq!((h.hashed, h.parsed), (1, 1));
    let (_, step) = extract_info(&infos, &hashes, file("/b/a.pdf", 10, 20));
    assert_eq!(step, ScanStep::Finish(ScanOutcome::Info(expected)));
}

#[test]
fn a_known_hash_spares_the_reading_but_not_the_parsing() {
    let mut h = host(None);
    let mut infos = PdfCache::new();
    let mut hashes = HashCache::new();
    hashes.insert("/b/a.pdf", 10, 20, "aaaaaaaaaaaaaaaa".to_string());
    let start = extract_info(&infos, &hashes, file("/b/a.pdf", 10, 20));
    let outcome = run(&mut h, &mut infos, &mut hashes, start);
    assert_eq!(
        outcome,
        ScanOutcome::Info(info("/b/a.pdf", "a.pdf", "a", 12, "aaaaaaaaaaaaaaaa", 20))
    );
    assert_eq!((h.hashed, h.parsed), (0, 1));
    assert!(h.persisted.is_empty());
}

#[test]
fn a_new_description_drops_the_stale_ones_of_the_same_file() {
    let mut h = host(Some(b"T"));
    let mut infos = PdfCache::new();
    let mut hashes = HashCache::new();
    let start = extract_info(&infos, &hashes, file("/b/a.pdf", 10, 20));
    run(&mut h, &mut infos, &mut hashes, start);
    let start = extract_info(&infos, &hashes, file("/b/other.pdf", 10, 20));
    run(&mut h, &mut infos, &mut hashes, start);
    let start = extract_info(&infos, &hashes, file("/b/a.pdf", 11, 20));
    run(&mut h, &mut infos, &mut hashes, start);
    assert!(infos.get("/b/a.pdf", at(10)).is_none());
    assert!(infos.get("/b/a.pdf", at(11)).is_some());
    assert!(infos.get("/b/other.pdf", at(10)).is_some());
    assert_eq!(hashes.get("/b/a.pdf", 10, 20), Some("0123456789abcdef".to_string()));
    assert_eq!(hashes.get("/b/a.pdf", 11, 20), Some("0123456789abcdef".to_string()));
}

#[test]
fn the_metadata_cache_tells_modification_times_apart_to_the_nanosecond() {
    let mut infos = PdfCache::new();
    let i = info("/b/a.pdf", "a.pdf", "T", 1, "h", 2);
    infos.insert("/b/a.pdf", at(10), i.clone());
    assert_eq!(infos.get("/b/a.pdf", at(10)), Some(i));
    assert_eq!(infos.get("/b/a.pdf", ModTime { secs: 10, nanos: 501, before_epoch: false }), None);
    assert_eq!(infos.get("/b/a.pdf", ModTime { secs: 10, nanos: 500, before_epoch: true }), None);
}

#[test]
fn a_failed_reading_or_parsing_ends_the_scan_with_the_failure() {
    let mut infos = PdfCache::new();
    let mut hashes = HashCache::new();
    let (scan, _) = extract_info(&infos, &hashes, file("/b/a.pdf", 10, 20));
    let (_, step) =
        scan.resume(&mut infos, &mut hashes, ScanReply::Failed("Failed to open file".to_string()));
    assert_eq!(
        step,
        ScanStep::Finish(ScanOutcome::Failed(ScanError::Host("Failed to open file".to_string())))
    );
    let (scan, _) = extract_info(&infos, &hashes, file("/b/a.pdf", 10, 20));
    let (scan, step) =
        scan.resume(&mut infos, &mut hashes, ScanReply::Hashed("aaaaaaaaaaaaaaaa".to_string()));
    assert!(matches!(step, ScanStep::Ask(ScanRequest::Persist(_))));
    let (scan, step) =
        scan.resume(&mut infos, &mut hashes, ScanReply::Failed("disk full".to_string()));
    assert_eq!(step, ScanStep::Ask(ScanRequest::Parse));
    let (_, step) =
        scan.resume(&mut infos, &mut hashes, ScanReply::Failed("Failed to load PDF".to_string()));
    assert_eq!(
        step,
        ScanStep::Finish(ScanOutcome::Failed(ScanError::Host("Failed to load PDF".to_string())))
    );
    assert_eq!(hashes.get("/b/a.pdf", 10, 20), Some("aaaaaaaaaaaaaaaa".to_string()));
    assert!(infos.get("/b/a.pdf", at(10)).is_none());
}

#[test]
fn a_reply_that_answers_nothing_ends_the_scan() {
    let mut infos = PdfCache::new();
    let mut hashes = HashCache::new();
    let (scan, _) = extract_info(&infos, &hashes, file("/b/a.pdf", 10, 20));
    let (scan, step) = scan.resume(&mut infos, &mut hashes, ScanReply::Persisted);
    assert_eq!(step, ScanStep::Finish(ScanOutcome::Failed(ScanError::UnexpectedReply)));
    let (_, step) = scan.resume(&mut infos, &mut hashes, ScanReply::Persisted);
    assert_eq!(step, ScanStep::Finish(ScanOutcome::Failed(ScanError::UnexpectedReply)));
    assert_eq!(hashes.get("/b/a.pdf", 10, 20), None);
}

#[test]
fn invalidation_clears_both_caches_for_the_path_and_for_no_other() {
    let mut h = host(Some(b"T"));
    let mut infos = PdfCache::new();
    let mut hashes = HashCache::new();
    for (path, secs) in [("/b/a.pdf", 10), ("/b/a.pdf", 11), ("/b/c.pdf", 10)] {
        let start = extract_info(&infos, &hashes, file(path, secs, 20));
        run(&mut h, &mut infos, &mut hashes, start);
    }
    let text = invalidate_cache(&mut infos, &mut hashes, "/b/a.pdf");
    assert_eq!(text.unwrap(), r#"{"/b/c.pdf:10:20":"0123456789abcdef"}"#);
    assert!(infos.get("/b/a.pdf", at(10)).is_none());
    assert!(infos.get("/b/a.pdf", at(11)).is_none());
    assert_eq!(hashes.get("/b/a.pdf", 10, 20), None);
    assert_eq!(hashes.get("/b/a.pdf", 11, 20), None);
    assert!(infos.get("/b/c.pdf", at(10)).is_some());
    assert_eq!(hashes.get("/b/c.pdf", 10, 20), Some("0123456789abcdef".to_string()));
    let start = extract_info(&infos, &hashes, file("/b/a.pdf", 11, 20));
    assert_eq!(start.1, ScanStep::Ask(ScanRequest::Hash));
}

#[test]
fn the_title_falls_back_to_the_stem_and_the_name_to_unknown() {
    let f = file("/b/My Book.pdf", 1, 9);
    assert_eq!(describe(&f, "h".to_string(), 3, Some(b"Real Title".to_vec())).title, "Real Title");
    assert_eq!(describe(&f, "h".to_string(), 3, Some("标题".as_bytes().to_vec())).title, "标题");
    assert_eq!(describe(&f, "h".to_string(), 3, None).title, "My Book");
    assert_eq!(describe(&f, "h".to_string(), 3, Some(b"".to_vec())).title, "My Book");
    assert_eq!(describe(&f, "h".to_string(), 3, Some(b" \t\n ".to_vec())).title, "My Book");
    assert_eq!(
        describe(&f, "h".to_string(), 3, Some("\u{3000}\u{a0}".as_bytes().to_vec())).title,
        "My Book"
    );
    assert_eq!(describe(&f, "h".to_string(), 3, Some(vec![0xff, 0xfe, 0x41])).title, "My Book");
    assert_eq!(describe(&f, "h".to_string(), 3, Some(b" x ".to_vec())).title, " x ");
    let bare = FileFacts {
        path: "/".to_string(),
        file_name: None,
        file_stem: None,
        size: 9,
        mtime: at(1),
    };
    assert_eq!(
        describe(&bare, "h".to_string(), 3, None),
        info("/", "unknown", "Untitled", 3, "h", 9)
    );
}

#[test]
fn blank_means_white_space_only() {
    assert!(is_blank(""));
    assert!(is_blank(" \t\r\n"));
    assert!(is_blank("\u{2003}"));
    assert!(!is_blank(" a "));
    assert!(!is_blank("_"));
}
