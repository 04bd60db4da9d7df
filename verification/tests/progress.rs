use pdf_reader::progress::{decide, is_later, Direction, ReadingProgress, Replica, ZOOM_ONE_BITS};
use pdf_reader::session::{
    delete, load, save_local, sync, sync_all, Outcome, Reply, Request, Session, SessionError, Step,
};
use std::collections::HashMap;

struct Host {
    local: HashMap<String, ReadingProgress>,
    central: HashMap<String, ReadingProgress>,
    writes: Vec<(Replica, String)>,
    reads: Vec<(Replica, String)>,
    failing_reads: Vec<(Replica, String)>,
    failing_writes: Vec<(Replica, String)>,
}

fn host() -> Host {
    Host {
        local: HashMap::new(),
        central: HashMap::new(),
        writes: Vec::new(),
        reads: Vec::new(),
        failing_reads: Vec::new(),
        failing_writes: Vec::new(),
    }
}

fn answer(host: &mut Host, request: Request) -> Reply {
    match request {
        Request::Read { replica, hash } => {
            host.reads.push((replica, hash.clone()));
            if host.failing_reads.contains(&(replica, hash.clone())) {
                return Reply::Failed(format!("Failed to read progress: {}", hash));
            }
            let store = match replica {
                Replica::Local => &host.local,
                Replica::Central => &host.central,
            };
            Reply::Found(store.get(&hash).cloned())
        }
        Request::Write { replica, hash, record } => {
            if host.failing_writes.contains(&(replica, hash.clone())) {
                return Reply::Failed(format!("Failed to rename progress file: {}", hash));
            }
            host.writes.push((replica, hash.clone()));
            match replica {
                Replica::Local => host.local.insert(hash, record),
                Replica::Central => host.central.insert(hash, record),
            };
            Reply::Done
        }
        Request::Remove { replica, hash } => {
            match replica {
                Replica::Local => host.local.remove(&hash),
                Replica::Central => host.central.remove(&hash),
            };
            Reply::Done
        }
    }
}

fn run(host: &mut Host, start: (Session, Step)) -> Outcome {
    let (mut session, mut step) = start;
    loop {
        match step {
            Step::Finish(outcome) => return outcome,
            Step::Ask(request) => {
                let reply = answer(host, request);
                let turn = session.resume(reply);
                session = turn.0;
                step = turn.1;
            }
        }
    }
}

fn record(hash: &str, page: u32, version: u64, last_read: &str) -> ReadingProgress {
    ReadingProgress {
        hash: hash.to_string(),
        current_page: page,
        total_pages: 100,
        zoom_bits: ZOOM_ONE_BITS,
        scroll_mode: "continuous".to_string(),
        scroll_position_bits: 0,
        last_read: last_read.to_string(),
        version,
    }
}

const EARLY: &str = "2024-01-01T00:00:00.000Z";
const LATE: &str = "2024-01-02T00:00:00.000Z";

#[test]
fn saves_count_up_the_local_version() {
    let mut h = host();
    for n in 1..=5u64 {
        let outcome = run(&mut h, save_local(&record("abc", n as u32, 77, EARLY)));
        assert_eq!(outcome, Outcome::Saved(record("abc", n as u32, n, EARLY)));
        assert_eq!(h.local["abc"].version, n);
    }
    assert!(h.central.is_empty());
}

#[test]
fn save_ignores_the_version_it_is_handed() {
    let mut h = host();
    h.local.insert("abc".to_string(), record("abc", 3, 41, EARLY));
    let outcome = run(&mut h, save_local(&record("abc", 9, 0, LATE)));
    assert_eq!(outcome, Outcome::Saved(record("abc", 9, 42, LATE)));
    assert_eq!(h.local["abc"], record("abc", 9, 42, LATE));
}

#[test]
fn save_fails_when_the_versions_are_used_up() {
    let mut h = host();
    h.local.insert("abc".to_string(), record("abc", 3, u64::MAX, EARLY));
    let outcome = run(&mut h, save_local(&record("abc", 9, 0, LATE)));
    assert_eq!(outcome, Outcome::Failed(SessionError::VersionExhausted));
    assert_eq!(h.local["abc"], record("abc", 3, u64::MAX, EARLY));
    assert!(h.writes.is_empty());
}

#[test]
fn save_passes_a_failed_read_on() {
    let mut h = host();
    h.failing_reads.push((Replica::Local, "abc".to_string()));
    let outcome = run(&mut h, save_local(&record("abc", 9, 0, LATE)));
    assert_eq!(
        outcome,
        Outcome::Failed(SessionError::Host("Failed to read progress: abc".to_string()))
    );
}

#[test]
fn reconciling_twice_writes_nothing_the_second_time() {
    let mut h = host();
    h.local.insert("abc".to_string(), record("abc", 7, 3, EARLY));
    h.central.insert("abc".to_string(), record("abc", 20, 5, EARLY));
    assert_eq!(
        run(&mut h, sync("abc", true)),
        Outcome::Synced(Some(record("abc", 20, 5, EARLY)))
    );
    assert_eq!(h.writes.len(), 1);
    assert_eq!(run(&mut h, sync("abc", true)), Outcome::Synced(None));
    assert_eq!(h.writes.len(), 1);

    let mut h = host();
    h.local.insert("abc".to_string(), record("abc", 7, 3, EARLY));
    assert_eq!(run(&mut h, sync("abc", true)), Outcome::Synced(None));
    assert_eq!(h.writes.len(), 1);
    assert_eq!(run(&mut h, sync("abc", true)), Outcome::Synced(None));
    assert_eq!(h.writes.len(), 1);
}

#[test]
fn higher_central_version_is_pulled() {
    let mut h = host();
    h.local.insert("abc".to_string(), record("abc", 7, 3, LATE));
    h.central.insert("abc".to_string(), record("abc", 20, 5, EARLY));
    let outcome = run(&mut h, sync("abc", true));
    assert_eq!(outcome, Outcome::Synced(Some(record("abc", 20, 5, EARLY))));
    assert_eq!(h.local["abc"], record("abc", 20, 5, EARLY));
    assert_eq!(h.central["abc"], record("abc", 20, 5, EARLY));
    assert_eq!(h.writes, vec![(Replica::Local, "abc".to_string())]);
}

#[test]
fn higher_local_version_is_pushed() {
    let mut h = host();
    h.local.insert("abc".to_string(), record("abc", 7, 7, EARLY));
    h.central.insert("abc".to_string(), record("abc", 20, 2, LATE));
    let outcome = run(&mut h, sync("abc", true));
    assert_eq!(outcome, Outcome::Synced(None));
    assert_eq!(h.central["abc"], record("abc", 7, 7, EARLY));
    assert_eq!(h.local["abc"], record("abc", 7, 7, EARLY));
    assert_eq!(h.writes, vec![(Replica::Central, "abc".to_string())]);
}

#[test]
fn equal_versions_are_decided_by_the_later_timestamp() {
    let mut h = host();
    h.local.insert("abc".to_string(), record("abc", 7, 4, LATE));
    h.central.insert("abc".to_string(), record("abc", 20, 4, EARLY));
    assert_eq!(run(&mut h, sync("abc", true)), Outcome::Synced(None));
    assert_eq!(h.central["abc"], record("abc", 7, 4, LATE));

    let mut h = host();
    h.local.insert("abc".to_string(), record("abc", 7, 4, EARLY));
    h.central.insert("abc".to_string(), record("abc", 20, 4, LATE));
    assert_eq!(
        run(&mut h, sync("abc", true)),
        Outcome::Synced(Some(record("abc", 20, 4, LATE)))
    );
    assert_eq!(h.local["abc"], record("abc", 20, 4, LATE));
}

#[test]
fn equal_versions_and_timestamps_are_left_alone() {
    let mut h = host();
    h.local.insert("abc".to_string(), record("abc", 7, 4, EARLY));
    h.central.insert("abc".to_string(), record("abc", 20, 4, EARLY));
    assert_eq!(run(&mut h, sync("abc", true)), Outcome::Synced(None));
    assert!(h.writes.is_empty());
    assert_eq!(h.local["abc"].current_page, 7);
    assert_eq!(h.central["abc"].current_page, 20);
}

#[test]
fn one_sided_records_are_copied_to_the_other_side() {
    let mut h = host();
    h.central.insert("abc".to_string(), record("abc", 20, 4, EARLY));
    assert_eq!(
        run(&mut h, sync("abc", true)),
        Outcome::Synced(Some(record("abc", 20, 4, EARLY)))
    );
    assert_eq!(h.local["abc"], record("abc", 20, 4, EARLY));

    let mut h = host();
    h.local.insert("abc".to_string(), record("abc", 7, 1, EARLY));
    assert_eq!(run(&mut h, sync("abc", true)), Outcome::Synced(None));
    assert_eq!(h.central["abc"], record("abc", 7, 1, EARLY));

    let mut h = host();
    assert_eq!(run(&mut h, sync("abc", true)), Outcome::Synced(None));
    assert!(h.writes.is_empty());
}

#[test]
fn nothing_is_touched_while_the_central_replica_is_unavailable() {
    let mut h = host();
    h.local.insert("abc".to_string(), record("abc", 7, 3, EARLY));
    h.central.insert("abc".to_string(), record("abc", 20, 5, EARLY));
    assert_eq!(run(&mut h, sync("abc", false)), Outcome::Synced(None));
    assert!(h.reads.is_empty());
    assert!(h.writes.is_empty());
}

#[test]
fn save_then_reconcile_brings_a_new_record_to_the_central_replica() {
    let mut h = host();
    let outcome = run(&mut h, save_local(&record("abc123", 1, 0, EARLY)));
    assert_eq!(outcome, Outcome::Saved(record("abc123", 1, 1, EARLY)));
    assert_eq!(h.local["abc123"].version, 1);
    assert!(h.central.is_empty());
    assert_eq!(run(&mut h, sync("abc123", true)), Outcome::Synced(None));
    assert_eq!(h.central["abc123"], h.local["abc123"]);
    assert_eq!(h.central["abc123"].version, 1);
}

#[test]
fn a_pushed_record_is_filed_under_the_hash_it_names() {
    let mut h = host();
    h.local.insert("abc".to_string(), record("other", 7, 1, EARLY));
    assert_eq!(run(&mut h, sync("abc", true)), Outcome::Synced(None));
    assert_eq!(h.writes, vec![(Replica::Central, "other".to_string())]);
    assert!(!h.central.contains_key("abc"));
}

#[test]
fn load_answers_with_what_was_adopted() {
    let mut h = host();
    h.local.insert("abc".to_string(), record("abc", 7, 3, EARLY));
    h.central.insert("abc".to_string(), record("abc", 20, 5, EARLY));
    assert_eq!(
        run(&mut h, load("abc", true)),
        Outcome::Loaded(Some(record("abc", 20, 5, EARLY)))
    );
    assert_eq!(h.local["abc"], record("abc", 20, 5, EARLY));
}

#[test]
fn load_answers_with_the_local_record_otherwise() {
    let mut h = host();
    h.local.insert("abc".to_string(), record("abc", 7, 6, EARLY));
    h.central.insert("abc".to_string(), record("abc", 20, 5, EARLY));
    assert_eq!(
        run(&mut h, load("abc", true)),
        Outcome::Loaded(Some(record("abc", 7, 6, EARLY)))
    );
    assert_eq!(h.central["abc"], record("abc", 7, 6, EARLY));
}

#[test]
fn load_heals_a_missing_local_record_from_the_central_folder() {
    let mut h = host();
    h.central.insert("abc".to_string(), record("abc", 20, 5, EARLY));
    assert_eq!(
        run(&mut h, load("abc", false)),
        Outcome::Loaded(Some(record("abc", 20, 5, EARLY)))
    );
    assert_eq!(h.local["abc"], record("abc", 20, 5, EARLY));
    assert_eq!(h.writes, vec![(Replica::Local, "abc".to_string())]);
}

#[test]
fn load_of_an_unknown_hash_answers_with_nothing() {
    let mut h = host();
    assert_eq!(run(&mut h, load("abc", true)), Outcome::Loaded(None));
    assert_eq!(run(&mut h, load("abc", false)), Outcome::Loaded(None));
    assert!(h.writes.is_empty());
}

#[test]
fn load_does_not_read_the_central_folder_when_a_local_record_answers() {
    let mut h = host();
    h.local.insert("abc".to_string(), record("abc", 7, 6, EARLY));
    h.failing_reads.push((Replica::Central, "abc".to_string()));
    assert_eq!(
        run(&mut h, load("abc", false)),
        Outcome::Loaded(Some(record("abc", 7, 6, EARLY)))
    );
    assert_eq!(h.reads, vec![(Replica::Local, "abc".to_string())]);
}

#[test]
fn load_passes_the_first_failure_on() {
    let mut h = host();
    h.failing_reads.push((Replica::Central, "abc".to_string()));
    assert_eq!(
        run(&mut h, load("abc", true)),
        Outcome::Failed(SessionError::Host("Failed to read progress: abc".to_string()))
    );
}

#[test]
fn a_batch_hands_back_what_was_adopted_and_passes_over_failures() {
    let mut h = host();
    h.local.insert("a".to_string(), record("a", 1, 1, EARLY));
    h.central.insert("a".to_string(), record("a", 2, 2, EARLY));
    h.local.insert("b".to_string(), record("b", 3, 9, EARLY));
    h.central.insert("b".to_string(), record("b", 4, 2, EARLY));
    h.central.insert("c".to_string(), record("c", 5, 1, EARLY));
    h.failing_reads.push((Replica::Central, "d".to_string()));
    h.central.insert("e".to_string(), record("e", 6, 1, EARLY));
    h.failing_writes.push((Replica::Local, "e".to_string()));
    h.central.insert("f".to_string(), record("f", 7, 1, LATE));
    let hashes: Vec<String> =
        ["a", "b", "c", "d", "e", "f", "g"].iter().map(|s| s.to_string()).collect();
    let outcome = run(&mut h, sync_all(&hashes, true));
    assert_eq!(
        outcome,
        Outcome::SyncedAll(vec![
            record("a", 2, 2, EARLY),
            record("c", 5, 1, EARLY),
            record("f", 7, 1, LATE),
        ])
    );
    assert_eq!(h.central["b"], record("b", 3, 9, EARLY));
    assert!(!h.local.contains_key("e"));
}

#[test]
fn a_batch_does_nothing_while_the_central_replica_is_unavailable() {
    let mut h = host();
    h.central.insert("a".to_string(), record("a", 2, 2, EARLY));
    let hashes = vec!["a".to_string()];
    assert_eq!(run(&mut h, sync_all(&hashes, false)), Outcome::SyncedAll(vec![]));
    assert_eq!(run(&mut h, sync_all(&[], true)), Outcome::SyncedAll(vec![]));
    assert!(h.reads.is_empty());
}

#[test]
fn delete_removes_both_copies() {
    let mut h = host();
    h.local.insert("abc".to_string(), record("abc", 7, 3, EARLY));
    h.central.insert("abc".to_string(), record("abc", 20, 5, EARLY));
    h.local.insert("other".to_string(), record("other", 1, 1, EARLY));
    assert_eq!(run(&mut h, delete("abc")), Outcome::Deleted);
    assert!(!h.local.contains_key("abc"));
    assert!(!h.central.contains_key("abc"));
    assert!(h.local.contains_key("other"));
    assert_eq!(run(&mut h, delete("abc")), Outcome::Deleted);
}

#[test]
fn delete_goes_on_after_a_failed_removal() {
    let (session, step) = delete("abc");
    assert_eq!(
        step,
        Step::Ask(Request::Remove { replica: Replica::Local, hash: "abc".to_string() })
    );
    let (session, step) = session.resume(Reply::Failed("busy".to_string()));
    assert_eq!(
        step,
        Step::Ask(Request::Remove { replica: Replica::Central, hash: "abc".to_string() })
    );
    let (session, step) = session.resume(Reply::Failed("busy".to_string()));
    assert_eq!(step, Step::Finish(Outcome::Deleted));
    assert_eq!(session, Session::Finished);
}

#[test]
fn a_reply_that_answers_nothing_ends_the_session() {
    let (session, _) = sync("abc", true);
    let (session, step) = session.resume(Reply::Done);
    assert_eq!(step, Step::Finish(Outcome::Failed(SessionError::UnexpectedReply)));
    let (_, step) = session.resume(Reply::Found(None));
    assert_eq!(step, Step::Finish(Outcome::Failed(SessionError::UnexpectedReply)));
}

#[test]
fn decide_follows_the_rule() {
    let l = Some(record("abc", 1, 3, LATE));
    let c = Some(record("abc", 2, 5, EARLY));
    assert_eq!(decide(&l, &c), Direction::Pull);
    assert_eq!(decide(&c, &l), Direction::Push);
    assert_eq!(decide(&l, &None), Direction::Push);
    assert_eq!(decide(&None, &c), Direction::Pull);
    assert_eq!(decide(&None, &None), Direction::Keep);
    assert_eq!(decide(&l, &l), Direction::Keep);
}

#[test]
fn timestamps_are_ordered_as_their_texts() {
    assert!(is_later(LATE, EARLY));
    assert!(!is_later(EARLY, LATE));
    assert!(!is_later(EARLY, EARLY));
    assert!(is_later("2024-01-01T00:00:00.001Z", "2024-01-01T00:00:00.000Z"));
    assert!(is_later("ab", "a"));
    assert!(!is_later("a", "ab"));
    assert!(!is_later("", ""));
    assert!(is_later("é", "z"));
}

#[test]
fn an_unread_record_starts_on_the_first_page() {
    let r = ReadingProgress::unread("2024-01-01T00:00:00.000Z".to_string());
    assert_eq!(r.hash, "");
    assert_eq!(r.current_page, 1);
    assert_eq!(r.total_pages, 0);
    assert_eq!(f64::from_bits(r.zoom_bits), 1.0);
    assert_eq!(r.scroll_mode, "continuous");
    assert_eq!(f64::from_bits(r.scroll_position_bits), 0.0);
    assert_eq!(r.last_read, "2024-01-01T00:00:00.000Z");
    assert_eq!(r.version, 0);
}

#[test]
fn an_unread_record_carries_the_instant_as_a_fixed_width_timestamp() {
    let r = ReadingProgress::unread_at(0, 0).unwrap();
    assert_eq!(r.last_read, "1970-01-01T00:00:00.000Z");
    let r = ReadingProgress::unread_at(1_704_067_200, 123_456_789).unwrap();
    assert_eq!(r.last_read, "2024-01-01T00:00:00.123Z");
    assert_eq!(r.current_page, 1);
    assert!(ReadingProgress::unread_at(i64::MAX, 0).is_none());
}
