use pdf_reader::watcher::{watch_next, WatchAction, WatchEvent, WatchState, QUIET_MILLIS};
use pdf_reader::window::{
    count_readers, open_reader, reader_label, reader_url, ReaderPlan, MAX_READER_WINDOWS,
};

fn labels(names: &[&str]) -> Vec<String> {
    names.iter().map(|n| n.to_string()).collect()
}

#[test]
fn a_reader_window_is_labelled_by_the_hash() {
    assert_eq!(reader_label("0123456789abcdef"), "reader-0123456789abcdef");
    assert_eq!(reader_label(""), "reader-");
}

#[test]
fn reader_windows_are_counted_by_their_labels() {
    assert_eq!(count_readers(&labels(&["main", "reader-a", "settings", "reader-b"])), 2);
    assert_eq!(count_readers(&labels(&["main", "Reader-a", "reader"])), 0);
    assert_eq!(count_readers(&labels(&[])), 0);
}

#[test]
fn the_address_carries_the_path_percent_encoded() {
    assert_eq!(
        reader_url("/Users/me/My Book.pdf", "abc123"),
        "src/windows/reader/index.html?path=%2FUsers%2Fme%2FMy%20Book.pdf&hash=abc123"
    );
    assert_eq!(
        reader_url("a-b_c.d~e", "h"),
        "src/windows/reader/index.html?path=a-b_c.d~e&hash=h"
    );
    assert_eq!(
        reader_url("书&?", "h"),
        "src/windows/reader/index.html?path=%E4%B9%A6%26%3F&hash=h"
    );
}

#[test]
fn a_document_that_is_open_gets_the_focus() {
    let open = labels(&["main", "reader-a", "reader-b", "reader-abc"]);
    assert_eq!(
        open_reader(&open, "/b/x.pdf", &Some("x.pdf".to_string()), "abc"),
        ReaderPlan::Focus { label: "reader-abc".to_string() }
    );
}

#[test]
fn a_fourth_reader_window_is_refused() {
    assert_eq!(MAX_READER_WINDOWS, 3);
    let open = labels(&["main", "reader-a", "reader-b", "reader-c"]);
    assert_eq!(open_reader(&open, "/b/x.pdf", &Some("x.pdf".to_string()), "abc"), ReaderPlan::Refuse);
}

#[test]
fn a_new_reader_window_is_titled_with_the_file_name() {
    let open = labels(&["main", "reader-a", "reader-b"]);
    assert_eq!(
        open_reader(&open, "/b/x y.pdf", &Some("x y.pdf".to_string()), "abc"),
        ReaderPlan::Open {
            label: "reader-abc".to_string(),
            title: "x y.pdf".to_string(),
            url: "src/windows/reader/index.html?path=%2Fb%2Fx%20y.pdf&hash=abc".to_string(),
        }
    );
    assert_eq!(
        open_reader(&labels(&[]), "/", &None, "abc"),
        ReaderPlan::Open {
            label: "reader-abc".to_string(),
            title: "PDF Reader".to_string(),
            url: "src/windows/reader/index.html?path=%2F&hash=abc".to_string(),
        }
    );
}

#[test]
fn a_burst_of_changes_is_announced_once_when_it_is_quiet() {
    assert_eq!(QUIET_MILLIS, 500);
    let mut state = WatchState::Idle;
    let mut announced = 0;
    let events = [
        WatchEvent::Quiet,
        WatchEvent::Changed,
        WatchEvent::Changed,
        WatchEvent::Changed,
        WatchEvent::Quiet,
        WatchEvent::Quiet,
        WatchEvent::Changed,
        WatchEvent::Quiet,
    ];
    for event in events {
        let (next, action) = watch_next(state, event, false);
        state = next;
        match action {
            WatchAction::Announce => announced += 1,
            WatchAction::Wait => {}
            other => panic!("{:?}", other),
        }
    }
    assert_eq!(announced, 2);
    assert_eq!(state, WatchState::Idle);
}

#[test]
fn the_watcher_stops_when_told_to_or_when_nothing_can_arrive() {
    assert_eq!(
        watch_next(WatchState::Idle, WatchEvent::Quiet, true),
        (WatchState::Idle, WatchAction::Stop)
    );
    assert_eq!(
        watch_next(WatchState::Idle, WatchEvent::Closed, false),
        (WatchState::Idle, WatchAction::Stop)
    );
    assert_eq!(
        watch_next(WatchState::Idle, WatchEvent::Changed, true),
        (WatchState::Settling, WatchAction::Wait)
    );
    assert_eq!(
        watch_next(WatchState::Settling, WatchEvent::Quiet, true),
        (WatchState::Idle, WatchAction::AnnounceAndStop)
    );
    assert_eq!(
        watch_next(WatchState::Settling, WatchEvent::Closed, false),
        (WatchState::Idle, WatchAction::Announce)
    );
}
