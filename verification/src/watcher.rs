//! The rule by which changes in the folder of documents are announced: a
//! burst of changes is announced once, when it has been quiet for one
//! interval.

use vstd::prelude::*;

verus! {

/// The length of one interval of waiting, in milliseconds.
pub const QUIET_MILLIS: u64 = 500;

/// What the watcher is in the middle of.
#[derive(Debug, Clone, Copy, PartialEq, Eq, Structural)]
pub enum WatchState {
    /// Nothing has changed since the last announcement.
    Idle,
    /// Something has changed, and it has not been quiet for an interval yet.
    Settling,
}

/// What came of waiting for one interval.
#[derive(Debug, Clone, Copy, PartialEq, Eq, Structural)]
pub enum WatchEvent {
    /// A document changed.
    Changed,
    /// The interval passed without a change.
    Quiet,
    /// No change can arrive any more.
    Closed,
}

/// What the watcher does next.
#[derive(Debug, Clone, Copy, PartialEq, Eq, Structural)]
pub enum WatchAction {
    /// Wait for one more interval.
    Wait,
    /// Announce that documents changed, then wait for one more interval.
    Announce,
    /// Announce that documents changed, then end.
    AnnounceAndStop,
    /// End.
    Stop,
}

/// The watcher's state and what it does after `event`, given whether it was
/// told to stop. A change starts or prolongs the settling; the settling ends
/// in an announcement; the watcher stops once it is idle and was told to, or
/// once no change can arrive any more.
pub open spec fn watch_spec(state: WatchState, event: WatchEvent, stop: bool) -> (
    WatchState,
    WatchAction,
) {
    match (state, event) {
        (_, WatchEvent::Changed) => (WatchState::Settling, WatchAction::Wait),
        (WatchState::Idle, WatchEvent::Quiet) => (
            WatchState::Idle,
            if stop {
                WatchAction::Stop
            } else {
                WatchAction::Wait
            },
        ),
        (WatchState::Idle, WatchEvent::Closed) => (WatchState::Idle, WatchAction::Stop),
        (WatchState::Settling, _) => (
            WatchState::Idle,
            if stop {
                WatchAction::AnnounceAndStop
            } else {
                WatchAction::Announce
            },
        ),
    }
}

/// The watcher's state and what it does after `event`.
pub fn watch_next(state: WatchState, event: WatchEvent, stop: bool) -> (turn: (
    WatchState,
    WatchAction,
))
    ensures
        turn == watch_spec(state, event, stop),
{
    match event {
        WatchEvent::Changed => (WatchState::Settling, WatchAction::Wait),
        WatchEvent::Quiet | WatchEvent::Closed => match state {
            WatchState::Settling => (
                WatchState::Idle,
                if stop {
                    WatchAction::AnnounceAndStop
                } else {
                    WatchAction::Announce
                },
            ),
            WatchState::Idle => (
                WatchState::Idle,
                if stop || event == WatchEvent::Closed {
                    WatchAction::Stop
                } else {
                    WatchAction::Wait
                },
            ),
        },
    }
}

} // verus!
