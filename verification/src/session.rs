//! The progress operations as sessions.
//!
//! An operation on reading progress reads and writes record files in turn.
//! This module holds the decisions and leaves the files to a host: a session
//! asks the host for one read, write or removal at a time, and the host hands
//! back what came of it. `sync`, `load`, `save_local`, `sync_all` and `delete`
//! open a session; [`Session::resume`] takes it one step further.
//!
//! The host is expected to run one session at a time, from its first request
//! to its end, so that no other write falls between a session's read and its
//! write.

use crate::progress::{
    after_delete, after_load, after_save, after_sync, after_sync_all, decide, next_version,
    reconcile, saved_record, view_of, Direction, ProgressView, ReadingProgress, Replica, Replicas,
};
use vstd::prelude::*;

verus! {

/// What a session asks of its host.
#[derive(Debug, PartialEq)]
pub enum Request {
    /// Read the record filed under `hash` in `replica`.
    Read { replica: Replica, hash: String },
    /// File `record` under `hash` in `replica`, replacing what is there.
    Write { replica: Replica, hash: String, record: ReadingProgress },
    /// Remove what is filed under `hash` in `replica`, if anything is.
    Remove { replica: Replica, hash: String },
}

/// The mathematical value of a [`Request`].
pub ghost enum RequestView {
    Read { replica: Replica, hash: Seq<char> },
    Write { replica: Replica, hash: Seq<char>, record: ProgressView },
    Remove { replica: Replica, hash: Seq<char> },
}

impl View for Request {
    type V = RequestView;

    open spec fn view(&self) -> RequestView {
        match *self {
            Request::Read { replica, hash } => RequestView::Read { replica, hash: hash@ },
            Request::Write { replica, hash, record } => RequestView::Write {
                replica,
                hash: hash@,
                record: record@,
            },
            Request::Remove { replica, hash } => RequestView::Remove { replica, hash: hash@ },
        }
    }
}

/// What the host hands back for a request.
#[derive(Debug, PartialEq)]
pub enum Reply {
    /// A read went through: the record, or nothing where none is filed.
    Found(Option<ReadingProgress>),
    /// A write or a removal went through.
    Done,
    /// The request failed, with the host's words for it.
    Failed(String),
}

/// The mathematical value of a [`Reply`].
pub ghost enum ReplyView {
    Found(Option<ProgressView>),
    Done,
    Failed(Seq<char>),
}

impl View for Reply {
    type V = ReplyView;

    open spec fn view(&self) -> ReplyView {
        match *self {
            Reply::Found(record) => ReplyView::Found(view_of(record)),
            Reply::Done => ReplyView::Done,
            Reply::Failed(message) => ReplyView::Failed(message@),
        }
    }
}

/// Why a session ended without a result.
#[derive(Debug, PartialEq)]
pub enum SessionError {
    /// A request failed; the host's words are passed on.
    Host(String),
    /// The local record already has the highest version there is.
    VersionExhausted,
    /// The reply does not answer the request that was made.
    UnexpectedReply,
}

/// The mathematical value of a [`SessionError`].
pub ghost enum SessionErrorView {
    Host(Seq<char>),
    VersionExhausted,
    UnexpectedReply,
}

impl View for SessionError {
    type V = SessionErrorView;

    open spec fn view(&self) -> SessionErrorView {
        match *self {
            SessionError::Host(message) => SessionErrorView::Host(message@),
            SessionError::VersionExhausted => SessionErrorView::VersionExhausted,
            SessionError::UnexpectedReply => SessionErrorView::UnexpectedReply,
        }
    }
}

/// The values of the records in `records`.
pub open spec fn views(records: Seq<ReadingProgress>) -> Seq<ProgressView> {
    records.map_values(|r: ReadingProgress| r@)
}

/// The texts of the strings in `strings`.
pub open spec fn texts(strings: Seq<String>) -> Seq<Seq<char>> {
    strings.map_values(|s: String| s@)
}

/// How a session ended.
#[derive(Debug, PartialEq)]
pub enum Outcome {
    /// A save stored this record in the local replica.
    Saved(ReadingProgress),
    /// A reconciliation ended; the record is the central one where it was
    /// adopted.
    Synced(Option<ReadingProgress>),
    /// A load ended with this record, or with none.
    Loaded(Option<ReadingProgress>),
    /// A batch ended; these records were adopted from the central replica.
    SyncedAll(Vec<ReadingProgress>),
    /// A deletion ended.
    Deleted,
    /// The session gave up.
    Failed(SessionError),
}

/// The mathematical value of a [`Outcome`].
pub ghost enum OutcomeView {
    Saved(ProgressView),
    Synced(Option<ProgressView>),
    Loaded(Option<ProgressView>),
    SyncedAll(Seq<ProgressView>),
    Deleted,
    Failed(SessionErrorView),
}

impl View for Outcome {
    type V = OutcomeView;

    open spec fn view(&self) -> OutcomeView {
        match *self {
            Outcome::Saved(record) => OutcomeView::Saved(record@),
            Outcome::Synced(record) => OutcomeView::Synced(view_of(record)),
            Outcome::Loaded(record) => OutcomeView::Loaded(view_of(record)),
            Outcome::SyncedAll(records) => OutcomeView::SyncedAll(views(records@)),
            Outcome::Deleted => OutcomeView::Deleted,
            Outcome::Failed(error) => OutcomeView::Failed(error@),
        }
    }
}

/// What a session does next.
#[derive(Debug, PartialEq)]
pub enum Step {
    /// The host is to carry out the request and resume the session with the
    /// reply.
    Ask(Request),
    /// The session is over.
    Finish(Outcome),
}

/// The mathematical value of a [`Step`].
pub ghost enum StepView {
    Ask(RequestView),
    Finish(OutcomeView),
}

impl View for Step {
    type V = StepView;

    open spec fn view(&self) -> StepView {
        match *self {
            Step::Ask(request) => StepView::Ask(request@),
            Step::Finish(outcome) => StepView::Finish(outcome@),
        }
    }
}

/// What a reconciliation is part of.
#[derive(Debug, PartialEq)]
pub enum Goal {
    /// It stands alone.
    Sync,
    /// It opens a load.
    Load,
    /// It is the one for `hashes[next]` in a batch that has adopted `updated`
    /// so far.
    Batch { hashes: Vec<String>, next: usize, updated: Vec<ReadingProgress> },
}

/// The mathematical value of a [`Goal`].
pub ghost enum GoalView {
    Sync,
    Load,
    Batch { hashes: Seq<Seq<char>>, next: nat, updated: Seq<ProgressView> },
}

impl View for Goal {
    type V = GoalView;

    open spec fn view(&self) -> GoalView {
        match *self {
            Goal::Sync => GoalView::Sync,
            Goal::Load => GoalView::Load,
            Goal::Batch { hashes, next, updated } => GoalView::Batch {
                hashes: texts(hashes@),
                next: next as nat,
                updated: views(updated@),
            },
        }
    }
}

/// A running operation: what it waits for, and what it has to remember.
#[derive(Debug, PartialEq)]
pub enum Session {
    /// Reconciling `hash`: waits for the local record.
    SyncLocal { goal: Goal, hash: String },
    /// Reconciling `hash`: has the local record, waits for the central one.
    SyncCentral { goal: Goal, hash: String, local: Option<ReadingProgress> },
    /// Reconciling `hash`: waits for the local record to be written to the
    /// central replica.
    Pushing { goal: Goal, hash: String },
    /// Reconciling `hash`: waits for the central record to be written to the
    /// local replica.
    Pulling { goal: Goal, hash: String, record: ReadingProgress },
    /// Loading `hash`, the reconciliation having handed nothing back: waits
    /// for the local record.
    LoadLocal { hash: String },
    /// Loading `hash`, with no local record: waits for the central one.
    LoadCentral { hash: String },
    /// Loading: waits for the central record to be copied to the local
    /// replica.
    Healing { record: ReadingProgress },
    /// Saving `record`: waits for the current local record.
    SaveRead { record: ReadingProgress },
    /// Saving: waits for `saved` to be written.
    SaveWrite { saved: ReadingProgress },
    /// Deleting `hash`: waits for the local removal.
    DeleteLocal { hash: String },
    /// Deleting: waits for the central removal.
    DeleteCentral,
    /// Over.
    Finished,
}

/// The mathematical value of a [`Session`].
pub ghost enum SessionView {
    SyncLocal { goal: GoalView, hash: Seq<char> },
    SyncCentral { goal: GoalView, hash: Seq<char>, local: Option<ProgressView> },
    Pushing { goal: GoalView, hash: Seq<char> },
    Pulling { goal: GoalView, hash: Seq<char>, record: ProgressView },
    LoadLocal { hash: Seq<char> },
    LoadCentral { hash: Seq<char> },
    Healing { record: ProgressView },
    SaveRead { record: ProgressView },
    SaveWrite { saved: ProgressView },
    DeleteLocal { hash: Seq<char> },
    DeleteCentral,
    Finished,
}

impl View for Session {
    type V = SessionView;

    open spec fn view(&self) -> SessionView {
        match *self {
            Session::SyncLocal { goal, hash } => SessionView::SyncLocal { goal: goal@, hash: hash@ },
            Session::SyncCentral { goal, hash, local } => SessionView::SyncCentral {
                goal: goal@,
                hash: hash@,
                local: view_of(local),
            },
            Session::Pushing { goal, hash } => SessionView::Pushing { goal: goal@, hash: hash@ },
            Session::Pulling { goal, hash, record } => SessionView::Pulling {
                goal: goal@,
                hash: hash@,
                record: record@,
            },
            Session::LoadLocal { hash } => SessionView::LoadLocal { hash: hash@ },
            Session::LoadCentral { hash } => SessionView::LoadCentral { hash: hash@ },
            Session::Healing { record } => SessionView::Healing { record: record@ },
            Session::SaveRead { record } => SessionView::SaveRead { record: record@ },
            Session::SaveWrite { saved } => SessionView::SaveWrite { saved: saved@ },
            Session::DeleteLocal { hash } => SessionView::DeleteLocal { hash: hash@ },
            Session::DeleteCentral => SessionView::DeleteCentral,
            Session::Finished => SessionView::Finished,
        }
    }
}

/// A session that is over, with its outcome.
pub open spec fn finished(outcome: OutcomeView) -> (SessionView, StepView) {
    (SessionView::Finished, StepView::Finish(outcome))
}

/// A session that waits for the local record of `hash`, to reconcile it.
pub open spec fn reading(goal: GoalView, hash: Seq<char>) -> (SessionView, StepView) {
    (
        SessionView::SyncLocal { goal, hash },
        StepView::Ask(RequestView::Read { replica: Replica::Local, hash }),
    )
}

/// A batch after the reconciliation of `hashes[next]`: it goes on with the
/// hash that follows, or ends with what it has adopted.
pub open spec fn advance(hashes: Seq<Seq<char>>, next: nat, updated: Seq<ProgressView>) -> (
    SessionView,
    StepView,
) {
    if next + 1 < hashes.len() {
        reading(
            GoalView::Batch { hashes, next: (next + 1) as nat, updated },
            hashes[next as int + 1],
        )
    } else {
        finished(OutcomeView::SyncedAll(updated))
    }
}

/// What follows a reconciliation of `hash` that went through and handed
/// `adopted` back. A load that got nothing turns to the local record; a
/// batch keeps what was adopted and goes on.
pub open spec fn conclude(goal: GoalView, hash: Seq<char>, adopted: Option<ProgressView>) -> (
    SessionView,
    StepView,
) {
    match goal {
        GoalView::Sync => finished(OutcomeView::Synced(adopted)),
        GoalView::Load => if adopted is Some {
            finished(OutcomeView::Loaded(adopted))
        } else {
            (
                SessionView::LoadLocal { hash },
                StepView::Ask(RequestView::Read { replica: Replica::Local, hash }),
            )
        },
        GoalView::Batch { hashes, next, updated } => advance(
            hashes,
            next,
            match adopted {
                Some(record) => updated.push(record),
                None => updated,
            },
        ),
    }
}

/// What follows a reconciliation in which a request failed. A batch passes
/// over the hash and goes on; anything else ends with the failure.
pub open spec fn give_up(goal: GoalView, message: Seq<char>) -> (SessionView, StepView) {
    match goal {
        GoalView::Batch { hashes, next, updated } => advance(hashes, next, updated),
        _ => finished(OutcomeView::Failed(SessionErrorView::Host(message))),
    }
}

/// A session that got a reply which answers no request of its own.
pub open spec fn confused() -> (SessionView, StepView) {
    finished(OutcomeView::Failed(SessionErrorView::UnexpectedReply))
}

/// The session and its next step after `reply` came in.
pub open spec fn next(session: SessionView, reply: ReplyView) -> (SessionView, StepView) {
    match session {
        SessionView::SyncLocal { goal, hash } => match reply {
            ReplyView::Found(local) => (
                SessionView::SyncCentral { goal, hash, local },
                StepView::Ask(RequestView::Read { replica: Replica::Central, hash }),
            ),
            ReplyView::Failed(message) => give_up(goal, message),
            ReplyView::Done => confused(),
        },
        SessionView::SyncCentral { goal, hash, local } => match reply {
            ReplyView::Found(central) => match reconcile(local, central) {
                Direction::Keep => conclude(goal, hash, None),
                Direction::Push => (
                    SessionView::Pushing { goal, hash },
                    StepView::Ask(
                        RequestView::Write {
                            replica: Replica::Central,
                            hash: local->0.hash,
                            record: local->0,
                        },
                    ),
                ),
                Direction::Pull => (
                    SessionView::Pulling { goal, hash, record: central->0 },
                    StepView::Ask(
                        RequestView::Write { replica: Replica::Local, hash, record: central->0 },
                    ),
                ),
            },
            ReplyView::Failed(message) => give_up(goal, message),
            ReplyView::Done => confused(),
        },
        SessionView::Pushing { goal, hash } => match reply {
            ReplyView::Done => conclude(goal, hash, None),
            ReplyView::Failed(message) => give_up(goal, message),
            ReplyView::Found(_) => confused(),
        },
        SessionView::Pulling { goal, hash, record } => match reply {
            ReplyView::Done => conclude(goal, hash, Some(record)),
            ReplyView::Failed(message) => give_up(goal, message),
            ReplyView::Found(_) => confused(),
        },
        SessionView::LoadLocal { hash } => match reply {
            ReplyView::Found(Some(local)) => finished(OutcomeView::Loaded(Some(local))),
            ReplyView::Found(None) => (
                SessionView::LoadCentral { hash },
                StepView::Ask(RequestView::Read { replica: Replica::Central, hash }),
            ),
            ReplyView::Failed(message) => give_up(GoalView::Load, message),
            ReplyView::Done => confused(),
        },
        SessionView::LoadCentral { hash } => match reply {
            ReplyView::Found(Some(central)) => (
                SessionView::Healing { record: central },
                StepView::Ask(
                    RequestView::Write { replica: Replica::Local, hash, record: central },
                ),
            ),
            ReplyView::Found(None) => finished(OutcomeView::Loaded(None)),
            ReplyView::Failed(message) => give_up(GoalView::Load, message),
            ReplyView::Done => confused(),
        },
        SessionView::Healing { record } => match reply {
            ReplyView::Done => finished(OutcomeView::Loaded(Some(record))),
            ReplyView::Failed(message) => give_up(GoalView::Load, message),
            ReplyView::Found(_) => confused(),
        },
        SessionView::SaveRead { record } => match reply {
            ReplyView::Found(current) => if next_version(current) > u64::MAX {
                finished(OutcomeView::Failed(SessionErrorView::VersionExhausted))
            } else {
                (
                    SessionView::SaveWrite { saved: saved_record(record, current) },
                    StepView::Ask(
                        RequestView::Write {
                            replica: Replica::Local,
                            hash: record.hash,
                            record: saved_record(record, current),
                        },
                    ),
                )
            },
            ReplyView::Failed(message) => give_up(GoalView::Sync, message),
            ReplyView::Done => confused(),
        },
        SessionView::SaveWrite { saved } => match reply {
            ReplyView::Done => finished(OutcomeView::Saved(saved)),
            ReplyView::Failed(message) => give_up(GoalView::Sync, message),
            ReplyView::Found(_) => confused(),
        },
        SessionView::DeleteLocal { hash } => (
            SessionView::DeleteCentral,
            StepView::Ask(RequestView::Remove { replica: Replica::Central, hash }),
        ),
        SessionView::DeleteCentral => finished(OutcomeView::Deleted),
        SessionView::Finished => confused(),
    }
}

/// How a reconciliation of `hash` opens: with the central replica
/// unavailable it is over at once, with nothing handed back.
pub open spec fn begin_sync(goal: GoalView, hash: Seq<char>, active: bool) -> (
    SessionView,
    StepView,
) {
    if active {
        reading(goal, hash)
    } else {
        conclude(goal, hash, None)
    }
}

/// How a batch opens: with the central replica unavailable, or with no
/// hashes, it is over at once, with nothing adopted.
pub open spec fn begin_batch(hashes: Seq<Seq<char>>, active: bool) -> (SessionView, StepView) {
    if active && hashes.len() > 0 {
        reading(GoalView::Batch { hashes, next: 0, updated: Seq::empty() }, hashes[0])
    } else {
        finished(OutcomeView::SyncedAll(Seq::empty()))
    }
}

/// How a save of `record` opens.
pub open spec fn begin_save(record: ProgressView) -> (SessionView, StepView) {
    (
        SessionView::SaveRead { record },
        StepView::Ask(RequestView::Read { replica: Replica::Local, hash: record.hash }),
    )
}

/// How a deletion of `hash` opens.
pub open spec fn begin_delete(hash: Seq<char>) -> (SessionView, StepView) {
    (
        SessionView::DeleteLocal { hash },
        StepView::Ask(RequestView::Remove { replica: Replica::Local, hash }),
    )
}

fn finish(outcome: Outcome) -> (turn: (Session, Step))
    ensures
        (turn.0@, turn.1@) == finished(outcome@),
{
    (Session::Finished, Step::Finish(outcome))
}

fn read_local(goal: Goal, hash: String) -> (turn: (Session, Step))
    ensures
        (turn.0@, turn.1@) == reading(goal@, hash@),
{
    let request = Request::Read { replica: Replica::Local, hash: hash.clone() };
    (Session::SyncLocal { goal, hash }, Step::Ask(request))
}

fn go_on(hashes: Vec<String>, next: usize, updated: Vec<ReadingProgress>) -> (turn: (
    Session,
    Step,
))
    ensures
        (turn.0@, turn.1@) == advance(texts(hashes@), next as nat, views(updated@)),
{
    if next < hashes.len() && next + 1 < hashes.len() {
        let hash = hashes[next + 1].clone();
        read_local(Goal::Batch { hashes, next: next + 1, updated }, hash)
    } else {
        finish(Outcome::SyncedAll(updated))
    }
}

fn settle(goal: Goal, hash: String, adopted: Option<ReadingProgress>) -> (turn: (Session, Step))
    ensures
        (turn.0@, turn.1@) == conclude(goal@, hash@, view_of(adopted)),
{
    match goal {
        Goal::Sync => finish(Outcome::Synced(adopted)),
        Goal::Load => {
            if adopted.is_some() {
                finish(Outcome::Loaded(adopted))
            } else {
                let request = Request::Read { replica: Replica::Local, hash: hash.clone() };
                (Session::LoadLocal { hash }, Step::Ask(request))
            }
        },
        Goal::Batch { hashes, next, updated } => {
            let mut updated = updated;
            match adopted {
                Some(record) => {
                    let ghost before = updated@;
                    updated.push(record);
                    assert(views(updated@) =~= views(before).push(record@));
                },
                None => {},
            }
            go_on(hashes, next, updated)
        },
    }
}

fn abandon(goal: Goal, message: String) -> (turn: (Session, Step))
    ensures
        (turn.0@, turn.1@) == give_up(goal@, message@),
{
    match goal {
        Goal::Batch { hashes, next, updated } => go_on(hashes, next, updated),
        Goal::Sync => finish(Outcome::Failed(SessionError::Host(message))),
        Goal::Load => finish(Outcome::Failed(SessionError::Host(message))),
    }
}

fn lost() -> (turn: (Session, Step))
    ensures
        (turn.0@, turn.1@) == confused(),
{
    finish(Outcome::Failed(SessionError::UnexpectedReply))
}

fn open_sync(goal: Goal, hash: &str, active: bool) -> (turn: (Session, Step))
    ensures
        (turn.0@, turn.1@) == begin_sync(goal@, hash@, active),
{
    if active {
        read_local(goal, hash.to_owned())
    } else {
        settle(goal, hash.to_owned(), None)
    }
}

/// Opens a reconciliation of `hash`. `active` says whether the central
/// replica is available.
pub fn sync(hash: &str, active: bool) -> (turn: (Session, Step))
    ensures
        (turn.0@, turn.1@) == begin_sync(GoalView::Sync, hash@, active),
{
    open_sync(Goal::Sync, hash, active)
}

/// Opens a load of `hash`. `active` says whether the central replica is
/// available.
pub fn load(hash: &str, active: bool) -> (turn: (Session, Step))
    ensures
        (turn.0@, turn.1@) == begin_sync(GoalView::Load, hash@, active),
{
    open_sync(Goal::Load, hash, active)
}

/// Opens a reconciliation of each of `hashes` in turn. `active` says whether
/// the central replica is available.
pub fn sync_all(hashes: &[String], active: bool) -> (turn: (Session, Step))
    ensures
        (turn.0@, turn.1@) == begin_batch(texts(hashes@), active),
{
    if active && hashes.len() > 0 {
        let mut owned: Vec<String> = Vec::new();
        let mut i: usize = 0;
        while i < hashes.len()
            invariant
                i <= hashes.len(),
                texts(owned@) == texts(hashes@.take(i as int)),
            decreases hashes.len() - i,
        {
            let ghost before = owned@;
            owned.push(hashes[i].clone());
            assert(texts(owned@) =~= texts(before).push(hashes@[i as int]@));
            assert(hashes@.take(i + 1) =~= hashes@.take(i as int).push(hashes@[i as int]));
            i = i + 1;
            assert(texts(owned@) =~= texts(hashes@.take(i as int)));
        }
        assert(hashes@.take(i as int) =~= hashes@);
        let first = owned[0].clone();
        let updated: Vec<ReadingProgress> = Vec::new();
        assert(views(updated@) =~= Seq::<ProgressView>::empty());
        read_local(Goal::Batch { hashes: owned, next: 0, updated }, first)
    } else {
        let updated: Vec<ReadingProgress> = Vec::new();
        assert(views(updated@) =~= Seq::<ProgressView>::empty());
        finish(Outcome::SyncedAll(updated))
    }
}

/// Opens a save of `progress`: it will be stored in the local replica with
/// the version that follows the current local record's, or with version 1
/// where there is none. The central replica is not touched.
pub fn save_local(progress: &ReadingProgress) -> (turn: (Session, Step))
    ensures
        (turn.0@, turn.1@) == begin_save(progress@),
{
    let request = Request::Read { replica: Replica::Local, hash: progress.hash.clone() };
    (Session::SaveRead { record: progress.clone() }, Step::Ask(request))
}

/// Opens a deletion of both copies of the record of `hash`.
pub fn delete(hash: &str) -> (turn: (Session, Step))
    ensures
        (turn.0@, turn.1@) == begin_delete(hash@),
{
    let request = Request::Remove { replica: Replica::Local, hash: hash.to_owned() };
    (Session::DeleteLocal { hash: hash.to_owned() }, Step::Ask(request))
}

impl Session {
    /// Takes the session one step further with the host's reply to the
    /// request it made last.
    pub fn resume(self, reply: Reply) -> (turn: (Session, Step))
        ensures
            (turn.0@, turn.1@) == next(self@, reply@),
    {
        match self {
            Session::SyncLocal { goal, hash } => match reply {
                Reply::Found(local) => {
                    let request = Request::Read { replica: Replica::Central, hash: hash.clone() };
                    (Session::SyncCentral { goal, hash, local }, Step::Ask(request))
                },
                Reply::Failed(message) => abandon(goal, message),
                Reply::Done => lost(),
            },
            Session::SyncCentral { goal, hash, local } => match reply {
                Reply::Found(central) => match decide(&local, &central) {
                    Direction::Keep => settle(goal, hash, None),
                    Direction::Push => {
                        let record = local.unwrap();
                        let request = Request::Write {
                            replica: Replica::Central,
                            hash: record.hash.clone(),
                            record,
                        };
                        (Session::Pushing { goal, hash }, Step::Ask(request))
                    },
                    Direction::Pull => {
                        let record = central.unwrap();
                        let request = Request::Write {
                            replica: Replica::Local,
                            hash: hash.clone(),
                            record: record.clone(),
                        };
                        (Session::Pulling { goal, hash, record }, Step::Ask(request))
                    },
                },
                Reply::Failed(message) => abandon(goal, message),
                Reply::Done => lost(),
            },
            Session::Pushing { goal, hash } => match reply {
                Reply::Done => settle(goal, hash, None),
                Reply::Failed(message) => abandon(goal, message),
                Reply::Found(_) => lost(),
            },
            Session::Pulling { goal, hash, record } => match reply {
                Reply::Done => settle(goal, hash, Some(record)),
                Reply::Failed(message) => abandon(goal, message),
                Reply::Found(_) => lost(),
            },
            Session::LoadLocal { hash } => match reply {
                Reply::Found(Some(local)) => finish(Outcome::Loaded(Some(local))),
                Reply::Found(None) => {
                    let request = Request::Read { replica: Replica::Central, hash: hash.clone() };
                    (Session::LoadCentral { hash }, Step::Ask(request))
                },
                Reply::Failed(message) => abandon(Goal::Load, message),
                Reply::Done => lost(),
            },
            Session::LoadCentral { hash } => match reply {
                Reply::Found(Some(central)) => {
                    let request = Request::Write {
                        replica: Replica::Local,
                        hash,
                        record: central.clone(),
                    };
                    (Session::Healing { record: central }, Step::Ask(request))
                },
                Reply::Found(None) => finish(Outcome::Loaded(None)),
                Reply::Failed(message) => abandon(Goal::Load, message),
                Reply::Done => lost(),
            },
            Session::Healing { record } => match reply {
                Reply::Done => finish(Outcome::Loaded(Some(record))),
                Reply::Failed(message) => abandon(Goal::Load, message),
                Reply::Found(_) => lost(),
            },
            Session::SaveRead { record } => match reply {
                Reply::Found(current) => {
                    let version: u64 = match &current {
                        Some(stored) => stored.version,
                        None => 0,
                    };
                    if version == u64::MAX {
                        finish(Outcome::Failed(SessionError::VersionExhausted))
                    } else {
                        let mut saved = record;
                        saved.version = version + 1;
                        let request = Request::Write {
                            replica: Replica::Local,
                            hash: saved.hash.clone(),
                            record: saved.clone(),
                        };
                        (Session::SaveWrite { saved }, Step::Ask(request))
                    }
                },
                Reply::Failed(message) => abandon(Goal::Sync, message),
                Reply::Done => lost(),
            },
            Session::SaveWrite { saved } => match reply {
                Reply::Done => finish(Outcome::Saved(saved)),
                Reply::Failed(message) => abandon(Goal::Sync, message),
                Reply::Found(_) => lost(),
            },
            Session::DeleteLocal { hash } => {
                let request = Request::Remove { replica: Replica::Central, hash };
                (Session::DeleteCentral, Step::Ask(request))
            },
            Session::DeleteCentral => finish(Outcome::Deleted),
            Session::Finished => lost(),
        }
    }
}

/// Whether `goal` is that of an operation on one hash.
pub open spec fn single(goal: GoalView) -> bool {
    goal is Sync || goal is Load
}

/// Whether `session` is in the middle of an operation on one hash that waits
/// for a read or a write.
pub open spec fn waits_alone(session: SessionView) -> bool {
    match session {
        SessionView::SyncLocal { goal, .. } => single(goal),
        SessionView::SyncCentral { goal, .. } => single(goal),
        SessionView::Pushing { goal, .. } => single(goal),
        SessionView::Pulling { goal, .. } => single(goal),
        SessionView::LoadLocal { .. } => true,
        SessionView::LoadCentral { .. } => true,
        SessionView::Healing { .. } => true,
        SessionView::SaveRead { .. } => true,
        SessionView::SaveWrite { .. } => true,
        _ => false,
    }
}

/// An operation on one hash ends with the first failure, and asks for
/// nothing after it.
pub proof fn lemma_first_failure_ends(session: SessionView, message: Seq<char>)
    requires
        waits_alone(session),
    ensures
        next(session, ReplyView::Failed(message)) == finished(
            OutcomeView::Failed(SessionErrorView::Host(message)),
        ),
{
}

/// A batch passes over a hash whose reconciliation fails: it goes on with the
/// hash that follows, having adopted no more than before, and does not end
/// with the failure.
pub proof fn lemma_batch_passes_over_failure(
    session: SessionView,
    hashes: Seq<Seq<char>>,
    at: nat,
    updated: Seq<ProgressView>,
    message: Seq<char>,
)
    requires
        ({
            let goal = GoalView::Batch { hashes, next: at, updated };
            ||| session matches SessionView::SyncLocal { goal: g, .. } && g == goal
            ||| session matches SessionView::SyncCentral { goal: g, .. } && g == goal
            ||| session matches SessionView::Pushing { goal: g, .. } && g == goal
            ||| session matches SessionView::Pulling { goal: g, .. } && g == goal
        }),
    ensures
        next(session, ReplyView::Failed(message)) == advance(hashes, at, updated),
        !(next(session, ReplyView::Failed(message)).1 matches StepView::Finish(
            OutcomeView::Failed(_),
        )),
{
}

/// What a host that keeps the replicas `w`, and with which nothing fails,
/// hands back for `request`, and the replicas afterwards.
pub open spec fn answer(w: Replicas, request: RequestView) -> (Replicas, ReplyView) {
    match request {
        RequestView::Read { replica, hash } => (w, ReplyView::Found(w.get(replica, hash))),
        RequestView::Write { replica, hash, record } => (
            w.put(replica, hash, record),
            ReplyView::Done,
        ),
        RequestView::Remove { replica, hash } => (w.without(replica, hash), ReplyView::Done),
    }
}

/// A session run to its end against such a host: the replicas at the end and
/// the outcome, or nothing where the session makes more than `limit`
/// requests.
pub open spec fn run(w: Replicas, turn: (SessionView, StepView), limit: nat) -> Option<
    (Replicas, OutcomeView),
>
    decreases limit,
{
    match turn.1 {
        StepView::Finish(outcome) => Some((w, outcome)),
        StepView::Ask(request) => if limit == 0 {
            None
        } else {
            let (after, reply) = answer(w, request);
            run(after, next(turn.0, reply), (limit - 1) as nat)
        },
    }
}

/// A run that ends within some number of requests ends the same way within
/// any greater number.
pub proof fn lemma_run_needs_no_more(
    w: Replicas,
    turn: (SessionView, StepView),
    limit: nat,
    more: nat,
)
    requires
        run(w, turn, limit) is Some,
        limit <= more,
    ensures
        run(w, turn, more) == run(w, turn, limit),
    decreases limit,
{
    match turn.1 {
        StepView::Finish(outcome) => {},
        StepView::Ask(request) => {
            let (after, reply) = answer(w, request);
            lemma_run_needs_no_more(
                after,
                next(turn.0, reply),
                (limit - 1) as nat,
                (more - 1) as nat,
            );
        },
    }
}

/// A reconciliation session, run against a host with which nothing fails,
/// makes at most three requests, leaves the replicas as the reconciliation
/// rule says and ends with the record that was adopted.
pub proof fn lemma_sync_session(w: Replicas, hash: Seq<char>, active: bool)
    ensures
        run(w, begin_sync(GoalView::Sync, hash, active), 3) == Some(
            (after_sync(w, active, hash).0, OutcomeView::Synced(after_sync(w, active, hash).1)),
        ),
{
    reveal_with_fuel(run, 4);
}

/// A load session, run against a host with which nothing fails, makes at
/// most five requests, leaves the replicas as a load should and ends with
/// the record that a load answers with.
pub proof fn lemma_load_session(w: Replicas, hash: Seq<char>, active: bool)
    ensures
        run(w, begin_sync(GoalView::Load, hash, active), 5) == Some(
            (after_load(w, active, hash).0, OutcomeView::Loaded(after_load(w, active, hash).1)),
        ),
{
    reveal_with_fuel(run, 6);
}

/// A save session, run against a host with which nothing fails, makes two
/// requests, stores the record with the next version in the local replica
/// and ends with it, unless the versions are used up.
pub proof fn lemma_save_session(w: Replicas, record: ProgressView)
    ensures
        run(w, begin_save(record), 2) == Some(
            if next_version(w.get(Replica::Local, record.hash)) <= u64::MAX {
                (
                    after_save(w, record),
                    OutcomeView::Saved(
                        saved_record(record, w.get(Replica::Local, record.hash)),
                    ),
                )
            } else {
                (w, OutcomeView::Failed(SessionErrorView::VersionExhausted))
            },
        ),
{
    reveal_with_fuel(run, 3);
}

/// A deletion session, run against a host with which nothing fails, makes
/// two requests and leaves neither copy of the record.
pub proof fn lemma_delete_session(w: Replicas, hash: Seq<char>)
    ensures
        run(w, begin_delete(hash), 2) == Some((after_delete(w, hash), OutcomeView::Deleted)),
{
    reveal_with_fuel(run, 3);
}

proof fn lemma_batch_from(
    w: Replicas,
    hashes: Seq<Seq<char>>,
    next: nat,
    updated: Seq<ProgressView>,
    limit: nat,
)
    requires
        next < hashes.len(),
        limit >= 3 * (hashes.len() - next),
    ensures
        run(
            w,
            reading(GoalView::Batch { hashes, next, updated }, hashes[next as int]),
            limit,
        ) == Some(
            (
                after_sync_all(w, true, hashes.skip(next as int)).0,
                OutcomeView::SyncedAll(
                    updated + after_sync_all(w, true, hashes.skip(next as int)).1,
                ),
            ),
        ),
    decreases hashes.len() - next,
{
    let hash = hashes[next as int];
    let goal = GoalView::Batch { hashes, next, updated };
    let rest = hashes.skip(next as int);
    assert(rest.first() == hash);
    assert(rest.drop_first() =~= hashes.skip(next as int + 1));
    let (synced, adopted) = after_sync(w, true, hash);
    let kept = match adopted {
        Some(record) => updated.push(record),
        None => updated,
    };
    let used: nat = if reconcile(w.get(Replica::Local, hash), w.get(Replica::Central, hash))
        == Direction::Keep {
        2
    } else {
        3
    };
    assert(run(w, reading(goal, hash), limit) == run(
        synced,
        advance(hashes, next, kept),
        (limit - used) as nat,
    )) by {
        reveal_with_fuel(run, 4);
    }
    let (end, more) = after_sync_all(synced, true, hashes.skip(next as int + 1));
    if next + 1 < hashes.len() {
        lemma_batch_from(synced, hashes, next + 1, kept, (limit - used) as nat);
        assert(kept + more =~= updated + after_sync_all(w, true, rest).1);
    } else {
        assert(hashes.skip(next as int + 1).len() == 0);
        assert(kept =~= updated + after_sync_all(w, true, rest).1);
    }
}

proof fn lemma_batch_unavailable(w: Replicas, hashes: Seq<Seq<char>>)
    ensures
        after_sync_all(w, false, hashes) == (w, Seq::<ProgressView>::empty()),
    decreases hashes.len(),
{
    if hashes.len() > 0 {
        lemma_batch_unavailable(w, hashes.drop_first());
    }
}

/// A batch session, run against a host with which nothing fails, makes at
/// most three requests for each hash, leaves the replicas as reconciling the
/// hashes one after the other does and ends with the records that were
/// adopted, in the order of their hashes.
pub proof fn lemma_batch_session(w: Replicas, hashes: Seq<Seq<char>>, active: bool)
    ensures
        run(w, begin_batch(hashes, active), 3 * hashes.len()) == Some(
            (
                after_sync_all(w, active, hashes).0,
                OutcomeView::SyncedAll(after_sync_all(w, active, hashes).1),
            ),
        ),
{
    if active && hashes.len() > 0 {
        lemma_batch_from(w, hashes, 0, Seq::empty(), 3 * hashes.len());
        assert(hashes.skip(0) =~= hashes);
        assert(Seq::<ProgressView>::empty() + after_sync_all(w, true, hashes).1
            =~= after_sync_all(w, true, hashes).1);
    } else if !active {
        lemma_batch_unavailable(w, hashes);
    }
}

} // verus!
