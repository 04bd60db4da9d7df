//! The durable record writer: a record reaches its file by way of a
//! temporary file beside it and one rename, so that the file never holds part
//! of a record.
//!
//! The file operations themselves are left to a host. A write job asks for
//! one operation at a time and is resumed with what came of it.

use crate::text::{decimal, lemma_decimal_injective, push_decimal};
use vstd::prelude::*;

verus! {

/// The name of the temporary file that the write numbered `seq` to `target`
/// goes through: the target's name, a dot, the number, and `.tmp`.
pub open spec fn temp_name(target: Seq<char>, seq: u64) -> Seq<char> {
    target + seq!['.'] + decimal(seq as nat) + seq!['.', 't', 'm', 'p']
}

/// A temporary file is never the target itself.
pub proof fn lemma_temp_is_not_target(target: Seq<char>, seq: u64)
    ensures
        temp_name(target, seq) != target,
{
    assert(temp_name(target, seq).len() > target.len());
}

/// Writes with different numbers to one target go through different
/// temporary files.
pub proof fn lemma_temp_names_differ(target: Seq<char>, seq: u64, other: u64)
    requires
        seq != other,
    ensures
        temp_name(target, seq) != temp_name(target, other),
{
    let a = temp_name(target, seq);
    let b = temp_name(target, other);
    if a == b {
        let start = target.len() as int + 1;
        let digits = decimal(seq as nat);
        let others = decimal(other as nat);
        assert(a.len() == target.len() + 5 + digits.len());
        assert(b.len() == target.len() + 5 + others.len());
        assert(digits =~= a.subrange(start, start + digits.len()));
        assert(others =~= b.subrange(start, start + others.len()));
        lemma_decimal_injective(seq as nat, other as nat);
    }
}

/// The name of the temporary file that the write numbered `seq` to `target`
/// goes through.
pub fn temp_path(target: &str, seq: u64) -> (path: String)
    ensures
        path@ == temp_name(target@, seq),
{
    let mut path = target.to_owned();
    path.push('.');
    push_decimal(&mut path, seq);
    path.push('.');
    path.push('t');
    path.push('m');
    path.push('p');
    assert(path@ =~= temp_name(target@, seq));
    path
}

/// Numbers the writes of one process, so that two writes to one target that
/// follow closely do not meet in one temporary file.
#[derive(Debug)]
pub struct TempCounter {
    next: u64,
}

impl TempCounter {
    /// The number that the next write gets.
    pub closed spec fn upcoming(&self) -> u64 {
        self.next
    }

    /// A counter that starts at zero.
    pub fn new() -> (counter: TempCounter)
        ensures
            counter.upcoming() == 0,
    {
        TempCounter { next: 0 }
    }

    /// The number for the next write. The numbers go up by one and start
    /// again at zero after the highest.
    pub fn next(&mut self) -> (seq: u64)
        ensures
            seq == old(self).upcoming(),
            final(self).upcoming() == if seq == u64::MAX {
                0
            } else {
                (seq + 1) as u64
            },
    {
        let seq = self.next;
        self.next = if seq == u64::MAX {
            0
        } else {
            seq + 1
        };
        seq
    }
}

/// One operation on files.
#[derive(Debug, PartialEq)]
pub enum FileOp {
    /// Create or replace the file at `path` with `data`.
    Write { path: String, data: String },
    /// Rename the file at `from` to `to`, replacing what is there, in one
    /// step.
    Rename { from: String, to: String },
    /// Remove the file at `path`. A failure is of no account.
    Remove { path: String },
}

/// The mathematical value of a [`FileOp`].
pub ghost enum FileOpView {
    Write { path: Seq<char>, data: Seq<char> },
    Rename { from: Seq<char>, to: Seq<char> },
    Remove { path: Seq<char> },
}

impl View for FileOp {
    type V = FileOpView;

    open spec fn view(&self) -> FileOpView {
        match *self {
            FileOp::Write { path, data } => FileOpView::Write { path: path@, data: data@ },
            FileOp::Rename { from, to } => FileOpView::Rename { from: from@, to: to@ },
            FileOp::Remove { path } => FileOpView::Remove { path: path@ },
        }
    }
}

/// Why a write did not go through.
#[derive(Debug, PartialEq)]
pub enum WriteError {
    /// The temporary file could not be written; the host's words are passed
    /// on.
    Temp(String),
    /// The temporary file could not be renamed to the target; the host's
    /// words are passed on.
    Rename(String),
    /// The job was resumed after its end.
    Over,
}

/// The mathematical value of a [`WriteError`].
pub ghost enum WriteErrorView {
    Temp(Seq<char>),
    Rename(Seq<char>),
    Over,
}

impl View for WriteError {
    type V = WriteErrorView;

    open spec fn view(&self) -> WriteErrorView {
        match *self {
            WriteError::Temp(message) => WriteErrorView::Temp(message@),
            WriteError::Rename(message) => WriteErrorView::Rename(message@),
            WriteError::Over => WriteErrorView::Over,
        }
    }
}

/// What a write job does next.
#[derive(Debug, PartialEq)]
pub enum WriteStep {
    /// The host is to carry out the operation and resume the job with what
    /// came of it.
    Do(FileOp),
    /// The record is in its file.
    Done,
    /// The write did not go through; the target file is as it was.
    Failed(WriteError),
}

/// The mathematical value of a [`WriteStep`].
pub ghost enum WriteStepView {
    Do(FileOpView),
    Done,
    Failed(WriteErrorView),
}

impl View for WriteStep {
    type V = WriteStepView;

    open spec fn view(&self) -> WriteStepView {
        match *self {
            WriteStep::Do(op) => WriteStepView::Do(op@),
            WriteStep::Done => WriteStepView::Done,
            WriteStep::Failed(error) => WriteStepView::Failed(error@),
        }
    }
}

/// What a write job waits for.
#[derive(Debug, PartialEq)]
pub enum WriteJob {
    /// The temporary file at `temp` to be written.
    Writing { temp: String, target: String },
    /// The temporary file at `temp` to be renamed to `target`.
    Renaming { temp: String, target: String },
    /// The temporary file to be removed, after the rename failed with
    /// `message`.
    Cleaning { message: String },
    /// Nothing: the job is over.
    Over,
}

/// The mathematical value of a [`WriteJob`].
pub ghost enum WriteJobView {
    Writing { temp: Seq<char>, target: Seq<char> },
    Renaming { temp: Seq<char>, target: Seq<char> },
    Cleaning { message: Seq<char> },
    Over,
}

impl View for WriteJob {
    type V = WriteJobView;

    open spec fn view(&self) -> WriteJobView {
        match *self {
            WriteJob::Writing { temp, target } => WriteJobView::Writing {
                temp: temp@,
                target: target@,
            },
            WriteJob::Renaming { temp, target } => WriteJobView::Renaming {
                temp: temp@,
                target: target@,
            },
            WriteJob::Cleaning { message } => WriteJobView::Cleaning { message: message@ },
            WriteJob::Over => WriteJobView::Over,
        }
    }
}

/// What came of an operation: nothing, or the host's words for a failure.
pub open spec fn failure(result: Result<(), String>) -> Option<Seq<char>> {
    match result {
        Ok(_) => None,
        Err(message) => Some(message@),
    }
}

/// How the write numbered `seq` of `data` to `target` opens: with the
/// writing of the temporary file.
pub open spec fn write_open(target: Seq<char>, data: Seq<char>, seq: u64) -> (
    WriteJobView,
    WriteStepView,
) {
    (
        WriteJobView::Writing { temp: temp_name(target, seq), target },
        WriteStepView::Do(FileOpView::Write { path: temp_name(target, seq), data }),
    )
}

/// The job and its next step after an operation ended with `failed`. The
/// temporary file is renamed once it is written; where the rename fails it is
/// removed, and the failure of the rename is what the job ends with.
pub open spec fn write_next(job: WriteJobView, failed: Option<Seq<char>>) -> (
    WriteJobView,
    WriteStepView,
) {
    match job {
        WriteJobView::Writing { temp, target } => match failed {
            None => (
                WriteJobView::Renaming { temp, target },
                WriteStepView::Do(FileOpView::Rename { from: temp, to: target }),
            ),
            Some(message) => (
                WriteJobView::Over,
                WriteStepView::Failed(WriteErrorView::Temp(message)),
            ),
        },
        WriteJobView::Renaming { temp, target } => match failed {
            None => (WriteJobView::Over, WriteStepView::Done),
            Some(message) => (
                WriteJobView::Cleaning { message },
                WriteStepView::Do(FileOpView::Remove { path: temp }),
            ),
        },
        WriteJobView::Cleaning { message } => (
            WriteJobView::Over,
            WriteStepView::Failed(WriteErrorView::Rename(message)),
        ),
        WriteJobView::Over => (WriteJobView::Over, WriteStepView::Failed(WriteErrorView::Over)),
    }
}

/// Opens the write of `data` to the file at `target`, numbered by `counter`.
pub fn write_record(counter: &mut TempCounter, target: &str, data: String) -> (turn: (
    WriteJob,
    WriteStep,
))
    ensures
        (turn.0@, turn.1@) == write_open(target@, data@, old(counter).upcoming()),
        final(counter).upcoming() != old(counter).upcoming(),
{
    let seq = counter.next();
    let temp = temp_path(target, seq);
    let op = FileOp::Write { path: temp.clone(), data };
    (WriteJob::Writing { temp, target: target.to_owned() }, WriteStep::Do(op))
}

impl WriteJob {
    /// Takes the job one step further with what came of the operation it
    /// asked for last.
    pub fn resume(self, result: Result<(), String>) -> (turn: (WriteJob, WriteStep))
        ensures
            (turn.0@, turn.1@) == write_next(self@, failure(result)),
    {
        match self {
            WriteJob::Writing { temp, target } => match result {
                Ok(_) => {
                    let op = FileOp::Rename { from: temp.clone(), to: target.clone() };
                    (WriteJob::Renaming { temp, target }, WriteStep::Do(op))
                },
                Err(message) => (WriteJob::Over, WriteStep::Failed(WriteError::Temp(message))),
            },
            WriteJob::Renaming { temp, target } => match result {
                Ok(_) => (WriteJob::Over, WriteStep::Done),
                Err(message) => (
                    WriteJob::Cleaning { message },
                    WriteStep::Do(FileOp::Remove { path: temp }),
                ),
            },
            WriteJob::Cleaning { message } => (
                WriteJob::Over,
                WriteStep::Failed(WriteError::Rename(message)),
            ),
            WriteJob::Over => (WriteJob::Over, WriteStep::Failed(WriteError::Over)),
        }
    }
}

/// How an operation on files went.
pub ghost enum Fate {
    /// It went through.
    Done,
    /// It failed and changed nothing.
    Refused,
    /// It failed in the middle: a file that was being written is left with
    /// these contents, which may be any part of the data.
    Torn(Seq<char>),
}

/// The files, by path, after `op` went as `fate` says. A rename either
/// happens as a whole or not at all.
pub open spec fn disk_after(disk: Map<Seq<char>, Seq<char>>, op: FileOpView, fate: Fate) -> Map<
    Seq<char>,
    Seq<char>,
> {
    match op {
        FileOpView::Write { path, data } => match fate {
            Fate::Done => disk.insert(path, data),
            Fate::Refused => disk,
            Fate::Torn(left) => disk.insert(path, left),
        },
        FileOpView::Rename { from, to } => match fate {
            Fate::Done if disk.contains_key(from) => disk.insert(to, disk[from]).remove(from),
            _ => disk,
        },
        FileOpView::Remove { path } => match fate {
            Fate::Done => disk.remove(path),
            _ => disk,
        },
    }
}

/// What the job is told of an operation that went as `fate` says.
pub open spec fn told(fate: Fate, message: Seq<char>) -> Option<Seq<char>> {
    match fate {
        Fate::Done => None,
        _ => Some(message),
    }
}

/// The files after a write job ran while its operations went as `fates`
/// say, one after the other. Where the fates end before the job does, the
/// process stopped there.
pub open spec fn disk_after_run(
    disk: Map<Seq<char>, Seq<char>>,
    turn: (WriteJobView, WriteStepView),
    fates: Seq<Fate>,
    message: Seq<char>,
) -> Map<Seq<char>, Seq<char>>
    decreases fates.len(),
{
    match turn.1 {
        WriteStepView::Do(op) => if fates.len() == 0 {
            disk
        } else {
            disk_after_run(
                disk_after(disk, op, fates[0]),
                write_next(turn.0, told(fates[0], message)),
                fates.drop_first(),
                message,
            )
        },
        _ => disk,
    }
}

/// The contents of the file at `path`, if there is one.
pub open spec fn contents(disk: Map<Seq<char>, Seq<char>>, path: Seq<char>) -> Option<Seq<char>> {
    if disk.contains_key(path) {
        Some(disk[path])
    } else {
        None
    }
}

/// A write never leaves part of a record in its file. However the operations
/// of a write job go, and wherever the process stops, the target file is as
/// it was before, or holds all of the new data.
pub proof fn lemma_target_is_never_torn(
    disk: Map<Seq<char>, Seq<char>>,
    target: Seq<char>,
    data: Seq<char>,
    seq: u64,
    fates: Seq<Fate>,
    message: Seq<char>,
)
    ensures
        ({
            let end = disk_after_run(disk, write_open(target, data, seq), fates, message);
            contents(end, target) == contents(disk, target) || contents(end, target) == Some(data)
        }),
{
    lemma_temp_is_not_target(target, seq);
    reveal_with_fuel(disk_after_run, 4);
    if fates.len() >= 1 {
        let rest = fates.drop_first();
        if rest.len() >= 1 {
            let last = rest.drop_first();
            if last.len() >= 1 {
                assert(last.drop_first().len() == last.len() - 1);
            }
        }
    }
}

/// A write whose operations all go through leaves the new data in the target
/// file and no temporary file behind.
pub proof fn lemma_write_goes_through(
    disk: Map<Seq<char>, Seq<char>>,
    target: Seq<char>,
    data: Seq<char>,
    seq: u64,
    message: Seq<char>,
)
    ensures
        ({
            let end = disk_after_run(
                disk,
                write_open(target, data, seq),
                seq![Fate::Done, Fate::Done],
                message,
            );
            &&& contents(end, target) == Some(data)
            &&& !end.contains_key(temp_name(target, seq))
        }),
{
    lemma_temp_is_not_target(target, seq);
    reveal_with_fuel(disk_after_run, 4);
    let fates = seq![Fate::Done, Fate::Done];
    assert(fates.drop_first().len() == 1);
    assert(fates.drop_first().drop_first().len() == 0);
    assert(fates[0] == Fate::Done && fates.drop_first()[0] == Fate::Done);
}

} // verus!
