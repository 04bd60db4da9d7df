//! Looking a document up: its content hash and its description, each taken
//! from its cache where the file has not changed, and worked out and cached
//! where it has.
//!
//! Reading and parsing a file is left to a host, as in the progress
//! sessions: a scan asks for one piece of work at a time and is resumed with
//! what came of it. A file that both caches know costs the host nothing.

use crate::hash_cache::{from_pairs, string_map_json, without_path, FileKey, HashCache};
use crate::pdf_info::{
    describe, described, without_file, FileFacts, FileFactsView, InfoKey, PdfCache, PdfInfo,
    PdfInfoView,
};
use crate::text::{bytes_of, text_of};
use vstd::prelude::*;

verus! {

/// What a scan is after.
#[derive(Debug, Clone, Copy, PartialEq, Eq, Structural)]
pub enum ScanGoal {
    /// The content hash of the file.
    Hash,
    /// The description of the document.
    Info,
}

/// What a scan waits for.
#[derive(Debug, Clone, Copy, PartialEq, Eq, Structural)]
pub enum ScanPhase {
    /// The content hash, which the host computes from the file's contents.
    Hashing,
    /// The hash cache to be written to disk.
    Persisting,
    /// The page count and the title, which the host takes from a parser.
    Parsing,
    /// Nothing: the scan is over.
    Finished,
}

/// What a scan asks of its host.
#[derive(Debug, PartialEq)]
pub enum ScanRequest {
    /// Compute the content hash of the file.
    Hash,
    /// Write this text to the file in which the hash cache is kept. A failure
    /// does not end the scan.
    Persist(String),
    /// Parse the document for its page count and the bytes of its title.
    Parse,
}

/// The mathematical value of a [`ScanRequest`].
pub ghost enum ScanRequestView {
    Hash,
    Persist(Seq<char>),
    Parse,
}

impl View for ScanRequest {
    type V = ScanRequestView;

    open spec fn view(&self) -> ScanRequestView {
        match *self {
            ScanRequest::Hash => ScanRequestView::Hash,
            ScanRequest::Persist(text) => ScanRequestView::Persist(text@),
            ScanRequest::Parse => ScanRequestView::Parse,
        }
    }
}

/// What the host hands back for a request.
#[derive(Debug, PartialEq)]
pub enum ScanReply {
    /// The content hash of the file.
    Hashed(String),
    /// The hash cache was written.
    Persisted,
    /// The page count of the document, and the bytes of the title it carries,
    /// if it carries one.
    Parsed { page_count: u32, title: Option<Vec<u8>> },
    /// The request failed, with the host's words for it.
    Failed(String),
}

/// The mathematical value of a [`ScanReply`].
pub ghost enum ScanReplyView {
    Hashed(Seq<char>),
    Persisted,
    Parsed { page_count: u32, title: Option<Seq<u8>> },
    Failed(Seq<char>),
}

impl View for ScanReply {
    type V = ScanReplyView;

    open spec fn view(&self) -> ScanReplyView {
        match *self {
            ScanReply::Hashed(hash) => ScanReplyView::Hashed(hash@),
            ScanReply::Persisted => ScanReplyView::Persisted,
            ScanReply::Parsed { page_count, title } => ScanReplyView::Parsed {
                page_count,
                title: bytes_of(title),
            },
            ScanReply::Failed(message) => ScanReplyView::Failed(message@),
        }
    }
}

/// Why a scan ended without a result.
#[derive(Debug, PartialEq)]
pub enum ScanError {
    /// A request failed; the host's words are passed on.
    Host(String),
    /// The reply does not answer the request that was made.
    UnexpectedReply,
}

/// The mathematical value of a [`ScanError`].
pub ghost enum ScanErrorView {
    Host(Seq<char>),
    UnexpectedReply,
}

impl View for ScanError {
    type V = ScanErrorView;

    open spec fn view(&self) -> ScanErrorView {
        match *self {
            ScanError::Host(message) => ScanErrorView::Host(message@),
            ScanError::UnexpectedReply => ScanErrorView::UnexpectedReply,
        }
    }
}

/// How a scan ended.
#[derive(Debug, PartialEq)]
pub enum ScanOutcome {
    /// The content hash of the file.
    Hash(String),
    /// The description of the document.
    Info(PdfInfo),
    /// The scan gave up.
    Failed(ScanError),
}

/// The mathematical value of a [`ScanOutcome`].
pub ghost enum ScanOutcomeView {
    Hash(Seq<char>),
    Info(PdfInfoView),
    Failed(ScanErrorView),
}

impl View for ScanOutcome {
    type V = ScanOutcomeView;

    open spec fn view(&self) -> ScanOutcomeView {
        match *self {
            ScanOutcome::Hash(hash) => ScanOutcomeView::Hash(hash@),
            ScanOutcome::Info(info) => ScanOutcomeView::Info(info@),
            ScanOutcome::Failed(error) => ScanOutcomeView::Failed(error@),
        }
    }
}

/// What a scan does next.
#[derive(Debug, PartialEq)]
pub enum ScanStep {
    /// The host is to carry out the request and resume the scan with the
    /// reply.
    Ask(ScanRequest),
    /// The scan is over.
    Finish(ScanOutcome),
}

/// The mathematical value of a [`ScanStep`].
pub ghost enum ScanStepView {
    Ask(ScanRequestView),
    Finish(ScanOutcomeView),
}

impl View for ScanStep {
    type V = ScanStepView;

    open spec fn view(&self) -> ScanStepView {
        match *self {
            ScanStep::Ask(request) => ScanStepView::Ask(request@),
            ScanStep::Finish(outcome) => ScanStepView::Finish(outcome@),
        }
    }
}

/// A running scan of one file.
#[derive(Debug, PartialEq)]
pub struct Scan {
    /// The file that is looked up.
    pub file: FileFacts,
    /// What the scan is after.
    pub goal: ScanGoal,
    /// What the scan waits for.
    pub phase: ScanPhase,
    /// The content hash, once it is known.
    pub hash: String,
}

/// The mathematical value of a [`Scan`].
pub ghost struct ScanView {
    pub file: FileFactsView,
    pub goal: ScanGoal,
    pub phase: ScanPhase,
    pub hash: Seq<char>,
}

impl View for Scan {
    type V = ScanView;

    open spec fn view(&self) -> ScanView {
        ScanView { file: self.file@, goal: self.goal, phase: self.phase, hash: self.hash@ }
    }
}

/// A scan that is over, with its outcome.
pub open spec fn ended(scan: ScanView, outcome: ScanOutcomeView) -> (ScanView, ScanStepView) {
    (ScanView { phase: ScanPhase::Finished, ..scan }, ScanStepView::Finish(outcome))
}

/// A scan that got a reply which answers no request of its own.
pub open spec fn puzzled(scan: ScanView) -> (ScanView, ScanStepView) {
    ended(scan, ScanOutcomeView::Failed(ScanErrorView::UnexpectedReply))
}

/// What follows once the content hash is known: a scan for the hash is over,
/// a scan for the description has the document parsed.
pub open spec fn with_hash(scan: ScanView, hash: Seq<char>) -> (ScanView, ScanStepView) {
    match scan.goal {
        ScanGoal::Hash => ended(ScanView { hash, ..scan }, ScanOutcomeView::Hash(hash)),
        ScanGoal::Info => (
            ScanView { phase: ScanPhase::Parsing, hash, ..scan },
            ScanStepView::Ask(ScanRequestView::Parse),
        ),
    }
}

/// How a scan of `file` opens, given what the caches hold. A description
/// cached for the file as it is now ends a scan for the description at once;
/// a hash cached for the file as it is now spares the host the reading.
pub open spec fn scan_open(
    infos: Map<InfoKey, PdfInfoView>,
    hashes: Map<FileKey, Seq<char>>,
    file: FileFactsView,
    goal: ScanGoal,
) -> (ScanView, ScanStepView) {
    let scan = ScanView { file, goal, phase: ScanPhase::Hashing, hash: Seq::empty() };
    if goal == ScanGoal::Info && infos.contains_key(file.info_key()) {
        ended(scan, ScanOutcomeView::Info(infos[file.info_key()]))
    } else if hashes.contains_key(file.hash_key()) {
        with_hash(scan, hashes[file.hash_key()])
    } else {
        (scan, ScanStepView::Ask(ScanRequestView::Hash))
    }
}

/// The scan and its next step after `reply` came in. `text` is the JSON text
/// of the hash cache as it is after the reply, where there is one.
pub open spec fn scan_next(scan: ScanView, reply: ScanReplyView, text: Option<Seq<char>>) -> (
    ScanView,
    ScanStepView,
) {
    match scan.phase {
        ScanPhase::Hashing => match reply {
            ScanReplyView::Hashed(hash) => match text {
                Some(text) => (
                    ScanView { phase: ScanPhase::Persisting, hash, ..scan },
                    ScanStepView::Ask(ScanRequestView::Persist(text)),
                ),
                None => with_hash(scan, hash),
            },
            ScanReplyView::Failed(message) => ended(
                scan,
                ScanOutcomeView::Failed(ScanErrorView::Host(message)),
            ),
            _ => puzzled(scan),
        },
        ScanPhase::Persisting => match reply {
            ScanReplyView::Persisted => with_hash(scan, scan.hash),
            ScanReplyView::Failed(_) => with_hash(scan, scan.hash),
            _ => puzzled(scan),
        },
        ScanPhase::Parsing => match reply {
            ScanReplyView::Parsed { page_count, title } => ended(
                scan,
                ScanOutcomeView::Info(described(scan.file, scan.hash, page_count, title)),
            ),
            ScanReplyView::Failed(message) => ended(
                scan,
                ScanOutcomeView::Failed(ScanErrorView::Host(message)),
            ),
            _ => puzzled(scan),
        },
        ScanPhase::Finished => puzzled(scan),
    }
}

/// The hash cache after `reply` came in: a hash that the host computed is
/// remembered for the file as it is now.
pub open spec fn hashes_after(
    scan: ScanView,
    hashes: Map<FileKey, Seq<char>>,
    reply: ScanReplyView,
) -> Map<FileKey, Seq<char>> {
    match reply {
        ScanReplyView::Hashed(hash) if scan.phase == ScanPhase::Hashing => hashes.insert(
            scan.file.hash_key(),
            hash,
        ),
        _ => hashes,
    }
}

/// The metadata cache after `reply` came in: a description made from what the
/// parser reported is kept for the file as it is now, in place of every
/// earlier description of that file.
pub open spec fn infos_after(
    scan: ScanView,
    infos: Map<InfoKey, PdfInfoView>,
    reply: ScanReplyView,
) -> Map<InfoKey, PdfInfoView> {
    match reply {
        ScanReplyView::Parsed { page_count, title } if scan.phase == ScanPhase::Parsing
            => without_file(infos, scan.file.path).insert(
            scan.file.info_key(),
            described(scan.file, scan.hash, page_count, title),
        ),
        _ => infos,
    }
}

fn end(scan: Scan, outcome: ScanOutcome) -> (turn: (Scan, ScanStep))
    ensures
        (turn.0@, turn.1@) == ended(scan@, outcome@),
{
    let Scan { file, goal, phase: _, hash } = scan;
    (Scan { file, goal, phase: ScanPhase::Finished, hash }, ScanStep::Finish(outcome))
}

fn lost(scan: Scan) -> (turn: (Scan, ScanStep))
    ensures
        (turn.0@, turn.1@) == puzzled(scan@),
{
    end(scan, ScanOutcome::Failed(ScanError::UnexpectedReply))
}

fn go_on(scan: Scan, hash: String) -> (turn: (Scan, ScanStep))
    ensures
        (turn.0@, turn.1@) == with_hash(scan@, hash@),
{
    let Scan { file, goal, phase: _, hash: _ } = scan;
    match goal {
        ScanGoal::Hash => {
            let outcome = ScanOutcome::Hash(hash.clone());
            end(Scan { file, goal, phase: ScanPhase::Hashing, hash }, outcome)
        },
        ScanGoal::Info => (
            Scan { file, goal, phase: ScanPhase::Parsing, hash },
            ScanStep::Ask(ScanRequest::Parse),
        ),
    }
}

/// Opens a scan for the content hash of `file`. Where the hash cache knows
/// the file as it is now, by path, modification time and size, the scan is
/// over at once and the file is not read.
pub fn compute_hash_cached(hashes: &HashCache, file: FileFacts) -> (turn: (Scan, ScanStep))
    ensures
        (turn.0@, turn.1@) == scan_open(Map::empty(), hashes@, file@, ScanGoal::Hash),
{
    let known = hashes.get(file.path.as_str(), file.mtime.whole_seconds(), file.size);
    let scan = Scan { file, goal: ScanGoal::Hash, phase: ScanPhase::Hashing, hash: String::new() };
    match known {
        Some(hash) => go_on(scan, hash),
        None => (scan, ScanStep::Ask(ScanRequest::Hash)),
    }
}

/// Opens a scan for the description of the document in `file`. Where the
/// metadata cache knows the file as it is now, by path and modification time,
/// the scan is over at once and the document is not parsed.
pub fn extract_info(infos: &PdfCache, hashes: &HashCache, file: FileFacts) -> (turn: (
    Scan,
    ScanStep,
))
    ensures
        (turn.0@, turn.1@) == scan_open(infos@, hashes@, file@, ScanGoal::Info),
{
    let cached = infos.get(file.path.as_str(), file.mtime);
    let known = hashes.get(file.path.as_str(), file.mtime.whole_seconds(), file.size);
    let scan = Scan { file, goal: ScanGoal::Info, phase: ScanPhase::Hashing, hash: String::new() };
    match cached {
        Some(info) => end(scan, ScanOutcome::Info(info)),
        None => match known {
            Some(hash) => go_on(scan, hash),
            None => (scan, ScanStep::Ask(ScanRequest::Hash)),
        },
    }
}

impl Scan {
    /// Takes the scan one step further with the host's reply to the request
    /// it made last. A hash that the host computed goes into the hash cache,
    /// which is then to be written to disk; a description goes into the
    /// metadata cache.
    pub fn resume(
        self,
        infos: &mut PdfCache,
        hashes: &mut HashCache,
        reply: ScanReply,
    ) -> (turn: (Scan, ScanStep))
        ensures
            final(hashes)@ == hashes_after(self@, old(hashes)@, reply@),
            final(infos)@ == infos_after(self@, old(infos)@, reply@),
            (turn.0@, turn.1@) == scan_next(
                self@,
                reply@,
                string_map_json(final(hashes).pairs()),
            ),
            turn.1 matches ScanStep::Ask(ScanRequest::Persist(_)) ==> from_pairs(
                final(hashes).pairs(),
            ) == final(hashes)@,
    {
        match self.phase {
            ScanPhase::Hashing => match reply {
                ScanReply::Hashed(hash) => {
                    hashes.insert(
                        self.file.path.as_str(),
                        self.file.mtime.whole_seconds(),
                        self.file.size,
                        hash.clone(),
                    );
                    match hashes.to_json() {
                        Some(text) => {
                            let Scan { file, goal, phase: _, hash: _ } = self;
                            (
                                Scan { file, goal, phase: ScanPhase::Persisting, hash },
                                ScanStep::Ask(ScanRequest::Persist(text)),
                            )
                        },
                        None => go_on(self, hash),
                    }
                },
                ScanReply::Failed(message) => end(
                    self,
                    ScanOutcome::Failed(ScanError::Host(message)),
                ),
                _ => lost(self),
            },
            ScanPhase::Persisting => match reply {
                ScanReply::Persisted => {
                    let hash = self.hash.clone();
                    go_on(self, hash)
                },
                ScanReply::Failed(_) => {
                    let hash = self.hash.clone();
                    go_on(self, hash)
                },
                _ => lost(self),
            },
            ScanPhase::Parsing => match reply {
                ScanReply::Parsed { page_count, title } => {
                    let info = describe(&self.file, self.hash.clone(), page_count, title);
                    infos.insert(self.file.path.as_str(), self.file.mtime, info.clone());
                    end(self, ScanOutcome::Info(info))
                },
                ScanReply::Failed(message) => end(
                    self,
                    ScanOutcome::Failed(ScanError::Host(message)),
                ),
                _ => lost(self),
            },
            ScanPhase::Finished => lost(self),
        }
    }
}

/// Forgets the file at `path` in both caches: every description of it and
/// every hash remembered for it, whatever the modification time and the
/// size. What the caches hold for other files stays. The result is the text
/// to write to the file in which the hash cache is kept, where there is one.
pub fn invalidate_cache(infos: &mut PdfCache, hashes: &mut HashCache, path: &str) -> (text: Option<
    String,
>)
    ensures
        final(infos)@ == without_file(old(infos)@, path@),
        final(hashes)@ == without_path(old(hashes)@, path@),
        text_of(text) == string_map_json(final(hashes).pairs()),
        from_pairs(final(hashes).pairs()) == final(hashes)@,
{
    infos.remove_path(path);
    hashes.remove_path(path);
    hashes.to_json()
}

/// Invalidation is complete and touches nothing else: afterwards neither
/// cache holds anything for the path, and each holds for any other path
/// exactly what it held before.
pub proof fn lemma_invalidation_complete(
    infos: Map<InfoKey, PdfInfoView>,
    hashes: Map<FileKey, Seq<char>>,
    path: Seq<char>,
)
    ensures
        forall|key: InfoKey| key.0 == path ==> !without_file(infos, path).contains_key(key),
        forall|key: FileKey| key.0 == path ==> !without_path(hashes, path).contains_key(key),
        forall|key: InfoKey|
            key.0 != path ==> (without_file(infos, path).contains_key(key) <==> infos.contains_key(
                key,
            )),
        forall|key: InfoKey|
            key.0 != path && infos.contains_key(key) ==> without_file(infos, path)[key]
                == infos[key],
        forall|key: FileKey|
            key.0 != path ==> (without_path(hashes, path).contains_key(key)
                <==> hashes.contains_key(key)),
        forall|key: FileKey|
            key.0 != path && hashes.contains_key(key) ==> without_path(hashes, path)[key]
                == hashes[key],
{
}

/// A hash is computed once for a file that does not change: after the host
/// computed the hash of a file, a second scan for the hash of the same file,
/// with the same modification time and size, is over at once with the same
/// hash and asks the host for nothing.
pub proof fn lemma_hash_is_computed_once(
    hashes: Map<FileKey, Seq<char>>,
    file: FileFactsView,
    hash: Seq<char>,
    again: FileFactsView,
)
    requires
        !hashes.contains_key(file.hash_key()),
        again.hash_key() == file.hash_key(),
    ensures
        ({
            let first = scan_open(Map::empty(), hashes, file, ScanGoal::Hash);
            let after = hashes_after(first.0, hashes, ScanReplyView::Hashed(hash));
            &&& first.1 == ScanStepView::Ask(ScanRequestView::Hash)
            &&& scan_open(Map::empty(), after, again, ScanGoal::Hash).1 == ScanStepView::Finish(
                ScanOutcomeView::Hash(hash),
            )
        }),
{
}

/// A description is made once for a file that does not change: after a scan
/// that had the document parsed, a second scan for the description of the
/// same file, with the same modification time, is over at once with the same
/// description and asks the host for nothing.
pub proof fn lemma_description_is_made_once(
    infos: Map<InfoKey, PdfInfoView>,
    scan: ScanView,
    page_count: u32,
    title: Option<Seq<u8>>,
    hashes: Map<FileKey, Seq<char>>,
    again: FileFactsView,
)
    requires
        scan.phase == ScanPhase::Parsing,
        again.info_key() == scan.file.info_key(),
    ensures
        ({
            let reply = ScanReplyView::Parsed { page_count, title };
            let text = None::<Seq<char>>;
            let made = described(scan.file, scan.hash, page_count, title);
            &&& scan_next(scan, reply, text).1 == ScanStepView::Finish(ScanOutcomeView::Info(made))
            &&& scan_open(infos_after(scan, infos, reply), hashes, again, ScanGoal::Info).1
                == ScanStepView::Finish(ScanOutcomeView::Info(made))
        }),
{
}

} // verus!
