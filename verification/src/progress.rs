//! Reading-progress records and the rule that reconciles the local and the
//! central copy of one record.

use crate::text::{is_after, lemma_text_order, text_after, text_of};
use vstd::prelude::*;

verus! {

/// The zoom factor 1, as the bit pattern of a 64-bit IEEE-754 number.
pub const ZOOM_ONE_BITS: u64 = 0x3FF0_0000_0000_0000;

/// Where a reader stopped in one document. A record is identified by the
/// content hash of its document, not by the document's path.
#[derive(Debug, PartialEq)]
pub struct ReadingProgress {
    pub hash: String,
    pub current_page: u32,
    pub total_pages: u32,
    /// The zoom factor, held as the bit pattern of a 64-bit IEEE-754 number.
    pub zoom_bits: u64,
    pub scroll_mode: String,
    /// The scroll offset, held as the bit pattern of a 64-bit IEEE-754 number.
    pub scroll_position_bits: u64,
    /// A fixed-width UTC timestamp, so that the order of two timestamps is the
    /// order of their texts.
    pub last_read: String,
    /// Counts the local saves that led to this record.
    pub version: u64,
}

/// The mathematical value of a [`ReadingProgress`].
pub ghost struct ProgressView {
    pub hash: Seq<char>,
    pub current_page: u32,
    pub total_pages: u32,
    pub zoom_bits: u64,
    pub scroll_mode: Seq<char>,
    pub scroll_position_bits: u64,
    pub last_read: Seq<char>,
    pub version: u64,
}

impl View for ReadingProgress {
    type V = ProgressView;

    open spec fn view(&self) -> ProgressView {
        ProgressView {
            hash: self.hash@,
            current_page: self.current_page,
            total_pages: self.total_pages,
            zoom_bits: self.zoom_bits,
            scroll_mode: self.scroll_mode@,
            scroll_position_bits: self.scroll_position_bits,
            last_read: self.last_read@,
            version: self.version,
        }
    }
}

impl Clone for ReadingProgress {
    fn clone(&self) -> (copy: Self)
        ensures
            copy@ == self@,
    {
        ReadingProgress {
            hash: self.hash.clone(),
            current_page: self.current_page,
            total_pages: self.total_pages,
            zoom_bits: self.zoom_bits,
            scroll_mode: self.scroll_mode.clone(),
            scroll_position_bits: self.scroll_position_bits,
            last_read: self.last_read.clone(),
            version: self.version,
        }
    }
}

/// The text that `chrono` writes for the instant `secs` seconds and `nanos`
/// nanoseconds after the Unix epoch, in UTC, as year, month, day, `T`, hour,
/// minute, second, milliseconds and `Z`; nothing where `chrono` has no such
/// instant.
pub uninterp spec fn utc_timestamp(secs: i64, nanos: u32) -> Option<Seq<char>>;

/// `DateTime::format` of `chrono`, with the pattern `%Y-%m-%dT%H:%M:%S%.3fZ`,
/// writes the instant that `DateTime::from_timestamp` makes of `secs` and
/// `nanos`; where that makes none, nothing is written.
#[verifier::external_body]
fn format_utc(secs: i64, nanos: u32) -> (text: Option<String>)
    ensures
        text_of(text) == utc_timestamp(secs, nanos),
{
    match chrono::DateTime::from_timestamp(secs, nanos) {
        Some(instant) => Some(instant.format("%Y-%m-%dT%H:%M:%S%.3fZ").to_string()),
        None => None,
    }
}

/// The value of the record of a document that was opened at `last_read` and
/// not read yet: on its first page, at zoom factor 1, scrolling continuously,
/// and never saved.
pub open spec fn unread_record(last_read: Seq<char>) -> ProgressView {
    ProgressView {
        hash: Seq::empty(),
        current_page: 1,
        total_pages: 0,
        zoom_bits: ZOOM_ONE_BITS,
        scroll_mode: "continuous"@,
        scroll_position_bits: 0,
        last_read,
        version: 0,
    }
}

impl ReadingProgress {
    /// The record of a document that was opened at `last_read` and not read
    /// yet.
    pub fn unread(last_read: String) -> (record: ReadingProgress)
        ensures
            record@ == unread_record(last_read@),
    {
        ReadingProgress {
            hash: String::new(),
            current_page: 1,
            total_pages: 0,
            zoom_bits: ZOOM_ONE_BITS,
            scroll_mode: "continuous".to_owned(),
            scroll_position_bits: 0,
            last_read,
            version: 0,
        }
    }

    /// The record of a document that was opened at the instant `secs`
    /// seconds and `nanos` nanoseconds after the Unix epoch and not read yet;
    /// nothing where there is no such instant.
    pub fn unread_at(secs: i64, nanos: u32) -> (record: Option<ReadingProgress>)
        ensures
            view_of(record) == match utc_timestamp(secs, nanos) {
                Some(last_read) => Some(unread_record(last_read)),
                None => None,
            },
    {
        match format_utc(secs, nanos) {
            Some(last_read) => Some(ReadingProgress::unread(last_read)),
            None => None,
        }
    }
}

/// The value of a record that may be absent.
pub open spec fn view_of(record: Option<ReadingProgress>) -> Option<ProgressView> {
    match record {
        Some(r) => Some(r@),
        None => None,
    }
}

/// Whether the timestamp `a` is later than the timestamp `b`. Timestamps
/// have one fixed width, so that the later of two is the one whose text comes
/// after the other's.
pub open spec fn later_than(a: Seq<char>, b: Seq<char>) -> bool {
    text_after(a, b)
}

/// Decides whether the timestamp `a` is later than the timestamp `b`.
pub fn is_later(a: &str, b: &str) -> (later: bool)
    ensures
        later == later_than(a@, b@),
{
    is_after(a, b)
}

/// What reconciling one hash does with the two copies of its record.
#[derive(Debug, Clone, Copy, PartialEq, Eq, Structural)]
pub enum Direction {
    /// Neither copy is written.
    Keep,
    /// The local record is written to the central replica.
    Push,
    /// The central record is written to the local replica.
    Pull,
}

/// The reconciliation rule. A copy that exists wins over one that does not;
/// of two copies the higher version wins; at equal versions the later
/// `last_read` wins; two copies equal in both are left alone.
pub open spec fn reconcile(local: Option<ProgressView>, central: Option<ProgressView>) -> Direction {
    match (local, central) {
        (None, None) => Direction::Keep,
        (Some(_), None) => Direction::Push,
        (None, Some(_)) => Direction::Pull,
        (Some(l), Some(c)) => {
            if l.version > c.version {
                Direction::Push
            } else if c.version > l.version {
                Direction::Pull
            } else if later_than(c.last_read, l.last_read) {
                Direction::Pull
            } else if later_than(l.last_read, c.last_read) {
                Direction::Push
            } else {
                Direction::Keep
            }
        },
    }
}

/// Applies the reconciliation rule to the two copies of one record.
pub fn decide(local: &Option<ReadingProgress>, central: &Option<ReadingProgress>) -> (direction:
    Direction)
    ensures
        direction == reconcile(view_of(*local), view_of(*central)),
{
    match (local, central) {
        (None, None) => Direction::Keep,
        (Some(_), None) => Direction::Push,
        (None, Some(_)) => Direction::Pull,
        (Some(l), Some(c)) => {
            if l.version > c.version {
                Direction::Push
            } else if c.version > l.version {
                Direction::Pull
            } else if is_later(c.last_read.as_str(), l.last_read.as_str()) {
                Direction::Pull
            } else if is_later(l.last_read.as_str(), c.last_read.as_str()) {
                Direction::Push
            } else {
                Direction::Keep
            }
        },
    }
}

/// One of the two places where records are kept.
#[derive(Debug, Clone, Copy, PartialEq, Eq, Structural)]
pub enum Replica {
    /// The copy that belongs to this device alone.
    Local,
    /// The shared copy, which something outside may synchronise elsewhere.
    Central,
}

/// Both replicas as mathematical maps from the hash a record is filed under
/// to the record.
pub ghost struct Replicas {
    pub local: Map<Seq<char>, ProgressView>,
    pub central: Map<Seq<char>, ProgressView>,
}

impl Replicas {
    /// The record filed under `hash` in `replica`, if there is one.
    pub open spec fn get(self, replica: Replica, hash: Seq<char>) -> Option<ProgressView> {
        match replica {
            Replica::Local => if self.local.dom().contains(hash) {
                Some(self.local[hash])
            } else {
                None
            },
            Replica::Central => if self.central.dom().contains(hash) {
                Some(self.central[hash])
            } else {
                None
            },
        }
    }

    /// The replicas after `record` was filed under `hash` in `replica`.
    pub open spec fn put(self, replica: Replica, hash: Seq<char>, record: ProgressView) -> Replicas {
        match replica {
            Replica::Local => Replicas { local: self.local.insert(hash, record), ..self },
            Replica::Central => Replicas { central: self.central.insert(hash, record), ..self },
        }
    }

    /// The replicas after whatever was filed under `hash` in `replica` was
    /// removed.
    pub open spec fn without(self, replica: Replica, hash: Seq<char>) -> Replicas {
        match replica {
            Replica::Local => Replicas { local: self.local.remove(hash), ..self },
            Replica::Central => Replicas { central: self.central.remove(hash), ..self },
        }
    }

    /// Every record is filed under its own hash.
    pub open spec fn filed_by_hash(self) -> bool {
        &&& forall|h: Seq<char>| #[trigger] self.local.dom().contains(h) ==> self.local[h].hash == h
        &&& forall|h: Seq<char>| #[trigger]
            self.central.dom().contains(h) ==> self.central[h].hash == h
    }
}

/// Reconciling `hash`: the replicas afterwards, and the record handed back,
/// which is the central one where it was adopted and nothing otherwise. With
/// the central replica unavailable nothing happens. A pushed record is filed
/// under the hash it names, a pulled one under the hash that was asked for.
pub open spec fn after_sync(w: Replicas, active: bool, hash: Seq<char>) -> (
    Replicas,
    Option<ProgressView>,
) {
    if !active {
        (w, None)
    } else {
        let local = w.get(Replica::Local, hash);
        let central = w.get(Replica::Central, hash);
        match reconcile(local, central) {
            Direction::Keep => (w, None),
            Direction::Push => (w.put(Replica::Central, local->0.hash, local->0), None),
            Direction::Pull => (w.put(Replica::Local, hash, central->0), central),
        }
    }
}

/// The version that the next local save gives a record whose current local
/// copy is `current`.
pub open spec fn next_version(current: Option<ProgressView>) -> int {
    match current {
        Some(p) => p.version + 1,
        None => 1,
    }
}

/// The record that a save of `record` stores when the current local copy is
/// `current`: `record` with the next version.
pub open spec fn saved_record(record: ProgressView, current: Option<ProgressView>) -> ProgressView {
    ProgressView { version: next_version(current) as u64, ..record }
}

/// Saving `record`: only the local replica changes.
pub open spec fn after_save(w: Replicas, record: ProgressView) -> Replicas {
    w.put(
        Replica::Local,
        record.hash,
        saved_record(record, w.get(Replica::Local, record.hash)),
    )
}

/// Loading `hash`: reconcile first; where that hands nothing back the local
/// record is the answer; where there is none either, a central record is
/// copied into the local replica and is the answer.
pub open spec fn after_load(w: Replicas, active: bool, hash: Seq<char>) -> (
    Replicas,
    Option<ProgressView>,
) {
    let (synced, adopted) = after_sync(w, active, hash);
    if adopted is Some {
        (synced, adopted)
    } else if synced.get(Replica::Local, hash) is Some {
        (synced, synced.get(Replica::Local, hash))
    } else if synced.get(Replica::Central, hash) is Some {
        (
            synced.put(Replica::Local, hash, synced.get(Replica::Central, hash)->0),
            synced.get(Replica::Central, hash),
        )
    } else {
        (synced, None)
    }
}

/// Deleting `hash`: both copies are gone.
pub open spec fn after_delete(w: Replicas, hash: Seq<char>) -> Replicas {
    w.without(Replica::Local, hash).without(Replica::Central, hash)
}

/// Reconciling each of `hashes` in turn: the replicas afterwards, and the
/// records that were adopted from the central replica, in the order of their
/// hashes.
pub open spec fn after_sync_all(w: Replicas, active: bool, hashes: Seq<Seq<char>>) -> (
    Replicas,
    Seq<ProgressView>,
)
    decreases hashes.len(),
{
    if hashes.len() == 0 {
        (w, Seq::empty())
    } else {
        let (synced, adopted) = after_sync(w, active, hashes.first());
        let (end, rest) = after_sync_all(synced, active, hashes.drop_first());
        match adopted {
            Some(record) => (end, seq![record] + rest),
            None => (end, rest),
        }
    }
}

/// The replicas after `records` were saved one after the other.
pub open spec fn after_saves(w: Replicas, records: Seq<ProgressView>) -> Replicas
    decreases records.len(),
{
    if records.len() == 0 {
        w
    } else {
        after_save(after_saves(w, records.drop_last()), records.last())
    }
}

/// Versions count saves: after a number of saves of records that all name
/// `hash`, starting with no local copy of it and with nothing else written in
/// between, the local copy has that number as its version.
pub proof fn lemma_version_counts_saves(w: Replicas, hash: Seq<char>, records: Seq<ProgressView>)
    requires
        w.get(Replica::Local, hash) is None,
        forall|i: int| 0 <= i < records.len() ==> (#[trigger] records[i]).hash == hash,
        0 < records.len() <= u64::MAX,
    ensures
        after_saves(w, records).get(Replica::Local, hash) is Some,
        after_saves(w, records).get(Replica::Local, hash)->0.version == records.len(),
        after_saves(w, records).central == w.central,
    decreases records.len(),
{
    if records.len() == 1 {
        assert(records.drop_last().len() == 0);
        assert(after_saves(w, records.drop_last()) == w);
    } else {
        lemma_version_counts_saves(w, hash, records.drop_last());
    }
}

/// Reconciling is idempotent: where the local record of a hash is filed
/// under the hash it names, reconciling that hash a second time, with nothing
/// written in between, finds nothing to write and hands nothing back.
pub proof fn lemma_sync_twice(w: Replicas, active: bool, hash: Seq<char>)
    requires
        w.get(Replica::Local, hash) matches Some(l) ==> l.hash == hash,
    ensures
        ({
            let once = after_sync(w, active, hash).0;
            &&& active ==> reconcile(once.get(Replica::Local, hash), once.get(Replica::Central, hash))
                == Direction::Keep
            &&& after_sync(once, active, hash) == (once, None::<ProgressView>)
        }),
{
    if active {
        let local = w.get(Replica::Local, hash);
        let central = w.get(Replica::Central, hash);
        if local is Some {
            lemma_text_order(local->0.last_read, local->0.last_read);
        }
        if central is Some {
            lemma_text_order(central->0.last_read, central->0.last_read);
        }
    }
}

/// The higher version wins. Where both copies exist and the central one has
/// the higher version, reconciling makes it the local record and hands it
/// back; where the local one has the higher version, reconciling makes it the
/// central record and hands nothing back.
pub proof fn lemma_higher_version_wins(w: Replicas, hash: Seq<char>)
    requires
        w.get(Replica::Local, hash) is Some,
        w.get(Replica::Central, hash) is Some,
    ensures
        ({
            let local = w.get(Replica::Local, hash)->0;
            let central = w.get(Replica::Central, hash)->0;
            &&& central.version > local.version ==> after_sync(w, true, hash) == (
                w.put(Replica::Local, hash, central),
                Some(central),
            )
            &&& local.version > central.version ==> after_sync(w, true, hash) == (
                w.put(Replica::Central, local.hash, local),
                None::<ProgressView>,
            )
        }),
{
}

/// At equal versions the later timestamp wins, and the record is copied as it
/// is, version and all. Equal versions and equal timestamps leave both
/// copies alone, whatever else they hold.
pub proof fn lemma_timestamp_breaks_ties(w: Replicas, hash: Seq<char>)
    requires
        w.get(Replica::Local, hash) is Some,
        w.get(Replica::Central, hash) is Some,
        w.get(Replica::Local, hash)->0.version == w.get(Replica::Central, hash)->0.version,
    ensures
        ({
            let local = w.get(Replica::Local, hash)->0;
            let central = w.get(Replica::Central, hash)->0;
            &&& later_than(central.last_read, local.last_read) ==> after_sync(w, true, hash) == (
                w.put(Replica::Local, hash, central),
                Some(central),
            )
            &&& later_than(local.last_read, central.last_read) ==> after_sync(w, true, hash) == (
                w.put(Replica::Central, local.hash, local),
                None::<ProgressView>,
            )
            &&& local.last_read == central.last_read ==> after_sync(w, true, hash) == (
                w,
                None::<ProgressView>,
            )
        }),
{
    let local = w.get(Replica::Local, hash)->0;
    let central = w.get(Replica::Central, hash)->0;
    lemma_text_order(local.last_read, central.last_read);
}

/// Records stay filed under the hash they name: where that holds of both
/// replicas, it holds after a reconciliation, a load, a deletion, and a save.
pub proof fn lemma_filing_is_kept(w: Replicas, active: bool, hash: Seq<char>, record: ProgressView)
    requires
        w.filed_by_hash(),
    ensures
        after_sync(w, active, hash).0.filed_by_hash(),
        after_load(w, active, hash).0.filed_by_hash(),
        after_delete(w, hash).filed_by_hash(),
        after_save(w, record).filed_by_hash(),
{
    let synced = after_sync(w, active, hash).0;
    assert(synced.filed_by_hash());
    assert(after_load(w, active, hash).0.filed_by_hash());
}

/// A save never touches the central replica, and leaves every other local
/// record as it was.
pub proof fn lemma_save_is_local(w: Replicas, record: ProgressView, other: Seq<char>)
    ensures
        after_save(w, record).central == w.central,
        other != record.hash ==> after_save(w, record).get(Replica::Local, other) == w.get(
            Replica::Local,
            other,
        ),
{
}

} // verus!
