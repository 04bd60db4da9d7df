//! Document metadata and the cache that keeps it, keyed by a file's path and
//! modification time.

use crate::hash_cache::FileKey;
use crate::keyed::{
    as_map, distinct, holds, lemma_empty, lemma_place, lemma_pushed, lemma_removed, place_of,
};
use crate::text::{blank, is_blank, same_text, text_of};
use vstd::prelude::*;
use vstd::utf8::{decode_utf8, encode_utf8, valid_utf8};

verus! {

/// What the library knows of one document.
#[derive(Debug, PartialEq)]
pub struct PdfInfo {
    pub path: String,
    pub filename: String,
    pub title: String,
    pub page_count: u32,
    pub hash: String,
    pub file_size: u64,
}

/// The mathematical value of a [`PdfInfo`].
pub ghost struct PdfInfoView {
    pub path: Seq<char>,
    pub filename: Seq<char>,
    pub title: Seq<char>,
    pub page_count: u32,
    pub hash: Seq<char>,
    pub file_size: u64,
}

impl View for PdfInfo {
    type V = PdfInfoView;

    open spec fn view(&self) -> PdfInfoView {
        PdfInfoView {
            path: self.path@,
            filename: self.filename@,
            title: self.title@,
            page_count: self.page_count,
            hash: self.hash@,
            file_size: self.file_size,
        }
    }
}

impl Clone for PdfInfo {
    fn clone(&self) -> (copy: Self)
        ensures
            copy@ == self@,
    {
        PdfInfo {
            path: self.path.clone(),
            filename: self.filename.clone(),
            title: self.title.clone(),
            page_count: self.page_count,
            hash: self.hash.clone(),
            file_size: self.file_size,
        }
    }
}

/// A file's modification time, as the distance from the Unix epoch.
#[derive(Debug, Clone, Copy, PartialEq, Eq, Structural)]
pub struct ModTime {
    /// Whole seconds between the epoch and the time.
    pub secs: u64,
    /// The nanoseconds beyond the whole seconds.
    pub nanos: u32,
    /// Whether the time lies before the epoch.
    pub before_epoch: bool,
}

impl ModTime {
    /// The whole seconds since the epoch, counting a time before it as the
    /// epoch itself.
    pub open spec fn seconds(self) -> u64 {
        if self.before_epoch {
            0
        } else {
            self.secs
        }
    }

    /// The whole seconds since the epoch, counting a time before it as the
    /// epoch itself.
    pub fn whole_seconds(&self) -> (secs: u64)
        ensures
            secs == self.seconds(),
    {
        if self.before_epoch {
            0
        } else {
            self.secs
        }
    }
}

/// What the metadata of a document is kept under: its path and its exact
/// modification time.
pub type InfoKey = (Seq<char>, ModTime);

/// One cached description, with the file and the modification time that it
/// was made for.
struct InfoEntry {
    path: String,
    mtime: ModTime,
    info: PdfInfo,
}

spec fn info_key() -> spec_fn(InfoEntry) -> InfoKey {
    |e: InfoEntry| (e.path@, e.mtime)
}

spec fn info_value() -> spec_fn(InfoEntry) -> PdfInfoView {
    |e: InfoEntry| e.info@
}

/// The descriptions in `infos` that are not of the file at `path`.
pub open spec fn without_file(infos: Map<InfoKey, PdfInfoView>, path: Seq<char>) -> Map<
    InfoKey,
    PdfInfoView,
> {
    infos.restrict(Set::new(|key: InfoKey| key.0 != path))
}

/// The place among `entries` of the one for the file at `path` as modified at
/// `mtime`.
fn position(entries: &Vec<InfoEntry>, path: &str, mtime: ModTime) -> (found: Option<usize>)
    ensures
        match found {
            Some(i) => i < entries.len() && info_key()(entries[i as int]) == (path@, mtime),
            None => !holds(entries@, info_key(), (path@, mtime)),
        },
{
    let mut i: usize = 0;
    while i < entries.len()
        invariant
            i <= entries.len(),
            forall|k: int| 0 <= k < i ==> info_key()(#[trigger] entries[k]) != (path@, mtime),
        decreases entries.len() - i,
    {
        let entry = &entries[i];
        if entry.mtime == mtime && same_text(entry.path.as_str(), path) {
            return Some(i);
        }
        i = i + 1;
    }
    None
}

/// Takes out of `entries` every one for the file at `path`.
fn evict(entries: &mut Vec<InfoEntry>, path: &str)
    requires
        distinct(old(entries)@, info_key()),
    ensures
        distinct(final(entries)@, info_key()),
        as_map(final(entries)@, info_key(), info_value()) == without_file(
            as_map(old(entries)@, info_key(), info_value()),
            path@,
        ),
{
    let ghost before = entries@;
    let mut i: usize = 0;
    while i < entries.len()
        invariant
            i <= entries.len(),
            distinct(entries@, info_key()),
            forall|k: int| 0 <= k < i ==> (#[trigger] entries[k]).path@ != path@,
            without_file(as_map(entries@, info_key(), info_value()), path@) == without_file(
                as_map(before, info_key(), info_value()),
                path@,
            ),
        decreases entries.len() - i,
    {
        if same_text(entries[i].path.as_str(), path) {
            proof {
                lemma_removed(entries@, info_key(), info_value(), i as int);
                assert(without_file(
                    as_map(entries@, info_key(), info_value()).remove(
                        info_key()(entries[i as int]),
                    ),
                    path@,
                ) =~= without_file(as_map(entries@, info_key(), info_value()), path@));
            }
            entries.remove(i);
        } else {
            i = i + 1;
        }
    }
    proof {
        let kept = as_map(entries@, info_key(), info_value());
        assert forall|key: InfoKey| kept.contains_key(key) implies key.0 != path@ by {
            let at = place_of(entries@, info_key(), key);
            assert(entries[at].path@ != path@);
        }
        assert(without_file(kept, path@) =~= kept);
    }
}

/// The metadata cache: the description of each document that was looked at,
/// under its path and the modification time it had then.
pub struct PdfCache {
    entries: Vec<InfoEntry>,
}

impl View for PdfCache {
    type V = Map<InfoKey, PdfInfoView>;

    closed spec fn view(&self) -> Map<InfoKey, PdfInfoView> {
        as_map(self.entries@, info_key(), info_value())
    }
}

impl PdfCache {
    #[verifier::type_invariant]
    spec fn well_formed(self) -> bool {
        distinct(self.entries@, info_key())
    }

    /// A cache that holds nothing.
    pub fn new() -> (cache: PdfCache)
        ensures
            cache@ == Map::<InfoKey, PdfInfoView>::empty(),
    {
        proof {
            lemma_empty(info_key(), info_value());
        }
        let entries: Vec<InfoEntry> = Vec::new();
        assert(entries@ =~= Seq::<InfoEntry>::empty());
        PdfCache { entries }
    }

    /// The description kept for the file at `path` as modified at `mtime`, if
    /// there is one.
    pub fn get(&self, path: &str, mtime: ModTime) -> (info: Option<PdfInfo>)
        ensures
            match info {
                Some(i) => self@.contains_key((path@, mtime)) && i@ == self@[(path@, mtime)],
                None => !self@.contains_key((path@, mtime)),
            },
    {
        proof {
            use_type_invariant(self);
        }
        match position(&self.entries, path, mtime) {
            Some(i) => {
                proof {
                    lemma_place(self.entries@, info_key(), info_value(), i as int);
                }
                Some(self.entries[i].info.clone())
            },
            None => None,
        }
    }

    /// Keeps `info` for the file at `path` as modified at `mtime`. Whatever
    /// was kept for that file, under any modification time, is dropped first,
    /// so that stale descriptions of a file that changes do not pile up.
    pub fn insert(&mut self, path: &str, mtime: ModTime, info: PdfInfo)
        ensures
            final(self)@ == without_file(old(self)@, path@).insert((path@, mtime), info@),
    {
        proof {
            use_type_invariant(&*self);
        }
        let mut entries: Vec<InfoEntry> = Vec::new();
        std::mem::swap(&mut self.entries, &mut entries);
        evict(&mut entries, path);
        let entry = InfoEntry { path: path.to_owned(), mtime, info };
        proof {
            let kept = as_map(entries@, info_key(), info_value());
            assert(!holds(entries@, info_key(), (path@, mtime))) by {
                assert(!kept.contains_key((path@, mtime)));
            }
            lemma_pushed(entries@, info_key(), info_value(), entry);
        }
        entries.push(entry);
        self.entries = entries;
    }

    /// Drops every description kept for the file at `path`; those of other
    /// files stay.
    pub fn remove_path(&mut self, path: &str)
        ensures
            final(self)@ == without_file(old(self)@, path@),
    {
        proof {
            use_type_invariant(&*self);
        }
        let mut entries: Vec<InfoEntry> = Vec::new();
        std::mem::swap(&mut self.entries, &mut entries);
        evict(&mut entries, path);
        self.entries = entries;
    }
}

/// `String::from_utf8`: the text whose UTF-8 encoding `bytes` is, or nothing
/// where `bytes` is the encoding of no text.
#[verifier::external_body]
pub(crate) fn text_from_utf8(bytes: Vec<u8>) -> (text: Option<String>)
    ensures
        text is Some <==> valid_utf8(bytes@),
        text matches Some(t) ==> encode_utf8(t@) == bytes@,
{
    String::from_utf8(bytes).ok()
}

/// The title that a document carries in itself: the text that `bytes`, taken
/// from the document, encode in UTF-8, unless it is blank.
pub open spec fn embedded_title(bytes: Option<Seq<u8>>) -> Option<Seq<char>> {
    match bytes {
        Some(b) => if valid_utf8(b) && !blank(decode_utf8(b)) {
            Some(decode_utf8(b))
        } else {
            None
        },
        None => None,
    }
}

/// What a host has found out about a file before the library looks at it.
#[derive(Debug, PartialEq)]
pub struct FileFacts {
    /// The path, as text.
    pub path: String,
    /// The last component of the path, where it has one that is text.
    pub file_name: Option<String>,
    /// The file name without its extension, where it has one that is text.
    pub file_stem: Option<String>,
    /// The size in bytes.
    pub size: u64,
    /// The modification time.
    pub mtime: ModTime,
}

/// The mathematical value of a [`FileFacts`].
pub ghost struct FileFactsView {
    pub path: Seq<char>,
    pub file_name: Option<Seq<char>>,
    pub file_stem: Option<Seq<char>>,
    pub size: u64,
    pub mtime: ModTime,
}

impl View for FileFacts {
    type V = FileFactsView;

    open spec fn view(&self) -> FileFactsView {
        FileFactsView {
            path: self.path@,
            file_name: text_of(self.file_name),
            file_stem: text_of(self.file_stem),
            size: self.size,
            mtime: self.mtime,
        }
    }
}

impl FileFactsView {
    /// What the hash of the file is remembered under.
    pub open spec fn hash_key(self) -> FileKey {
        (self.path, self.mtime.seconds(), self.size)
    }

    /// What the description of the file is kept under.
    pub open spec fn info_key(self) -> InfoKey {
        (self.path, self.mtime)
    }
}

/// The description of a document: its file name, or `unknown` where it has
/// none; as its title the one it carries in itself, else the stem of its file
/// name, else `Untitled`.
pub open spec fn described(
    file: FileFactsView,
    hash: Seq<char>,
    page_count: u32,
    title: Option<Seq<u8>>,
) -> PdfInfoView {
    PdfInfoView {
        path: file.path,
        filename: match file.file_name {
            Some(name) => name,
            None => "unknown"@,
        },
        title: match embedded_title(title) {
            Some(text) => text,
            None => match file.file_stem {
                Some(stem) => stem,
                None => "Untitled"@,
            },
        },
        page_count,
        hash,
        file_size: file.size,
    }
}

/// Describes the document in `file` with the content hash `hash`, of which a
/// parser reports `page_count` pages and the title bytes `title`.
pub fn describe(file: &FileFacts, hash: String, page_count: u32, title: Option<Vec<u8>>) -> (info:
    PdfInfo)
    ensures
        info@ == described(
            file@,
            hash@,
            page_count,
            match title {
                Some(bytes) => Some(bytes@),
                None => None,
            },
        ),
{
    let filename = match &file.file_name {
        Some(name) => name.clone(),
        None => "unknown".to_owned(),
    };
    let carried: Option<String> = match title {
        Some(bytes) => {
            match text_from_utf8(bytes) {
                Some(text) => {
                    proof {
                        vstd::utf8::encode_utf8_decode_utf8(text@);
                    }
                    if is_blank(text.as_str()) {
                        None
                    } else {
                        Some(text)
                    }
                },
                None => None,
            }
        },
        None => None,
    };
    let title = match carried {
        Some(text) => text,
        None => match &file.file_stem {
            Some(stem) => stem.clone(),
            None => "Untitled".to_owned(),
        },
    };
    PdfInfo { path: file.path.clone(), filename, title, page_count, hash, file_size: file.size }
}

} // verus!
