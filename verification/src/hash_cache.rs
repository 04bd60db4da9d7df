//! The cache of content hashes, keyed by a file's path, modification time
//! and size, and the text form in which it is kept on disk.

use crate::keyed::{
    as_map, distinct, holds, lemma_empty, lemma_front, lemma_place, lemma_pushed, lemma_removed,
    lemma_replaced, place_of,
};
use crate::text::{
    chars_of, decimal, is_digit, lemma_decimal_injective, lemma_decimal_is_numeral,
    parse_decimal, push_chars, push_decimal, same_text, text_of,
};
use vstd::prelude::*;

verus! {

/// What a hash is remembered for: a path, the modification time in whole
/// seconds, and the size in bytes.
pub type FileKey = (Seq<char>, u64, u64);

/// The text under which the hash of the file at `path`, last modified at
/// `mtime_secs` seconds and `size` bytes long, is kept: the three joined by
/// colons, the numbers in decimal.
pub open spec fn cache_key(path: Seq<char>, mtime_secs: u64, size: u64) -> Seq<char> {
    path + seq![':'] + decimal(mtime_secs as nat) + seq![':'] + decimal(size as nat)
}

/// Where the parts of a key lie: the path, a colon, the digits of the time,
/// the last colon, and the digits of the size.
pub proof fn lemma_key_shape(path: Seq<char>, mtime_secs: u64, size: u64)
    ensures
        ({
            let key = cache_key(path, mtime_secs, size);
            let i = path.len() as int;
            let j = i + 1 + decimal(mtime_secs as nat).len();
            &&& j < key.len()
            &&& key[i] == ':'
            &&& key[j] == ':'
            &&& key.subrange(0, i) == path
            &&& key.subrange(i + 1, j) == decimal(mtime_secs as nat)
            &&& key.subrange(j + 1, key.len() as int) == decimal(size as nat)
            &&& forall|x: int| i < x < j ==> key[x] != ':'
            &&& forall|x: int| j < x < key.len() ==> key[x] != ':'
        }),
{
    let key = cache_key(path, mtime_secs, size);
    let time = decimal(mtime_secs as nat);
    let length = decimal(size as nat);
    let i = path.len() as int;
    let j = i + 1 + time.len();
    lemma_decimal_is_numeral(mtime_secs as nat);
    lemma_decimal_is_numeral(size as nat);
    assert(key.subrange(0, i) =~= path);
    assert(key.subrange(i + 1, j) =~= time);
    assert(key.subrange(j + 1, key.len() as int) =~= length);
    assert forall|x: int| i < x < j implies key[x] != ':' by {
        assert(key[x] == time[x - i - 1]);
        assert(is_digit(time[x - i - 1]));
    }
    assert forall|x: int| j < x < key.len() implies key[x] != ':' by {
        assert(key[x] == length[x - j - 1]);
        assert(is_digit(length[x - j - 1]));
    }
}

/// Different files, or different states of one file, have different keys.
pub proof fn lemma_key_injective(
    path: Seq<char>,
    mtime_secs: u64,
    size: u64,
    other_path: Seq<char>,
    other_mtime_secs: u64,
    other_size: u64,
)
    requires
        cache_key(path, mtime_secs, size) == cache_key(other_path, other_mtime_secs, other_size),
    ensures
        path == other_path,
        mtime_secs == other_mtime_secs,
        size == other_size,
{
    lemma_key_shape(path, mtime_secs, size);
    lemma_key_shape(other_path, other_mtime_secs, other_size);
    let key = cache_key(path, mtime_secs, size);
    let j = path.len() as int + 1 + decimal(mtime_secs as nat).len();
    let other_j = other_path.len() as int + 1 + decimal(other_mtime_secs as nat).len();
    assert(j == other_j) by {
        if j < other_j {
            assert(key[other_j] == ':');
        } else if other_j < j {
            assert(key[j] == ':');
        }
    }
    let i = path.len() as int;
    let other_i = other_path.len() as int;
    assert(i == other_i) by {
        if i < other_i {
            assert(key[other_i] == ':');
        } else if other_i < i {
            assert(key[i] == ':');
        }
    }
    lemma_decimal_injective(mtime_secs as nat, other_mtime_secs as nat);
    lemma_decimal_injective(size as nat, other_size as nat);
}

/// The key under which the hash of the file at `path`, last modified at
/// `mtime_secs` seconds and `size` bytes long, is kept on disk.
pub fn hash_cache_key(path: &str, mtime_secs: u64, size: u64) -> (key: String)
    ensures
        key@ == cache_key(path@, mtime_secs, size),
{
    let mut key = path.to_owned();
    key.push(':');
    push_decimal(&mut key, mtime_secs);
    key.push(':');
    push_decimal(&mut key, size);
    assert(key@ =~= cache_key(path@, mtime_secs, size));
    key
}

/// The index of the last colon in `chars[..end]`, if there is one.
fn last_colon(chars: &Vec<char>, end: usize) -> (found: Option<usize>)
    requires
        end <= chars.len(),
    ensures
        match found {
            Some(i) => i < end && chars[i as int] == ':' && forall|x: int|
                i < x < end ==> chars[x] != ':',
            None => forall|x: int| 0 <= x < end ==> chars[x] != ':',
        },
{
    let mut i: usize = end;
    while i > 0
        invariant
            i <= end <= chars.len(),
            forall|x: int| i <= x < end ==> chars[x] != ':',
        decreases i,
    {
        i = i - 1;
        if chars[i] == ':' {
            return Some(i);
        }
    }
    None
}

/// Whether `text` is the key of some file in some state.
pub open spec fn is_key(text: Seq<char>) -> bool {
    exists|path: Seq<char>, mtime_secs: u64, size: u64|
        text == #[trigger] cache_key(path, mtime_secs, size)
}

/// The file and the state that `text` is the key of.
pub open spec fn key_parts(text: Seq<char>) -> FileKey {
    choose|key: FileKey| text == cache_key(key.0, key.1, key.2)
}

/// A key is the key of one file in one state only, and its parts are that
/// file and that state.
pub proof fn lemma_key_parts(path: Seq<char>, mtime_secs: u64, size: u64)
    ensures
        is_key(cache_key(path, mtime_secs, size)),
        key_parts(cache_key(path, mtime_secs, size)) == (path, mtime_secs, size),
{
    let text = cache_key(path, mtime_secs, size);
    let key: FileKey = (path, mtime_secs, size);
    assert(text == cache_key(key.0, key.1, key.2));
    let parts = key_parts(text);
    lemma_key_injective(path, mtime_secs, size, parts.0, parts.1, parts.2);
}

/// Takes a key apart into path, modification time and size. Only a text that
/// is the key of some file is taken apart.
pub fn parse_hash_cache_key(key: &str) -> (parts: Option<(String, u64, u64)>)
    ensures
        match parts {
            Some((path, mtime_secs, size)) => key@ == cache_key(path@, mtime_secs, size)
                && is_key(key@) && key_parts(key@) == (path@, mtime_secs, size),
            None => !is_key(key@),
        },
{
    let chars = chars_of(key);
    let n = chars.len();
    let found = match last_colon(&chars, n) {
        Some(j) => match last_colon(&chars, j) {
            Some(i) => match parse_decimal(&chars, i + 1, j) {
                Some(mtime_secs) => match parse_decimal(&chars, j + 1, n) {
                    Some(size) => {
                        let mut path = String::new();
                        push_chars(&mut path, &chars, 0, i);
                        proof {
                            assert(path@ =~= chars@.subrange(0, i as int));
                            assert(chars@ =~= chars@.subrange(0, i as int) + seq![':']
                                + chars@.subrange(i + 1, j as int) + seq![':'] + chars@.subrange(
                                j + 1,
                                n as int,
                            ));
                        }
                        Some((path, mtime_secs, size))
                    },
                    None => None,
                },
                None => None,
            },
            None => None,
        },
        None => None,
    };
    proof {
        match &found {
            Some(parts) => {
                lemma_key_parts(parts.0@, parts.1, parts.2);
            },
            None => {
                assert forall|path: Seq<char>, mtime_secs: u64, size: u64|
                    key@ != cache_key(path, mtime_secs, size) by {
                    if key@ == cache_key(path, mtime_secs, size) {
                        lemma_key_shape(path, mtime_secs, size);
                        let i = path.len() as int;
                        let j = i + 1 + decimal(mtime_secs as nat).len();
                        assert(chars@[j] == ':');
                        assert(chars@[i] == ':');
                    }
                }
            },
        }
    }
    found
}

/// One remembered hash, with the file and the state of the file that it was
/// computed for.
struct HashCacheEntry {
    path: String,
    mtime_secs: u64,
    size: u64,
    hash: String,
}

impl HashCacheEntry {
    /// What this hash is remembered for.
    spec fn key(self) -> FileKey {
        (self.path@, self.mtime_secs, self.size)
    }
}

/// The key of an entry.
spec fn entry_key() -> spec_fn(HashCacheEntry) -> FileKey {
    |e: HashCacheEntry| e.key()
}

/// The hash of an entry.
spec fn entry_hash() -> spec_fn(HashCacheEntry) -> Seq<char> {
    |e: HashCacheEntry| e.hash@
}

/// The hashes that `entries` remember, by key.
spec fn hashes_of(entries: Seq<HashCacheEntry>) -> Map<FileKey, Seq<char>> {
    as_map(entries, entry_key(), entry_hash())
}

/// The hashes of `hashes` that are not for `path`.
pub open spec fn without_path(hashes: Map<FileKey, Seq<char>>, path: Seq<char>) -> Map<
    FileKey,
    Seq<char>,
> {
    hashes.restrict(Set::new(|key: FileKey| key.0 != path))
}

/// What a cache remembers once it has taken in `pairs`, read from disk, one
/// after the other: the hash of each pair whose first part is a key, under
/// that key; a later pair for the same key replaces an earlier one.
pub open spec fn from_pairs(pairs: Seq<(Seq<char>, Seq<char>)>) -> Map<FileKey, Seq<char>>
    decreases pairs.len(),
{
    if pairs.len() == 0 {
        Map::empty()
    } else {
        let before = from_pairs(pairs.drop_last());
        if is_key(pairs.last().0) {
            before.insert(key_parts(pairs.last().0), pairs.last().1)
        } else {
            before
        }
    }
}

/// The pairs in which `entries` are kept on disk: each hash with its key.
spec fn to_pairs(entries: Seq<HashCacheEntry>) -> Seq<(Seq<char>, Seq<char>)> {
    entries.map_values(
        |e: HashCacheEntry| (cache_key(e.path@, e.mtime_secs, e.size), e.hash@),
    )
}

/// What was written to disk reads back as what was remembered.
proof fn lemma_pairs_read_back(entries: Seq<HashCacheEntry>)
    requires
        distinct(entries, entry_key()),
    ensures
        from_pairs(to_pairs(entries)) == hashes_of(entries),
    decreases entries.len(),
{
    if entries.len() == 0 {
        lemma_empty(entry_key(), entry_hash());
        assert(entries =~= Seq::<HashCacheEntry>::empty());
    } else {
        let front = entries.drop_last();
        let last = entries.last();
        lemma_front(entries, entry_key());
        lemma_pairs_read_back(front);
        assert(to_pairs(entries).drop_last() =~= to_pairs(front));
        lemma_key_parts(last.path@, last.mtime_secs, last.size);
        lemma_pushed(front, entry_key(), entry_hash(), last);
        assert(front.push(last) =~= entries);
    }
}

/// The texts of pairs of strings.
pub open spec fn pair_texts(pairs: Seq<(String, String)>) -> Seq<(Seq<char>, Seq<char>)> {
    pairs.map_values(|p: (String, String)| (p.0@, p.1@))
}

/// The texts of pairs of strings that may be absent.
pub open spec fn pairs_of(pairs: Option<Vec<(String, String)>>) -> Option<
    Seq<(Seq<char>, Seq<char>)>,
> {
    match pairs {
        Some(pairs) => Some(pair_texts(pairs@)),
        None => None,
    }
}

/// What `serde_json` reads from a JSON text as a map from strings to
/// strings: its entries in the order of their keys, or nothing where the text
/// is no such map.
pub uninterp spec fn json_string_map(text: Seq<char>) -> Option<Seq<(Seq<char>, Seq<char>)>>;

/// The JSON text that `serde_json` writes for the map from strings to strings
/// that holds `pairs`.
pub uninterp spec fn string_map_json(pairs: Seq<(Seq<char>, Seq<char>)>) -> Option<Seq<char>>;

/// `serde_json::from_str`, asked for a map from strings to strings ordered by
/// key. The entries are handed out in the order of the map.
#[verifier::external_body]
fn read_string_map(text: &str) -> (pairs: Option<Vec<(String, String)>>)
    ensures
        pairs_of(pairs) == json_string_map(text@),
{
    let parsed = serde_json::from_str::<std::collections::BTreeMap<String, String>>(text);
    parsed.ok().map(|map| map.into_iter().collect())
}

/// `serde_json::to_string`, given a map from strings to strings ordered by key
/// that was filled with `pairs` in their order.
#[verifier::external_body]
fn write_string_map(pairs: &Vec<(String, String)>) -> (text: Option<String>)
    ensures
        text_of(text) == string_map_json(pair_texts(pairs@)),
{
    let map: std::collections::BTreeMap<&str, &str> =
        pairs.iter().map(|pair| (pair.0.as_str(), pair.1.as_str())).collect();
    serde_json::to_string(&map).ok()
}

/// The place among `entries` of the one for the file at `path` in the state
/// given by `mtime_secs` and `size`.
fn position(entries: &Vec<HashCacheEntry>, path: &str, mtime_secs: u64, size: u64) -> (found:
    Option<usize>)
    ensures
        match found {
            Some(i) => i < entries.len() && entries[i as int].key() == (path@, mtime_secs, size),
            None => !holds(entries@, entry_key(), (path@, mtime_secs, size)),
        },
{
    let mut i: usize = 0;
    while i < entries.len()
        invariant
            i <= entries.len(),
            forall|k: int| 0 <= k < i ==> (#[trigger] entries[k]).key() != (path@, mtime_secs, size),
        decreases entries.len() - i,
    {
        let entry = &entries[i];
        if entry.mtime_secs == mtime_secs && entry.size == size && same_text(
            entry.path.as_str(),
            path,
        ) {
            return Some(i);
        }
        i = i + 1;
    }
    None
}

/// The cache of content hashes. It remembers one hash for each key, and
/// forgets one only when told to.
pub struct HashCache {
    entries: Vec<HashCacheEntry>,
}

impl View for HashCache {
    type V = Map<FileKey, Seq<char>>;

    closed spec fn view(&self) -> Map<FileKey, Seq<char>> {
        hashes_of(self.entries@)
    }
}

impl HashCache {
    #[verifier::type_invariant]
    spec fn well_formed(self) -> bool {
        distinct(self.entries@, entry_key())
    }

    /// A cache that remembers nothing, and is kept on disk as no pairs.
    pub fn new() -> (cache: HashCache)
        ensures
            cache@ == Map::<FileKey, Seq<char>>::empty(),
            cache.pairs() == Seq::<(Seq<char>, Seq<char>)>::empty(),
    {
        proof {
            lemma_empty(entry_key(), entry_hash());
        }
        let entries: Vec<HashCacheEntry> = Vec::new();
        assert(entries@ =~= Seq::<HashCacheEntry>::empty());
        assert(to_pairs(entries@) =~= Seq::<(Seq<char>, Seq<char>)>::empty());
        HashCache { entries }
    }

    /// The hash remembered for the file at `path` in the state given by
    /// `mtime_secs` and `size`, if there is one.
    pub fn get(&self, path: &str, mtime_secs: u64, size: u64) -> (hash: Option<String>)
        ensures
            match hash {
                Some(h) => self@.contains_key((path@, mtime_secs, size)) && h@ == self@[(
                    path@,
                    mtime_secs,
                    size,
                )],
                None => !self@.contains_key((path@, mtime_secs, size)),
            },
    {
        proof {
            use_type_invariant(self);
        }
        match position(&self.entries, path, mtime_secs, size) {
            Some(i) => {
                proof {
                    lemma_place(self.entries@, entry_key(), entry_hash(), i as int);
                }
                Some(self.entries[i].hash.clone())
            },
            None => None,
        }
    }

    /// Remembers `hash` for the file at `path` in the state given by
    /// `mtime_secs` and `size`, in place of what was remembered for it.
    pub fn insert(&mut self, path: &str, mtime_secs: u64, size: u64, hash: String)
        ensures
            final(self)@ == old(self)@.insert((path@, mtime_secs, size), hash@),
    {
        proof {
            use_type_invariant(&*self);
        }
        let entry = HashCacheEntry { path: path.to_owned(), mtime_secs, size, hash };
        let mut entries: Vec<HashCacheEntry> = Vec::new();
        std::mem::swap(&mut self.entries, &mut entries);
        match position(&entries, path, mtime_secs, size) {
            Some(i) => {
                proof {
                    lemma_replaced(entries@, entry_key(), entry_hash(), i as int, entry);
                }
                entries.set(i, entry);
            },
            None => {
                proof {
                    lemma_pushed(entries@, entry_key(), entry_hash(), entry);
                }
                entries.push(entry);
            },
        }
        self.entries = entries;
    }

    /// Forgets every hash remembered for the file at `path`, in whatever
    /// state; the hashes of other files stay.
    pub fn remove_path(&mut self, path: &str)
        ensures
            final(self)@ == without_path(old(self)@, path@),
    {
        proof {
            use_type_invariant(&*self);
        }
        let mut entries: Vec<HashCacheEntry> = Vec::new();
        std::mem::swap(&mut self.entries, &mut entries);
        let ghost before = entries@;
        let mut i: usize = 0;
        while i < entries.len()
            invariant
                i <= entries.len(),
                distinct(entries@, entry_key()),
                forall|k: int| 0 <= k < i ==> (#[trigger] entries[k]).path@ != path@,
                without_path(hashes_of(entries@), path@) == without_path(hashes_of(before), path@),
            decreases entries.len() - i,
        {
            if same_text(entries[i].path.as_str(), path) {
                proof {
                    lemma_removed(entries@, entry_key(), entry_hash(), i as int);
                    assert(without_path(
                        hashes_of(entries@).remove(entries[i as int].key()),
                        path@,
                    ) =~= without_path(hashes_of(entries@), path@));
                }
                entries.remove(i);
            } else {
                i = i + 1;
            }
        }
        proof {
            assert forall|key: FileKey| hashes_of(entries@).contains_key(key) implies key.0
                != path@ by {
                let at = place_of(entries@, entry_key(), key);
                assert(entries[at].path@ != path@);
            }
            assert(without_path(hashes_of(entries@), path@) =~= hashes_of(entries@));
        }
        self.entries = entries;
    }

    /// The pairs in which the cache is kept on disk.
    pub closed spec fn pairs(&self) -> Seq<(Seq<char>, Seq<char>)> {
        to_pairs(self.entries@)
    }

    /// The number of hashes that the cache remembers.
    pub fn len(&self) -> (count: usize)
        ensures
            count == self.pairs().len(),
    {
        self.entries.len()
    }

    /// The JSON text in which the cache is kept on disk, a map from each key
    /// to its hash, or nothing where `serde_json` does not write one. What is
    /// written reads back as what the cache remembers.
    pub fn to_json(&self) -> (text: Option<String>)
        ensures
            text_of(text) == string_map_json(self.pairs()),
            from_pairs(self.pairs()) == self@,
    {
        proof {
            use_type_invariant(self);
            lemma_pairs_read_back(self.entries@);
        }
        let mut pairs: Vec<(String, String)> = Vec::new();
        let mut i: usize = 0;
        while i < self.entries.len()
            invariant
                i <= self.entries.len(),
                pair_texts(pairs@) == to_pairs(self.entries@.take(i as int)),
            decreases self.entries.len() - i,
        {
            let entry = &self.entries[i];
            let key = hash_cache_key(entry.path.as_str(), entry.mtime_secs, entry.size);
            let ghost sofar = pairs@;
            pairs.push((key, entry.hash.clone()));
            proof {
                assert(self.entries@.take(i + 1) =~= self.entries@.take(i as int).push(
                    self.entries@[i as int],
                ));
                assert(pair_texts(pairs@) =~= pair_texts(sofar).push(
                    (key@, self.entries@[i as int].hash@),
                ));
            }
            i = i + 1;
            assert(pair_texts(pairs@) =~= to_pairs(self.entries@.take(i as int)));
        }
        assert(self.entries@.take(i as int) =~= self.entries@);
        write_string_map(&pairs)
    }

    /// The cache that a JSON text from disk stands for. A text that is no map
    /// from strings to strings stands for the empty cache, and an entry whose
    /// key is no key is passed over.
    pub fn from_json(text: &str) -> (cache: HashCache)
        ensures
            cache@ == match json_string_map(text@) {
                Some(pairs) => from_pairs(pairs),
                None => Map::empty(),
            },
    {
        let mut cache = HashCache::new();
        match read_string_map(text) {
            Some(pairs) => {
                let mut i: usize = 0;
                while i < pairs.len()
                    invariant
                        i <= pairs.len(),
                        cache@ == from_pairs(pair_texts(pairs@).take(i as int)),
                    decreases pairs.len() - i,
                {
                    proof {
                        assert(pair_texts(pairs@).take(i + 1).drop_last() =~= pair_texts(
                            pairs@,
                        ).take(i as int));
                    }
                    match parse_hash_cache_key(pairs[i].0.as_str()) {
                        Some((path, mtime_secs, size)) => {
                            cache.insert(path.as_str(), mtime_secs, size, pairs[i].1.clone());
                        },
                        None => {},
                    }
                    i = i + 1;
                }
                assert(pair_texts(pairs@).take(i as int) =~= pair_texts(pairs@));
            },
            None => {},
        }
        cache
    }
}

} // verus!
