//! Where the library keeps its files: under a folder that a cloud service
//! synchronises, where there is one, and under a folder of the device alone
//! otherwise. Paths are texts whose parts are separated by `/`.

use crate::text::{chars_of, same_text, text_of};
use vstd::prelude::*;

verus! {

/// What a host has found out about the machine before the library places its
/// files.
#[derive(Debug, PartialEq)]
pub struct Surroundings {
    /// The user's home directory, where there is one.
    pub home: Option<String>,
    /// The directory for temporary files.
    pub temp_dir: String,
    /// Whether the directory [`cloud_docs_dir`] exists.
    pub cloud_docs_present: bool,
}

/// The mathematical value of a [`Surroundings`].
pub ghost struct SurroundingsView {
    pub home: Option<Seq<char>>,
    pub temp_dir: Seq<char>,
    pub cloud_docs_present: bool,
}

impl View for Surroundings {
    type V = SurroundingsView;

    open spec fn view(&self) -> SurroundingsView {
        SurroundingsView {
            home: text_of(self.home),
            temp_dir: self.temp_dir@,
            cloud_docs_present: self.cloud_docs_present,
        }
    }
}

/// The path of `name` in the directory `dir`. One separator stands between
/// the two, unless `dir` is empty or ends in one.
pub open spec fn child(dir: Seq<char>, name: Seq<char>) -> Seq<char> {
    if dir.len() == 0 {
        name
    } else if dir.last() == '/' {
        dir + name
    } else {
        dir + seq!['/'] + name
    }
}

/// The path of `name` in the directory `dir`.
pub fn join(dir: &str, name: &str) -> (path: String)
    ensures
        path@ == child(dir@, name@),
{
    let chars = chars_of(dir);
    let mut path = dir.to_owned();
    if chars.len() > 0 && chars[chars.len() - 1] != '/' {
        path.push('/');
    }
    path.append(name);
    assert(path@ =~= child(dir@, name@));
    path
}

/// The directory of the cloud service under `home`.
pub open spec fn cloud_docs_in(home: Seq<char>) -> Seq<char> {
    child(child(child(home, "Library"@), "Mobile Documents"@), "com~apple~CloudDocs"@)
}

/// The library's folder in the cloud service under `home`.
pub open spec fn icloud_base_in(home: Seq<char>) -> Seq<char> {
    child(cloud_docs_in(home), "PDFReader"@)
}

/// The library's folder on the device alone under `home`.
pub open spec fn local_fallback_in(home: Seq<char>) -> Seq<char> {
    child(home, ".pdf-reader"@)
}

/// The folder under which the library keeps its documents and the shared
/// records: the one in the cloud service where the service's directory
/// exists, else the one on the device alone, and a folder among the temporary
/// files where there is no home directory.
pub open spec fn base_dir(s: SurroundingsView) -> Seq<char> {
    match s.home {
        Some(home) => if s.cloud_docs_present {
            icloud_base_in(home)
        } else {
            local_fallback_in(home)
        },
        None => child(s.temp_dir, "pdf-reader"@),
    }
}

/// The folder of the records that belong to the device alone.
pub open spec fn local_progress_dir(s: SurroundingsView) -> Seq<char> {
    let root = match s.home {
        Some(home) => home,
        None => s.temp_dir,
    };
    child(
        child(
            child(child(root, "Library"@), "Application Support"@),
            "com.yangguanlin.pdf-reader"@,
        ),
        "Progress"@,
    )
}

/// Whether the shared records are kept in the cloud service.
pub open spec fn replication_active(s: SurroundingsView) -> bool {
    s.home is Some && base_dir(s) == icloud_base_in(s.home->0)
}

/// The name of the file that holds the record of `hash`.
pub open spec fn record_name(hash: Seq<char>) -> Seq<char> {
    hash + ".json"@
}

/// The directory of the cloud service under `home`, whose presence decides
/// where the library keeps its files.
pub fn cloud_docs_dir(home: &str) -> (dir: String)
    ensures
        dir@ == cloud_docs_in(home@),
{
    let library = join(home, "Library");
    let mobile = join(library.as_str(), "Mobile Documents");
    join(mobile.as_str(), "com~apple~CloudDocs")
}

/// The library's folder in the cloud service, where there is a home
/// directory.
pub fn get_icloud_base(home: &Option<String>) -> (base: Option<String>)
    ensures
        text_of(base) == match text_of(*home) {
            Some(home) => Some(icloud_base_in(home)),
            None => None,
        },
{
    match home {
        Some(home) => {
            let docs = cloud_docs_dir(home.as_str());
            Some(join(docs.as_str(), "PDFReader"))
        },
        None => None,
    }
}

/// The library's folder on the device alone, where there is a home
/// directory.
pub fn get_local_fallback(home: &Option<String>) -> (fallback: Option<String>)
    ensures
        text_of(fallback) == match text_of(*home) {
            Some(home) => Some(local_fallback_in(home)),
            None => None,
        },
{
    match home {
        Some(home) => Some(join(home.as_str(), ".pdf-reader")),
        None => None,
    }
}

/// The folder under which the library keeps its documents and the shared
/// records.
pub fn get_base_dir(s: &Surroundings) -> (dir: String)
    ensures
        dir@ == base_dir(s@),
{
    if s.cloud_docs_present {
        match get_icloud_base(&s.home) {
            Some(base) => {
                return base;
            },
            None => {},
        }
    }
    match get_local_fallback(&s.home) {
        Some(fallback) => fallback,
        None => join(s.temp_dir.as_str(), "pdf-reader"),
    }
}

/// The folder of the documents.
pub fn get_books_dir(s: &Surroundings) -> (dir: String)
    ensures
        dir@ == child(base_dir(s@), "Books"@),
{
    let base = get_base_dir(s);
    join(base.as_str(), "Books")
}

/// The folder of the shared records, the central replica.
pub fn get_progress_dir(s: &Surroundings) -> (dir: String)
    ensures
        dir@ == child(base_dir(s@), "Progress"@),
{
    let base = get_base_dir(s);
    join(base.as_str(), "Progress")
}

/// The folder of the records that belong to the device alone, the local
/// replica.
pub fn get_local_progress_dir(s: &Surroundings) -> (dir: String)
    ensures
        dir@ == local_progress_dir(s@),
{
    let root: &str = match &s.home {
        Some(home) => home.as_str(),
        None => s.temp_dir.as_str(),
    };
    let library = join(root, "Library");
    let support = join(library.as_str(), "Application Support");
    let app = join(support.as_str(), "com.yangguanlin.pdf-reader");
    join(app.as_str(), "Progress")
}

/// Whether the shared records are kept in the cloud service, so that the
/// central replica is available for reconciling.
pub fn is_icloud_active(s: &Surroundings) -> (active: bool)
    ensures
        active == replication_active(s@),
        active == (s.home is Some && s.cloud_docs_present),
{
    proof {
        lemma_replication_active(s@);
    }
    let base = get_base_dir(s);
    match get_icloud_base(&s.home) {
        Some(icloud) => same_text(base.as_str(), icloud.as_str()),
        None => false,
    }
}

/// The shared records are kept in the cloud service exactly where there is a
/// home directory and the service's directory exists in it: the folder on the
/// device alone is never the folder in the cloud service.
pub proof fn lemma_replication_active(s: SurroundingsView)
    ensures
        replication_active(s) == (s.home is Some && s.cloud_docs_present),
{
    if s.home is Some && !s.cloud_docs_present {
        let home = s.home->0;
        reveal_strlit("Library");
        reveal_strlit("Mobile Documents");
        reveal_strlit("com~apple~CloudDocs");
        reveal_strlit("PDFReader");
        reveal_strlit(".pdf-reader");
        let library = child(home, "Library"@);
        let mobile = child(library, "Mobile Documents"@);
        let docs = child(mobile, "com~apple~CloudDocs"@);
        assert(library.len() >= home.len() + 7);
        assert(mobile.len() >= library.len() + 16);
        assert(docs.len() >= mobile.len() + 19);
        assert(icloud_base_in(home).len() >= docs.len() + 9);
        assert(local_fallback_in(home).len() <= home.len() + 12);
    }
}

/// The file in which the hash cache is kept.
pub fn hash_cache_path(s: &Surroundings) -> (path: String)
    ensures
        path@ == child(base_dir(s@), "hash-cache.json"@),
{
    let base = get_base_dir(s);
    join(base.as_str(), "hash-cache.json")
}

/// The file that holds the record of `hash` in the folder `dir`.
pub fn progress_file(dir: &str, hash: &str) -> (path: String)
    ensures
        path@ == child(dir@, record_name(hash@)),
{
    let mut name = hash.to_owned();
    name.append(".json");
    join(dir, name.as_str())
}

/// The file that holds the local record of `hash`.
pub fn local_progress_file(s: &Surroundings, hash: &str) -> (path: String)
    ensures
        path@ == child(local_progress_dir(s@), record_name(hash@)),
{
    let dir = get_local_progress_dir(s);
    progress_file(dir.as_str(), hash)
}

/// The file that holds the central record of `hash`.
pub fn central_progress_file(s: &Surroundings, hash: &str) -> (path: String)
    ensures
        path@ == child(child(base_dir(s@), "Progress"@), record_name(hash@)),
{
    let dir = get_progress_dir(s);
    progress_file(dir.as_str(), hash)
}

} // verus!
