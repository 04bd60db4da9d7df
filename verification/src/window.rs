//! Rules for reader windows: how they are labelled and addressed, and how
//! many may be open at once.

use crate::text::{chars_of, same_text, starts_with};
use vstd::prelude::*;
use vstd::utf8::encode_utf8;

verus! {

/// The number of reader windows that may be open at once.
pub const MAX_READER_WINDOWS: usize = 3;

/// The label of the reader window for the document with the hash `hash`.
pub open spec fn label_for(hash: Seq<char>) -> Seq<char> {
    "reader-"@ + hash
}

/// The label of the reader window for the document with the hash `hash`.
pub fn reader_label(hash: &str) -> (label: String)
    ensures
        label@ == label_for(hash@),
{
    let mut label = "reader-".to_owned();
    label.append(hash);
    label
}

/// The number of `labels` that are labels of reader windows.
pub open spec fn readers_among(labels: Seq<String>) -> nat
    decreases labels.len(),
{
    if labels.len() == 0 {
        0
    } else {
        readers_among(labels.drop_last()) + if "reader-"@.is_prefix_of(labels.last()@) {
            1nat
        } else {
            0nat
        }
    }
}

/// Counts the reader windows among the windows labelled `labels`.
pub fn count_readers(labels: &Vec<String>) -> (count: usize)
    ensures
        count == readers_among(labels@),
{
    let prefix = chars_of("reader-");
    let mut count: usize = 0;
    let mut i: usize = 0;
    while i < labels.len()
        invariant
            i <= labels.len(),
            count <= i,
            count == readers_among(labels@.take(i as int)),
            prefix@ == "reader-"@,
        decreases labels.len() - i,
    {
        assert(labels@.take(i + 1).drop_last() =~= labels@.take(i as int));
        let chars = chars_of(labels[i].as_str());
        if starts_with(&chars, &prefix) {
            count = count + 1;
        }
        i = i + 1;
    }
    assert(labels@.take(i as int) =~= labels@);
    count
}

/// A byte that stands for itself in an address: an ASCII letter or digit, or
/// one of `-`, `.`, `_` and `~`.
pub open spec fn unreserved(b: u8) -> bool {
    ||| 48 <= b <= 57
    ||| 65 <= b <= 90
    ||| 97 <= b <= 122
    ||| b == 45
    ||| b == 46
    ||| b == 95
    ||| b == 126
}

/// The upper-case hexadecimal digit that stands for `n`, for `n` below 16.
pub open spec fn upper_hex_digit(n: int) -> char {
    if n < 10 {
        (n + 48) as char
    } else {
        (n + 55) as char
    }
}

/// The percent-encoding of `bytes`: an unreserved byte stands for itself,
/// any other is written as `%` and its two upper-case hexadecimal digits.
pub open spec fn percent_encoded(bytes: Seq<u8>) -> Seq<char>
    decreases bytes.len(),
{
    if bytes.len() == 0 {
        Seq::empty()
    } else {
        let b = bytes.last();
        percent_encoded(bytes.drop_last()) + if unreserved(b) {
            seq![b as char]
        } else {
            seq!['%', upper_hex_digit(b as int / 16), upper_hex_digit(b as int % 16)]
        }
    }
}

/// `urlencoding::encode` percent-encodes every byte of the text's UTF-8
/// encoding except ASCII letters and digits and `-`, `_`, `.`, `~`.
#[verifier::external_body]
fn url_encode(text: &str) -> (encoded: String)
    ensures
        encoded@ == percent_encoded(encode_utf8(text@)),
{
    urlencoding::encode(text).into_owned()
}

/// The address of the reader page for the document at `file_path` with the
/// hash `hash`.
pub open spec fn url_for(file_path: Seq<char>, hash: Seq<char>) -> Seq<char> {
    "src/windows/reader/index.html?path="@ + percent_encoded(encode_utf8(file_path)) + "&hash="@
        + hash
}

/// The address of the reader page for the document at `file_path` with the
/// hash `hash`. The hash is taken as it is.
pub fn reader_url(file_path: &str, hash: &str) -> (url: String)
    ensures
        url@ == url_for(file_path@, hash@),
{
    let mut url = "src/windows/reader/index.html?path=".to_owned();
    let encoded = url_encode(file_path);
    url.append(encoded.as_str());
    url.append("&hash=");
    url.append(hash);
    url
}

/// What is to be done when a document is to be opened in a reader window.
#[derive(Debug, PartialEq)]
pub enum ReaderPlan {
    /// The window with this label shows the document already and gets the
    /// focus.
    Focus { label: String },
    /// There are as many reader windows as may be open; none is opened.
    Refuse,
    /// A window is opened with this label, title and address.
    Open { label: String, title: String, url: String },
}

/// The mathematical value of a [`ReaderPlan`].
pub ghost enum ReaderPlanView {
    Focus { label: Seq<char> },
    Refuse,
    Open { label: Seq<char>, title: Seq<char>, url: Seq<char> },
}

impl View for ReaderPlan {
    type V = ReaderPlanView;

    open spec fn view(&self) -> ReaderPlanView {
        match *self {
            ReaderPlan::Focus { label } => ReaderPlanView::Focus { label: label@ },
            ReaderPlan::Refuse => ReaderPlanView::Refuse,
            ReaderPlan::Open { label, title, url } => ReaderPlanView::Open {
                label: label@,
                title: title@,
                url: url@,
            },
        }
    }
}

/// Whether one of `labels` is `label`.
pub open spec fn labelled(labels: Seq<String>, label: Seq<char>) -> bool {
    exists|i: int| 0 <= i < labels.len() && (#[trigger] labels[i])@ == label
}

/// What is to be done when the document at `file_path`, with the file name
/// `file_name` and the hash `hash`, is to be opened while the windows
/// labelled `labels` are open. A document has one window; a fourth reader
/// window is refused; a window is titled with the file name, or `PDF Reader`
/// where there is none.
pub open spec fn plan_for(
    labels: Seq<String>,
    file_path: Seq<char>,
    file_name: Option<Seq<char>>,
    hash: Seq<char>,
) -> ReaderPlanView {
    if labelled(labels, label_for(hash)) {
        ReaderPlanView::Focus { label: label_for(hash) }
    } else if readers_among(labels) >= MAX_READER_WINDOWS {
        ReaderPlanView::Refuse
    } else {
        ReaderPlanView::Open {
            label: label_for(hash),
            title: match file_name {
                Some(name) => name,
                None => "PDF Reader"@,
            },
            url: url_for(file_path, hash),
        }
    }
}

/// Plans the opening of a document in a reader window.
pub fn open_reader(
    labels: &Vec<String>,
    file_path: &str,
    file_name: &Option<String>,
    hash: &str,
) -> (plan: ReaderPlan)
    ensures
        plan@ == plan_for(labels@, file_path@, crate::text::text_of(*file_name), hash@),
{
    let label = reader_label(hash);
    let mut i: usize = 0;
    while i < labels.len()
        invariant
            i <= labels.len(),
            label@ == label_for(hash@),
            forall|k: int| 0 <= k < i ==> (#[trigger] labels[k])@ != label@,
        decreases labels.len() - i,
    {
        if same_text(labels[i].as_str(), label.as_str()) {
            return ReaderPlan::Focus { label };
        }
        i = i + 1;
    }
    if count_readers(labels) >= MAX_READER_WINDOWS {
        return ReaderPlan::Refuse;
    }
    let title = match file_name {
        Some(name) => name.clone(),
        None => "PDF Reader".to_owned(),
    };
    ReaderPlan::Open { label, title, url: reader_url(file_path, hash) }
}

} // verus!
