//! Rules for the folder of documents: which files in it are documents, in
//! what order they are shown, and what a document may be renamed to.

use crate::text::{
    chars_of, ends_with, is_after, lowercased, starts_with, string_of, text_after, trim, trimmed,
};
use vstd::prelude::*;

verus! {

/// Whether `name` is the name of a placeholder that the cloud service leaves
/// for a file it has not fetched: it begins with a dot and ends in `.icloud`.
pub open spec fn placeholder(name: Seq<char>) -> bool {
    "."@.is_prefix_of(name) && ".icloud"@.is_suffix_of(name)
}

/// Decides whether `name` is the name of a placeholder of the cloud service.
pub fn is_cloud_placeholder(name: &str) -> (is: bool)
    ensures
        is == placeholder(name@),
{
    let chars = chars_of(name);
    let dot = chars_of(".");
    let ending = chars_of(".icloud");
    starts_with(&chars, &dot) && ends_with(&chars, &ending)
}

/// Whether `c` is the letter `letter`, which is a lower-case ASCII letter, in
/// either case.
pub open spec fn is_letter(c: char, letter: char) -> bool {
    c == letter || c as int == letter as int - 32
}

/// Whether `extension` is `pdf`, in whatever case of its letters.
pub open spec fn pdf_extension(extension: Seq<char>) -> bool {
    &&& extension.len() == 3
    &&& is_letter(extension[0], 'p')
    &&& is_letter(extension[1], 'd')
    &&& is_letter(extension[2], 'f')
}

/// Whether a file with the extension `extension`, if it has one, is a
/// document.
pub open spec fn is_document(extension: Option<String>) -> bool {
    match extension {
        Some(e) => pdf_extension(e@),
        None => false,
    }
}

/// Decides whether a file with the extension `extension` is a document.
pub fn has_pdf_extension(extension: &Option<String>) -> (is: bool)
    ensures
        is == is_document(*extension),
{
    match extension {
        Some(e) => {
            let chars = chars_of(e.as_str());
            chars.len() == 3 && (chars[0] == 'p' || chars[0] == 'P') && (chars[1] == 'd'
                || chars[1] == 'D') && (chars[2] == 'f' || chars[2] == 'F')
        },
        None => false,
    }
}

/// Whether a change to files with the extensions `extensions` concerns a
/// document.
pub fn concerns_documents(extensions: &Vec<Option<String>>) -> (any: bool)
    ensures
        any == exists|i: int| 0 <= i < extensions.len() && is_document(#[trigger] extensions[i]),
{
    let mut i: usize = 0;
    while i < extensions.len()
        invariant
            i <= extensions.len(),
            forall|k: int| 0 <= k < i ==> !is_document(#[trigger] extensions[k]),
        decreases extensions.len() - i,
    {
        if has_pdf_extension(&extensions[i]) {
            return true;
        }
        i = i + 1;
    }
    false
}

/// Whether a document titled `a` is shown before one titled `b`: titles are
/// ordered as their lower-case forms are.
pub open spec fn title_before(a: Seq<char>, b: Seq<char>) -> bool {
    text_after(lowercased(b), lowercased(a))
}

/// Decides whether a document titled `a` is shown before one titled `b`.
pub fn is_title_before(a: &str, b: &str) -> (before: bool)
    ensures
        before == title_before(a@, b@),
{
    let x = a.to_lowercase();
    let y = b.to_lowercase();
    is_after(y.as_str(), x.as_str())
}

/// Why a name cannot be given to a document.
#[derive(Debug, Clone, Copy, PartialEq, Eq, Structural)]
pub enum FilenameError {
    /// Nothing is left of the name once the white space around it is gone.
    Empty,
    /// The name holds a path separator.
    InvalidSeparator,
}

/// Whether `name` holds a slash or a backslash.
pub open spec fn has_separator(name: Seq<char>) -> bool {
    exists|i: int| 0 <= i < name.len() && (#[trigger] name[i] == '/' || name[i] == '\\')
}

/// The name with `.pdf` behind it, unless it ends in that already, in
/// whatever case.
pub open spec fn with_pdf_extension(name: Seq<char>) -> Seq<char> {
    if ".pdf"@.is_suffix_of(lowercased(name)) {
        name
    } else {
        name + ".pdf"@
    }
}

/// The file name to give a document that is to be renamed to `name`: the
/// name without the white space around it and with the extension `.pdf`. A
/// name of white space only, or one with a path separator in it, is refused.
pub open spec fn filename_for(name: Seq<char>) -> Result<Seq<char>, FilenameError> {
    if trimmed(name).len() == 0 {
        Err(FilenameError::Empty)
    } else if has_separator(trimmed(name)) {
        Err(FilenameError::InvalidSeparator)
    } else {
        Ok(with_pdf_extension(trimmed(name)))
    }
}

/// The file name to give a document that is to be renamed to `name`.
pub fn checked_filename(name: &str) -> (filename: Result<String, FilenameError>)
    ensures
        match filename {
            Ok(f) => filename_for(name@) == Ok::<Seq<char>, FilenameError>(f@),
            Err(e) => filename_for(name@) == Err::<Seq<char>, FilenameError>(e),
        },
{
    let kept = trim(name);
    if kept.len() == 0 {
        return Err(FilenameError::Empty);
    }
    let mut i: usize = 0;
    while i < kept.len()
        invariant
            i <= kept.len(),
            kept@ == trimmed(name@),
            kept.len() > 0,
            forall|k: int| 0 <= k < i ==> !(#[trigger] kept[k] == '/' || kept[k] == '\\'),
        decreases kept.len() - i,
    {
        if kept[i] == '/' || kept[i] == '\\' {
            assert(kept@[i as int] == '/' || kept@[i as int] == '\\');
            return Err(FilenameError::InvalidSeparator);
        }
        i = i + 1;
    }
    let mut filename = string_of(&kept);
    let lower = chars_of(filename.to_lowercase().as_str());
    let ending = chars_of(".pdf");
    if !ends_with(&lower, &ending) {
        filename.append(".pdf");
    }
    Ok(filename)
}

} // verus!
