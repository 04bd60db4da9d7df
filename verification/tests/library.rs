use pdf_reader::library::{
    checked_filename, concerns_documents, has_pdf_extension, is_cloud_placeholder,
    is_title_before, FilenameError,
};
use pdf_reader::text::{ends_with, matches_at, starts_with, string_of, trim};

fn some(text: &str) -> Option<String> {
    Some(text.to_string())
}

#[test]
fn placeholders_of_the_cloud_service_begin_with_a_dot_and_end_in_icloud() {
    assert!(is_cloud_placeholder(".Book.pdf.icloud"));
    assert!(is_cloud_placeholder(".icloud"));
    assert!(!is_cloud_placeholder("Book.pdf.icloud"));
    assert!(!is_cloud_placeholder(".Book.pdf"));
    assert!(!is_cloud_placeholder(""));
    assert!(!is_cloud_placeholder(".iclou"));
}

#[test]
fn documents_have_the_extension_pdf_in_any_case() {
    assert!(has_pdf_extension(&some("pdf")));
    assert!(has_pdf_extension(&some("PDF")));
    assert!(has_pdf_extension(&some("pDf")));
    assert!(!has_pdf_extension(&some("pdfx")));
    assert!(!has_pdf_extension(&some("pd")));
    assert!(!has_pdf_extension(&some("txt")));
    assert!(!has_pdf_extension(&some("")));
    assert!(!has_pdf_extension(&None));
    assert!(!has_pdf_extension(&some("\u{50}\u{64}\u{46}x")));
}

#[test]
fn a_change_concerns_documents_when_one_of_its_files_is_a_document() {
    assert!(concerns_documents(&vec![some("txt"), None, some("Pdf")]));
    assert!(!concerns_documents(&vec![some("txt"), None]));
    assert!(!concerns_documents(&vec![]));
}

#[test]
fn titles_are_ordered_without_regard_to_case() {
    assert!(is_title_before("apple", "Banana"));
    assert!(is_title_before("Apple", "banana"));
    assert!(!is_title_before("banana", "Apple"));
    assert!(!is_title_before("Apple", "apple"));
    assert!(!is_title_before("apple", "Apple"));
    assert!(is_title_before("a", "ab"));
    assert!(is_title_before("Zebra", "Éclair"));
}

#[test]
fn a_new_name_is_trimmed_and_given_the_extension() {
    assert_eq!(checked_filename("  My Book  "), Ok("My Book.pdf".to_string()));
    assert_eq!(checked_filename("My Book.pdf"), Ok("My Book.pdf".to_string()));
    assert_eq!(checked_filename("My Book.PDF\n"), Ok("My Book.PDF".to_string()));
    assert_eq!(checked_filename("notes.txt"), Ok("notes.txt.pdf".to_string()));
    assert_eq!(checked_filename(".pdf"), Ok(".pdf".to_string()));
    assert_eq!(checked_filename("书"), Ok("书.pdf".to_string()));
    assert_eq!(checked_filename("a b"), Ok("a b.pdf".to_string()));
}

#[test]
fn a_blank_name_is_refused() {
    assert_eq!(checked_filename(""), Err(FilenameError::Empty));
    assert_eq!(checked_filename(" \t\u{3000}"), Err(FilenameError::Empty));
}

#[test]
fn a_name_with_a_separator_is_refused() {
    assert_eq!(checked_filename("a/b"), Err(FilenameError::InvalidSeparator));
    assert_eq!(checked_filename("a\\b.pdf"), Err(FilenameError::InvalidSeparator));
    assert_eq!(checked_filename(" /"), Err(FilenameError::InvalidSeparator));
}

#[test]
fn white_space_is_taken_from_both_ends_only() {
    assert_eq!(string_of(&trim("  a b \n")), "a b");
    assert_eq!(string_of(&trim("a")), "a");
    assert_eq!(string_of(&trim(" \t ")), "");
    assert_eq!(string_of(&trim("")), "");
}

#[test]
fn parts_of_a_text_are_found_where_they_stand() {
    let text: Vec<char> = "reader-abc".chars().collect();
    let reader: Vec<char> = "reader-".chars().collect();
    let abc: Vec<char> = "abc".chars().collect();
    let long: Vec<char> = "reader-abcd".chars().collect();
    assert!(starts_with(&text, &reader));
    assert!(!starts_with(&text, &abc));
    assert!(!starts_with(&text, &long));
    assert!(starts_with(&text, &vec![]));
    assert!(ends_with(&text, &abc));
    assert!(!ends_with(&text, &reader));
    assert!(!ends_with(&text, &long));
    assert!(ends_with(&text, &vec![]));
    assert!(matches_at(&text, 7, &abc));
    assert!(!matches_at(&text, 8, &abc));
    assert!(matches_at(&text, 10, &vec![]));
}
