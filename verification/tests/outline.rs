use pdf_reader::outline::{extract_outline, find_page_number, OutlineItem, OutlineNode};

fn node(
    id: u32,
    title: Option<&str>,
    dest: Option<u32>,
    first: Option<u32>,
    next: Option<u32>,
) -> OutlineNode {
    OutlineNode {
        id: (id, 0),
        title: title.map(|t| t.as_bytes().to_vec()),
        dest: dest.map(|d| (d, 0)),
        first: first.map(|f| (f, 0)),
        next: next.map(|n| (n, 0)),
    }
}

fn item(title: &str, page: u32, children: Vec<OutlineItem>) -> OutlineItem {
    OutlineItem { title: title.to_string(), page, children }
}

fn pages() -> Vec<(u32, u16)> {
    vec![(100, 0), (101, 0), (102, 0)]
}

#[test]
fn a_page_is_numbered_by_its_place_among_the_pages() {
    assert_eq!(find_page_number(&pages(), (100, 0)), 1);
    assert_eq!(find_page_number(&pages(), (102, 0)), 3);
    assert_eq!(find_page_number(&pages(), (102, 1)), 1);
    assert_eq!(find_page_number(&pages(), (7, 0)), 1);
    assert_eq!(find_page_number(&vec![], (7, 0)), 1);
    assert_eq!(find_page_number(&vec![(5, 0), (6, 0), (5, 0)], (5, 0)), 1);
}

#[test]
fn the_outline_follows_the_entries_level_by_level() {
    let nodes = vec![
        node(1, Some("Part One"), Some(100), Some(3), Some(2)),
        node(2, Some("Part Two"), Some(102), None, None),
        node(3, Some("Chapter 1"), Some(101), None, Some(4)),
        node(4, Some("Chapter 2"), None, None, None),
    ];
    assert_eq!(
        extract_outline(&nodes, &pages(), Some((1, 0))),
        vec![
            item("Part One", 1, vec![item("Chapter 1", 2, vec![]), item("Chapter 2", 1, vec![])]),
            item("Part Two", 3, vec![]),
        ]
    );
}

#[test]
fn a_document_without_entries_has_the_empty_outline() {
    assert_eq!(extract_outline(&vec![], &pages(), None), vec![]);
    assert_eq!(extract_outline(&vec![], &pages(), Some((1, 0))), vec![]);
    let nodes = vec![node(1, Some("A"), None, None, None)];
    assert_eq!(extract_outline(&nodes, &pages(), None), vec![]);
    assert_eq!(extract_outline(&nodes, &pages(), Some((9, 0))), vec![]);
}

#[test]
fn a_title_that_is_no_text_is_left_empty() {
    let mut bad = node(1, None, Some(101), None, Some(2));
    bad.title = Some(vec![0xff, 0xfe]);
    let nodes = vec![bad, node(2, None, Some(999), None, None)];
    assert_eq!(
        extract_outline(&nodes, &pages(), Some((1, 0))),
        vec![item("", 2, vec![]), item("", 1, vec![])]
    );
}

#[test]
fn a_level_ends_at_an_entry_that_is_missing() {
    let nodes = vec![node(1, Some("A"), None, Some(7), Some(8)), node(9, Some("B"), None, None, None)];
    assert_eq!(extract_outline(&nodes, &pages(), Some((1, 0))), vec![item("A", 1, vec![])]);
}

#[test]
fn entries_in_a_circle_do_not_go_on_for_ever() {
    let nodes = vec![
        node(1, Some("A"), None, None, Some(2)),
        node(2, Some("B"), None, None, Some(1)),
    ];
    assert_eq!(
        extract_outline(&nodes, &pages(), Some((1, 0))),
        vec![item("A", 1, vec![]), item("B", 1, vec![])]
    );
}

#[test]
fn the_outline_goes_no_deeper_than_the_limit() {
    let nodes = vec![node(1, Some("A"), None, Some(1), None)];
    let outline = extract_outline(&nodes, &pages(), Some((1, 0)));
    let mut depth = 0;
    let mut level = &outline;
    while let Some(first) = level.first() {
        assert_eq!(level.len(), 1);
        assert_eq!(first.title, "A");
        depth += 1;
        level = &first.children;
    }
    assert_eq!(depth, 33);
}
