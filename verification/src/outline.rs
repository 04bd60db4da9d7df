//! The outline of a document: the tree of its bookmarks, made from the
//! entries that a parser found in the document.

use crate::pdf_info::text_from_utf8;
use crate::text::bytes_of;
use vstd::prelude::*;
use vstd::utf8::{decode_utf8, valid_utf8};

verus! {

/// How deep an outline may go. Entries below that depth are left out.
pub const MAX_OUTLINE_DEPTH: u32 = 32;

/// The number by which a document refers to one of its objects, and the
/// generation of the object.
pub type ObjectId = (u32, u16);

/// One entry of a document's outline as it stands in the document.
#[derive(Debug, PartialEq)]
pub struct OutlineNode {
    /// The object that holds the entry.
    pub id: ObjectId,
    /// The bytes of the entry's title, where it has one that is a string.
    pub title: Option<Vec<u8>>,
    /// The page object that the entry points to, where it points to one.
    pub dest: Option<ObjectId>,
    /// The first of the entries below this one, where there is one.
    pub first: Option<ObjectId>,
    /// The entry that follows this one on the same level, where there is
    /// one.
    pub next: Option<ObjectId>,
}

/// The mathematical value of a [`Node`].
pub ghost struct NodeView {
    pub id: ObjectId,
    pub title: Option<Seq<u8>>,
    pub dest: Option<ObjectId>,
    pub first: Option<ObjectId>,
    pub next: Option<ObjectId>,
}

impl View for OutlineNode {
    type V = NodeView;

    open spec fn view(&self) -> NodeView {
        NodeView {
            id: self.id,
            title: bytes_of(self.title),
            dest: self.dest,
            first: self.first,
            next: self.next,
        }
    }
}

/// One bookmark: its title, the number of the page it leads to, and the
/// bookmarks below it.
#[derive(Debug, PartialEq)]
pub struct OutlineItem {
    pub title: String,
    pub page: u32,
    pub children: Vec<OutlineItem>,
}

/// The mathematical value of an [`OutlineItem`].
pub ghost struct ItemView {
    pub title: Seq<char>,
    pub page: u32,
    pub children: Seq<ItemView>,
}

/// The value of a bookmark.
pub open spec fn item_view(item: OutlineItem) -> ItemView
    decreases item,
{
    ItemView { title: item.title@, page: item.page, children: item_views(item.children@) }
}

/// The values of bookmarks.
pub open spec fn item_views(items: Seq<OutlineItem>) -> Seq<ItemView>
    decreases items,
{
    if items.len() == 0 {
        Seq::empty()
    } else {
        item_views(items.drop_last()).push(item_view(items.last()))
    }
}

/// The first of `nodes` that is held by the object `id`.
pub open spec fn node_of(nodes: Seq<OutlineNode>, id: ObjectId) -> Option<NodeView>
    decreases nodes.len(),
{
    if nodes.len() == 0 {
        None
    } else if nodes[0].id == id {
        Some(nodes[0]@)
    } else {
        node_of(nodes.drop_first(), id)
    }
}

/// The place of the first of `pages[from..]` that is `page`, counted from
/// one at the beginning of `pages`, or one where none is.
pub open spec fn place_from(pages: Seq<ObjectId>, page: ObjectId, from: int) -> int
    decreases pages.len() - from,
{
    if from < 0 || from >= pages.len() {
        1
    } else if pages[from] == page {
        from + 1
    } else {
        place_from(pages, page, from + 1)
    }
}

/// The place of the first of `pages` that is `page`, counted from one, or one
/// where none is.
pub open spec fn page_number(pages: Seq<ObjectId>, page: ObjectId) -> int {
    place_from(pages, page, 0)
}

/// The number of the page that a bookmark leads to: that of the page it
/// points to among `pages`, the pages of the document in their order, and
/// the first page where it points to none of them. A number too great for
/// 32 bits is held at the greatest.
pub open spec fn page_of(pages: Seq<ObjectId>, dest: Option<ObjectId>) -> u32 {
    match dest {
        Some(page) => if page_number(pages, page) > u32::MAX {
            u32::MAX
        } else {
            page_number(pages, page) as u32
        },
        None => 1,
    }
}

/// The title of a bookmark: the text that its title bytes encode in UTF-8,
/// and the empty text where there are none or they encode no text.
pub open spec fn title_of(title: Option<Seq<u8>>) -> Seq<char> {
    match title {
        Some(bytes) => if valid_utf8(bytes) {
            decode_utf8(bytes)
        } else {
            Seq::empty()
        },
        None => Seq::empty(),
    }
}

/// The bookmarks of one level: the entry held by `start`, then the entries
/// that follow it, each with the bookmarks below it. The level ends at an
/// entry that is not among `nodes`, and after `budget` entries at the
/// latest; below the greatest depth there is nothing.
pub open spec fn outline_level(
    nodes: Seq<OutlineNode>,
    pages: Seq<ObjectId>,
    start: Option<ObjectId>,
    depth: nat,
    budget: nat,
) -> Seq<ItemView>
    decreases MAX_OUTLINE_DEPTH + 1 - depth, budget,
{
    if depth > MAX_OUTLINE_DEPTH || budget == 0 {
        Seq::empty()
    } else {
        match start {
            None => Seq::empty(),
            Some(id) => match node_of(nodes, id) {
                None => Seq::empty(),
                Some(node) => seq![
                    ItemView {
                        title: title_of(node.title),
                        page: page_of(pages, node.dest),
                        children: outline_level(nodes, pages, node.first, depth + 1, nodes.len()),
                    },
                ] + outline_level(nodes, pages, node.next, depth, (budget - 1) as nat),
            },
        }
    }
}

/// The outline of a document whose outline entries are `nodes` and whose
/// first entry on the top level is held by `first`. A level holds no more
/// bookmarks than there are entries, so that entries which follow one
/// another in a circle do not go on for ever.
pub open spec fn outline_of(nodes: Seq<OutlineNode>, pages: Seq<ObjectId>, first: ObjectId) -> Seq<
    ItemView,
> {
    outline_level(nodes, pages, Some(first), 0, nodes.len())
}

fn find_node(nodes: &Vec<OutlineNode>, id: ObjectId) -> (found: Option<&OutlineNode>)
    ensures
        match found {
            Some(node) => node_of(nodes@, id) == Some(node@),
            None => node_of(nodes@, id) is None,
        },
{
    let mut i: usize = 0;
    assert(nodes@.skip(0) =~= nodes@);
    while i < nodes.len()
        invariant
            i <= nodes.len(),
            node_of(nodes@, id) == node_of(nodes@.skip(i as int), id),
        decreases nodes.len() - i,
    {
        let node = &nodes[i];
        if node.id.0 == id.0 && node.id.1 == id.1 {
            return Some(node);
        }
        assert(nodes@.skip(i as int).drop_first() =~= nodes@.skip(i + 1));
        i = i + 1;
    }
    None
}

/// The number of the page `page` among `pages`, the pages of a document in
/// their order: its place counted from one, and one where it is not among
/// them.
pub fn find_page_number(pages: &Vec<ObjectId>, page: ObjectId) -> (number: u32)
    ensures
        number == page_of(pages@, Some(page)),
{
    let mut i: usize = 0;
    while i < pages.len()
        invariant
            i <= pages.len(),
            place_from(pages@, page, 0) == place_from(pages@, page, i as int),
        decreases pages.len() - i,
    {
        if pages[i].0 == page.0 && pages[i].1 == page.1 {
            return if i >= 0xffff_ffff {
                u32::MAX
            } else {
                (i + 1) as u32
            };
        }
        i = i + 1;
    }
    1
}

fn title_text(title: &Option<Vec<u8>>) -> (text: String)
    ensures
        text@ == title_of(bytes_of(*title)),
{
    match title {
        Some(bytes) => match text_from_utf8(bytes.clone()) {
            Some(text) => {
                proof {
                    vstd::utf8::encode_utf8_decode_utf8(text@);
                }
                text
            },
            None => String::new(),
        },
        None => String::new(),
    }
}

fn level(nodes: &Vec<OutlineNode>, pages: &Vec<ObjectId>, start: Option<ObjectId>, depth: u32) -> (items:
    Vec<OutlineItem>)
    requires
        depth <= MAX_OUTLINE_DEPTH + 1,
    ensures
        item_views(items@) == outline_level(
            nodes@,
            pages@,
            start,
            depth as nat,
            nodes.len() as nat,
        ),
    decreases MAX_OUTLINE_DEPTH + 1 - depth,
{
    let mut items: Vec<OutlineItem> = Vec::new();
    if depth > MAX_OUTLINE_DEPTH {
        return items;
    }
    let mut current = start;
    let mut budget: usize = nodes.len();
    assert(item_views(items@) + outline_level(
        nodes@,
        pages@,
        current,
        depth as nat,
        budget as nat,
    ) =~= outline_level(nodes@, pages@, start, depth as nat, nodes.len() as nat));
    while budget > 0 && current.is_some()
        invariant
            depth <= MAX_OUTLINE_DEPTH,
            budget <= nodes.len(),
            outline_level(nodes@, pages@, start, depth as nat, nodes.len() as nat) == item_views(
                items@,
            ) + outline_level(nodes@, pages@, current, depth as nat, budget as nat),
        decreases budget,
    {
        let id = current.unwrap();
        match find_node(nodes, id) {
            None => {
                current = None;
                budget = budget - 1;
            },
            Some(node) => {
                let children = match node.first {
                    Some(first) => level(nodes, pages, Some(first), depth + 1),
                    None => Vec::new(),
                };
                let page = match node.dest {
                    Some(page) => find_page_number(pages, page),
                    None => 1,
                };
                let item = OutlineItem { title: title_text(&node.title), page, children };
                let ghost before = items@;
                let ghost rest = outline_level(
                    nodes@,
                    pages@,
                    node.next,
                    depth as nat,
                    (budget - 1) as nat,
                );
                proof {
                    assert(item_views(item.children@) == outline_level(
                        nodes@,
                        pages@,
                        node.first,
                        (depth + 1) as nat,
                        nodes.len() as nat,
                    ));
                    assert(before.push(item).drop_last() =~= before);
                    assert(item_views(before.push(item)) == item_views(before).push(
                        item_view(item),
                    ));
                    assert(item_views(before) + (seq![item_view(item)] + rest) =~= item_views(
                        before,
                    ).push(item_view(item)) + rest);
                }
                items.push(item);
                current = node.next;
                budget = budget - 1;
            },
        }
    }
    proof {
        assert(outline_level(nodes@, pages@, current, depth as nat, budget as nat)
            =~= Seq::<ItemView>::empty());
        assert(item_views(items@) + Seq::<ItemView>::empty() =~= item_views(items@));
    }
    items
}

/// The outline of a document whose outline entries are `nodes`, whose pages
/// in their order are `pages`, and whose first entry on the top level is held
/// by `first`. A document without such an entry has the empty outline.
pub fn extract_outline(nodes: &Vec<OutlineNode>, pages: &Vec<ObjectId>, first: Option<ObjectId>) -> (items:
    Vec<OutlineItem>)
    ensures
        item_views(items@) == match first {
            Some(first) => outline_of(nodes@, pages@, first),
            None => Seq::empty(),
        },
{
    match first {
        Some(first) => level(nodes, pages, Some(first), 0),
        None => {
            let items: Vec<OutlineItem> = Vec::new();
            assert(item_views(items@) =~= Seq::<ItemView>::empty());
            items
        },
    }
}

} // verus!
