//! The listing of a directory: the order of its entries, their links, and the
//! index page that shows them.

use std::cmp::Ordering;
use itertools::Itertools;
use vstd::prelude::*;
use vstd::relations::*;
use vstd::seq_lib::*;
use vstd::string::*;
use vstd::utf8::*;
use crate::breadcrumbs::{breadcrumbs, breadcrumbs_html};
use crate::classify::{is_text_file, output_name, published_name, text_file};
use crate::page::{filled_listing, filled_page, listing_html, page_html, TemplateTexts, Templates};
use crate::text::{lemma_rooted_path_push, rooted_path, rooted_path_from, texts};
use crate::tree::{entries_view, Entry, Node, Tree};

verus! {

/// What a listing shows of a child: its kind and its name.
#[derive(Debug, PartialEq, Eq)]
pub struct ListingEntry {
    pub is_dir: bool,
    pub name: String,
}

/// A `ListingEntry` with the text of its name.
pub struct ListingKey {
    pub is_dir: bool,
    pub name: Seq<char>,
}

impl View for ListingEntry {
    type V = ListingKey;

    open spec fn view(&self) -> ListingKey {
        ListingKey { is_dir: self.is_dir, name: self.name@ }
    }
}

/// The keys of a vector of entries.
pub open spec fn keys(entries: Seq<ListingEntry>) -> Seq<ListingKey> {
    Seq::new(entries.len(), |i: int| entries[i]@)
}

/// The keys of a directory's children, in the children's order.
pub open spec fn child_keys(children: Seq<(Seq<char>, Tree)>) -> Seq<ListingKey> {
    Seq::new(
        children.len(),
        |i: int| ListingKey { is_dir: children[i].1 is Directory, name: children[i].0 },
    )
}

/// Byte strings in dictionary order.
pub open spec fn bytes_le(a: Seq<u8>, b: Seq<u8>) -> bool
    decreases a.len(),
{
    if a.len() == 0 {
        true
    } else if b.len() == 0 {
        false
    } else if a[0] != b[0] {
        a[0] < b[0]
    } else {
        bytes_le(a.drop_first(), b.drop_first())
    }
}

/// Names in the order of strings: by the bytes of their UTF-8 form.
pub open spec fn name_le(a: Seq<char>, b: Seq<char>) -> bool {
    bytes_le(encode_utf8(a), encode_utf8(b))
}

/// The order of a listing: directories before files, and by name within each
/// kind.
pub open spec fn listed_le(a: ListingKey, b: ListingKey) -> bool {
    if a.is_dir != b.is_dir {
        a.is_dir
    } else {
        name_le(a.name, b.name)
    }
}

/// `listed_le` as a relation.
pub open spec fn listing_order() -> spec_fn(ListingKey, ListingKey) -> bool {
    |a: ListingKey, b: ListingKey| listed_le(a, b)
}

/// The children of a directory in the order in which its listing shows them.
pub open spec fn listed(children: Seq<ListingKey>) -> Seq<ListingKey> {
    children.sort_by(listing_order())
}

/// The CSS class of a listing item.
pub open spec fn listing_class(key: ListingKey) -> Seq<char> {
    if key.is_dir {
        "directory-listing"@
    } else if text_file(key.name) {
        "text-file-listing"@
    } else {
        "file-listing"@
    }
}

/// The last segment of the link to a child: a directory's own name, a file's
/// published name.
pub open spec fn link_name(key: ListingKey) -> Seq<char> {
    if key.is_dir {
        key.name
    } else {
        published_name(key.name)
    }
}

/// The link to a child from the listing of the directory whose trail is
/// `trail`: the names below the root, then the child's link name.
pub open spec fn listing_href(trail: Seq<Seq<char>>, key: ListingKey) -> Seq<char> {
    rooted_path(trail.skip(1).push(link_name(key)))
}

/// One item of a listing.
pub open spec fn listing_item(trail: Seq<Seq<char>>, key: ListingKey) -> Seq<char> {
    "<li class=\""@ + listing_class(key) + "\"><a href=\""@ + listing_href(trail, key) + "\">"@
        + key.name + "</a></li>"@
}

/// The items of a listing, one after another.
pub open spec fn listing_items(trail: Seq<Seq<char>>, entries: Seq<ListingKey>) -> Seq<char>
    decreases entries.len(),
{
    if entries.len() == 0 {
        Seq::empty()
    } else {
        listing_items(trail, entries.drop_last()) + listing_item(trail, entries.last())
    }
}

/// The index page of a directory: its children in listing order, set into the
/// listing template under the directory's name, and that into the outer page
/// under the directory's trail.
pub open spec fn directory_page(
    name: Seq<char>,
    trail: Seq<Seq<char>>,
    children: Seq<ListingKey>,
    templates: TemplateTexts,
) -> Seq<char> {
    filled_page(
        templates.page,
        breadcrumbs(trail),
        filled_listing(templates.listing, listing_items(trail, listed(children)), name),
    )
}

/// Every byte string stands before or at itself.
pub proof fn lemma_bytes_le_reflexive(a: Seq<u8>)
    ensures
        bytes_le(a, a),
    decreases a.len(),
{
    if a.len() > 0 {
        lemma_bytes_le_reflexive(a.drop_first());
    }
}

/// Two byte strings that stand before or at each other are one string.
pub proof fn lemma_bytes_le_antisymmetric(a: Seq<u8>, b: Seq<u8>)
    requires
        bytes_le(a, b),
        bytes_le(b, a),
    ensures
        a == b,
    decreases a.len(),
{
    if a.len() == 0 || b.len() == 0 {
        assert(a =~= b);
    } else {
        lemma_bytes_le_antisymmetric(a.drop_first(), b.drop_first());
        assert(a =~= seq![a[0]] + a.drop_first());
        assert(b =~= seq![b[0]] + b.drop_first());
    }
}

/// Dictionary order carries over a string in between.
pub proof fn lemma_bytes_le_transitive(a: Seq<u8>, b: Seq<u8>, c: Seq<u8>)
    requires
        bytes_le(a, b),
        bytes_le(b, c),
    ensures
        bytes_le(a, c),
    decreases a.len(),
{
    if a.len() > 0 && b.len() > 0 && c.len() > 0 && a[0] == b[0] && b[0] == c[0] {
        lemma_bytes_le_transitive(a.drop_first(), b.drop_first(), c.drop_first());
    }
}

/// Of two byte strings, one stands before or at the other.
pub proof fn lemma_bytes_le_total(a: Seq<u8>, b: Seq<u8>)
    ensures
        bytes_le(a, b) || bytes_le(b, a),
    decreases a.len(),
{
    if a.len() > 0 && b.len() > 0 && a[0] == b[0] {
        lemma_bytes_le_total(a.drop_first(), b.drop_first());
    }
}

/// The order of a listing is a total order on kinds and names.
pub proof fn lemma_listing_order_total()
    ensures
        total_ordering(listing_order()),
{
    let r = listing_order();
    assert forall|x: ListingKey| #[trigger] r(x, x) by {
        lemma_bytes_le_reflexive(encode_utf8(x.name));
    }
    assert forall|x: ListingKey, y: ListingKey| #[trigger] r(x, y) && #[trigger] r(y, x) implies x
        == y by {
        lemma_bytes_le_antisymmetric(encode_utf8(x.name), encode_utf8(y.name));
        encode_utf8_decode_utf8(x.name);
        encode_utf8_decode_utf8(y.name);
    }
    assert forall|x: ListingKey, y: ListingKey, z: ListingKey| #[trigger]
        r(x, y) && #[trigger] r(y, z) implies r(x, z) by {
        if x.is_dir == y.is_dir && y.is_dir == z.is_dir {
            lemma_bytes_le_transitive(
                encode_utf8(x.name),
                encode_utf8(y.name),
                encode_utf8(z.name),
            );
        }
    }
    assert forall|x: ListingKey, y: ListingKey| #[trigger] r(x, y) || #[trigger] r(y, x) by {
        lemma_bytes_le_total(encode_utf8(x.name), encode_utf8(y.name));
    }
}

/// A listing shows every child once, directories before files, and the
/// entries of each kind in the order of their names.
pub proof fn lemma_listing_is_ordered(children: Seq<ListingKey>)
    ensures
        listed(children).to_multiset() == children.to_multiset(),
        listed(children).len() == children.len(),
        forall|i: int, j: int|
            0 <= i < j < listed(children).len() ==> {
                let a = #[trigger] listed(children)[i];
                let b = #[trigger] listed(children)[j];
                &&& (b.is_dir ==> a.is_dir)
                &&& (a.is_dir == b.is_dir ==> name_le(a.name, b.name))
            },
{
    lemma_listing_order_total();
    children.lemma_sort_by_ensures(listing_order());
    children.to_multiset_ensures();
    listed(children).to_multiset_ensures();
    assert forall|i: int, j: int| 0 <= i < j < listed(children).len() implies {
        let a = #[trigger] listed(children)[i];
        let b = #[trigger] listed(children)[j];
        &&& (b.is_dir ==> a.is_dir)
        &&& (a.is_dir == b.is_dir ==> name_le(a.name, b.name))
    } by {
        assert(listing_order()(listed(children)[i], listed(children)[j]));
    }
}

/// Whether `a` comes before `b` in the order of strings, or is `b`.
pub fn name_precedes(a: &str, b: &str) -> (r: bool)
    ensures
        r == name_le(a@, b@),
{
    let x = a.as_bytes();
    let y = b.as_bytes();
    let mut i: usize = 0;
    assert(x@.skip(0) =~= x@ && y@.skip(0) =~= y@);
    while i < x.len() && i < y.len()
        invariant
            i <= x.len(),
            i <= y.len(),
            x@ == encode_utf8(a@),
            y@ == encode_utf8(b@),
            bytes_le(x@, y@) == bytes_le(x@.skip(i as int), y@.skip(i as int)),
        decreases x.len() - i,
    {
        assert(x@.skip(i as int).len() > 0 && y@.skip(i as int).len() > 0);
        assert(x@.skip(i as int)[0] == x@[i as int]);
        assert(y@.skip(i as int)[0] == y@[i as int]);
        if x[i] != y[i] {
            return x[i] < y[i];
        }
        assert(x@.skip(i as int).drop_first() =~= x@.skip(i + 1));
        assert(y@.skip(i as int).drop_first() =~= y@.skip(i + 1));
        i = i + 1;
    }
    i == x.len()
}

/// Whether `a` stands before `b` in a listing, or is `b`.
pub fn listed_before(a: &ListingEntry, b: &ListingEntry) -> (r: bool)
    ensures
        r == listed_le(a@, b@),
{
    if a.is_dir != b.is_dir {
        a.is_dir
    } else {
        name_precedes(a.name.as_str(), b.name.as_str())
    }
}

/// The order of two entries in a listing, as sorting wants it.
pub fn listing_ordering(a: &ListingEntry, b: &ListingEntry) -> (o: Ordering)
    ensures
        (o == Ordering::Less) == (listed_le(a@, b@) && !listed_le(b@, a@)),
        (o == Ordering::Equal) == (listed_le(a@, b@) && listed_le(b@, a@)),
        (o == Ordering::Greater) == !listed_le(a@, b@),
{
    let forth = listed_before(a, b);
    let back = listed_before(b, a);
    if forth && back {
        Ordering::Equal
    } else if forth {
        Ordering::Less
    } else {
        Ordering::Greater
    }
}

/// Calls `itertools::Itertools::sorted_by` with `listing_ordering`, which
/// sorts with the slice's stable sort. What comes out holds the kinds and
/// names that went in, each as often, and stands in listing order.
#[verifier::external_body]
fn sorted_entries(entries: Vec<ListingEntry>) -> (sorted: Vec<ListingEntry>)
    ensures
        keys(sorted@).to_multiset() == keys(entries@).to_multiset(),
        sorted_by(keys(sorted@), listing_order()),
{
    entries.into_iter().sorted_by(|a, b| listing_ordering(a, b)).collect()
}

/// Puts entries into listing order.
pub fn sort_listing(entries: Vec<ListingEntry>) -> (sorted: Vec<ListingEntry>)
    ensures
        keys(sorted@) == listed(keys(entries@)),
{
    let ghost before = keys(entries@);
    let sorted = sorted_entries(entries);
    proof {
        lemma_listing_order_total();
        before.lemma_sort_by_ensures(listing_order());
        lemma_sorted_unique(keys(sorted@), listed(before), listing_order());
    }
    sorted
}

/// What a listing shows of each child of a directory, in the children's
/// order.
pub fn listing_entries(children: &Vec<Entry>) -> (entries: Vec<ListingEntry>)
    ensures
        keys(entries@) == child_keys(entries_view(children@)),
{
    let mut entries: Vec<ListingEntry> = Vec::new();
    let mut i: usize = 0;
    while i < children.len()
        invariant
            i <= children.len(),
            entries.len() == i,
            forall|k: int|
                0 <= k < i ==> (#[trigger] entries@[k])@ == child_keys(
                    entries_view(children@),
                )[k],
        decreases children.len() - i,
    {
        let is_dir = match &children[i].node {
            Node::Directory { .. } => true,
            Node::File { .. } => false,
        };
        let entry = ListingEntry { is_dir, name: children[i].name.clone() };
        proof {
            let child = children@[i as int].node;
            match child {
                Node::Directory { children: below } => {
                    crate::tree::lemma_directory_view(below);
                },
                Node::File { .. } => {},
            }
            assert(entry@ == child_keys(entries_view(children@))[i as int]);
        }
        entries.push(entry);
        i = i + 1;
    }
    assert(keys(entries@) =~= child_keys(entries_view(children@)));
    entries
}

/// The items of a listing, for the directory whose trail is `breadcrumbs`.
pub fn listing_items_html(breadcrumbs: &Vec<String>, entries: &Vec<ListingEntry>) -> (html: String)
    requires
        breadcrumbs.len() >= 1,
    ensures
        html@ == listing_items(texts(breadcrumbs@), keys(entries@)),
{
    let ghost trail = texts(breadcrumbs@);
    let ghost all = keys(entries@);
    let base = rooted_path_from(breadcrumbs, 1);
    let mut html = String::new();
    let mut i: usize = 0;
    assert(all.take(0) =~= Seq::<ListingKey>::empty());
    while i < entries.len()
        invariant
            trail == texts(breadcrumbs@),
            all == keys(entries@),
            i <= entries.len(),
            base@ == rooted_path(trail.skip(1)),
            html@ == listing_items(trail, all.take(i as int)),
        decreases entries.len() - i,
    {
        let entry = &entries[i];
        let ghost key = entry@;
        let ghost before = html@;
        let name = entry.name.as_str();
        html.append("<li class=\"");
        if entry.is_dir {
            html.append("directory-listing");
        } else if is_text_file(name) {
            html.append("text-file-listing");
        } else {
            html.append("file-listing");
        }
        html.append("\"><a href=\"");
        html.append(base.as_str());
        html.append("/");
        if entry.is_dir {
            html.append(name);
        } else {
            let link = output_name(name);
            html.append(link.as_str());
        }
        html.append("\">");
        html.append(name);
        html.append("</a></li>");
        proof {
            lemma_rooted_path_push(trail.skip(1), link_name(key));
            assert(all.take(i + 1).drop_last() =~= all.take(i as int));
            assert(all.take(i + 1).last() == key);
            assert(html@ =~= before + listing_item(trail, key));
        }
        i = i + 1;
    }
    assert(all.take(i as int) =~= all);
    html
}

/// Renders the index page of a directory: its name, its trail, and its
/// children in listing order.
pub fn render_dir_index(
    name: &str,
    breadcrumbs: &Vec<String>,
    children: &Vec<Entry>,
    templates: &Templates,
) -> (html: String)
    requires
        breadcrumbs.len() >= 1,
    ensures
        html@ == directory_page(
            name@,
            texts(breadcrumbs@),
            child_keys(entries_view(children@)),
            templates@,
        ),
{
    let entries = sort_listing(listing_entries(children));
    let items = listing_items_html(breadcrumbs, &entries);
    let listing = listing_html(templates.listing.as_str(), items.as_str(), name);
    let trail = breadcrumbs_html(breadcrumbs);
    page_html(templates.page.as_str(), trail.as_str(), listing.as_str())
}

} // verus!
