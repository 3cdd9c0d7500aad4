//! The boundary to the `select` crate, which parses HTML and walks the tree.
//!
//! A parsed page is kept as an opaque `Document`. What it holds is spoken of
//! as a sequence of nodes, and a node is addressed by its index in that
//! sequence. Nothing in this file is proved: each function states what the
//! `select` call in its body returns, for documents that the parser built.
//! No public function of the library takes or returns a `Document`.

use select::document::Document;
use select::predicate::{Class, Name, Predicate};
use vstd::prelude::*;
use vstd::utf8::encode_utf8;

verus! {

#[verifier::external_type_specification]
#[verifier::external_body]
pub struct ExDocument(select::document::Document);

/// What a node is: text, an element with its name and attributes (each a
/// name and a value), or a comment. Names are local names.
pub enum DataView {
    Text(Seq<char>),
    Element(Seq<char>, Seq<(Seq<char>, Seq<char>)>),
    Comment(Seq<char>),
}

/// What a document holds for one node: the node's index, the indices of its
/// neighbours in the tree, and what the node is.
pub struct NodeView {
    pub index: usize,
    pub parent: Option<usize>,
    pub prev: Option<usize>,
    pub next: Option<usize>,
    pub first_child: Option<usize>,
    pub last_child: Option<usize>,
    pub data: DataView,
}

/// The nodes that a document holds, in the order of its field `nodes`. The
/// library's code reads none of them itself: it asks `select`, and what comes
/// back depends on the nodes alone.
pub uninterp spec fn nodes(doc: Document) -> Seq<NodeView>;

/// The nodes of the document that `Document::from` builds from a page's
/// text.
pub uninterp spec fn parsed(html: Seq<char>) -> Seq<NodeView>;

/// The nodes that `Document::find` yields, in document order, for the
/// predicate "an element named `inner` with an ancestor named `outer`".
pub uninterp spec fn nested(tree: Seq<NodeView>, outer: Seq<char>, inner: Seq<char>) -> Seq<usize>;

/// As `nested`, where the element must also have an ancestor whose `class`
/// attribute lists `class`.
pub uninterp spec fn nested_under_class(
    tree: Seq<NodeView>,
    class: Seq<char>,
    outer: Seq<char>,
    inner: Seq<char>,
) -> Seq<usize>;

/// The text of a node and of everything below it, as `Node::text` joins it.
pub uninterp spec fn text_of(tree: Seq<NodeView>, node: usize) -> Seq<char>;

/// The children of a node, first to last, as `Node::children` walks them.
pub uninterp spec fn children_of(tree: Seq<NodeView>, node: usize) -> Seq<usize>;

/// The elements named `name` below a node, in document order, as
/// `Node::find` yields them.
pub uninterp spec fn named_below(tree: Seq<NodeView>, node: usize, name: Seq<char>) -> Seq<usize>;

/// The value of the first of the attributes that is named `name`.
pub open spec fn first_value(attrs: Seq<(Seq<char>, Seq<char>)>, name: Seq<char>) -> Option<
    Seq<char>,
>
    decreases attrs.len(),
{
    if attrs.len() == 0 {
        None
    } else if attrs[0].0 == name {
        Some(attrs[0].1)
    } else {
        first_value(attrs.drop_first(), name)
    }
}

/// The value of a node's attribute `name`: that of the first attribute with
/// this name where the node is an element that has one, and none otherwise.
pub open spec fn attr_of(tree: Seq<NodeView>, node: usize, name: Seq<char>) -> Option<Seq<char>> {
    match tree[node as int].data {
        DataView::Element(_, attrs) => first_value(attrs, name),
        _ => None,
    }
}

/// The greatest number of bytes of a page that is parsed: a quarter of the
/// 2^31 bytes that a string of the parser can hold.
pub const MAX_PAGE_BYTES: usize = 0x2000_0000;

/// A page that is not too long to be parsed.
pub open spec fn fits(html: Seq<char>) -> bool {
    encode_utf8(html).len() <= MAX_PAGE_BYTES
}

/// Nodes that the parser built from some text.
pub open spec fn is_parsed(tree: Seq<NodeView>) -> bool {
    exists|html: Seq<char>| tree == #[trigger] parsed(html)
}

/// `Document::from` on a string slice. The result depends on the text alone.
/// The parser keeps text in strings that cannot grow beyond 2^31 bytes, and
/// fails where one would; the text of a node is at most three times as long
/// as the page, which it is where every byte of the page is a NUL, each of
/// which the parser replaces by a character of three bytes. So the page has
/// to fit.
#[verifier::external_body]
pub(crate) fn parse_document(html: &str) -> (doc: Document)
    requires
        fits(html@),
    ensures
        nodes(doc) == parsed(html@),
{
    Document::from(html)
}

/// `Document::find` with `Name(outer).descendant(Name(inner))`, each node
/// handed out as its index. The iterator walks the indices upwards and builds
/// each node with `Document::nth`, so every index it yields is in range.
#[verifier::external_body]
pub(crate) fn find_nested(doc: &Document, outer: &str, inner: &str) -> (found: Vec<usize>)
    requires
        is_parsed(nodes(*doc)),
    ensures
        found@ == nested(nodes(*doc), outer@, inner@),
        forall|k: int| 0 <= k < found.len() ==> (#[trigger] found[k]) < nodes(*doc).len(),
{
    doc.find(Name(outer).descendant(Name(inner))).map(|node| node.index()).collect()
}

/// `Document::find` with
/// `Class(class).descendant(Name(outer).descendant(Name(inner)))`, each node
/// handed out as its index, all in range as for `find_nested`.
#[verifier::external_body]
pub(crate) fn find_nested_under_class(
    doc: &Document,
    class: &str,
    outer: &str,
    inner: &str,
) -> (found: Vec<usize>)
    requires
        is_parsed(nodes(*doc)),
    ensures
        found@ == nested_under_class(nodes(*doc), class@, outer@, inner@),
        forall|k: int| 0 <= k < found.len() ==> (#[trigger] found[k]) < nodes(*doc).len(),
{
    let rows = Class(class).descendant(Name(outer).descendant(Name(inner)));
    doc.find(rows).map(|node| node.index()).collect()
}

/// `Node::text` on the node with the given index. `Document::nth` returns
/// `None` for an index that is not below the number of nodes.
#[verifier::external_body]
pub(crate) fn node_text(doc: &Document, node: usize) -> (text: String)
    requires
        is_parsed(nodes(*doc)),
        node < nodes(*doc).len(),
    ensures
        text@ == text_of(nodes(*doc), node),
{
    doc.nth(node).unwrap().text()
}

/// `Node::children` on the node with the given index, each child handed out
/// as its index. The iterator follows the links that the parser set, and
/// builds each child with `Document::nth`.
#[verifier::external_body]
pub(crate) fn node_children(doc: &Document, node: usize) -> (children: Vec<usize>)
    requires
        is_parsed(nodes(*doc)),
        node < nodes(*doc).len(),
    ensures
        children@ == children_of(nodes(*doc), node),
        forall|k: int| 0 <= k < children.len() ==> (#[trigger] children[k]) < nodes(*doc).len(),
{
    doc.nth(node).unwrap().children().map(|child| child.index()).collect()
}

/// `Node::find` with `Name(name)` on the node with the given index, each node
/// handed out as its index. The iterator stays among the node's descendants.
#[verifier::external_body]
pub(crate) fn node_find_named(doc: &Document, node: usize, name: &str) -> (found: Vec<usize>)
    requires
        is_parsed(nodes(*doc)),
        node < nodes(*doc).len(),
    ensures
        found@ == named_below(nodes(*doc), node, name@),
        forall|k: int| 0 <= k < found.len() ==> (#[trigger] found[k]) < nodes(*doc).len(),
{
    doc.nth(node).unwrap().find(Name(name)).map(|below| below.index()).collect()
}

/// `Node::attr` on the node with the given index, the value copied out. It
/// looks through an element's attributes in their order for the first whose
/// local name is `name`, and finds none in a node that is no element.
#[verifier::external_body]
pub(crate) fn node_attr(doc: &Document, node: usize, name: &str) -> (value: Option<String>)
    requires
        is_parsed(nodes(*doc)),
        node < nodes(*doc).len(),
    ensures
        value.deep_view() == attr_of(nodes(*doc), node, name@),
{
    doc.nth(node).unwrap().attr(name).map(String::from)
}

} // verus!
