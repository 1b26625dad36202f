//! A parsed XML document as a flat list of nodes in document order, and
//! lookups of child elements by tag name.
use vstd::prelude::*;

use crate::text::str_eq;

verus! {

/// One node of a document: its id, its parent's id (none for the document
/// root), whether it is an element, its local tag name (empty unless an
/// element), and the text that opens an element.
pub struct XmlNode {
    pub id: usize,
    pub parent: Option<usize>,
    pub element: bool,
    pub tag: String,
    pub text: Option<String>,
}

pub ghost struct XmlNodeView {
    pub id: usize,
    pub parent: Option<usize>,
    pub element: bool,
    pub tag: Seq<char>,
    pub text: Option<Seq<char>>,
}

pub open spec fn opt_string_view(s: Option<String>) -> Option<Seq<char>> {
    match s {
        Some(t) => Some(t@),
        None => None,
    }
}

impl View for XmlNode {
    type V = XmlNodeView;

    open spec fn view(&self) -> XmlNodeView {
        XmlNodeView {
            id: self.id,
            parent: self.parent,
            element: self.element,
            tag: self.tag@,
            text: opt_string_view(self.text),
        }
    }
}

pub open spec fn nodes_view(ns: Seq<XmlNode>) -> Seq<XmlNodeView> {
    ns.map_values(|n: XmlNode| n@)
}

/// The nodes of the document that `xml` holds, from the root on in
/// document order; none when `xml` is not well-formed.
pub uninterp spec fn parsed_xml(xml: Seq<char>) -> Option<Seq<XmlNodeView>>;

/// Relies on `roxmltree::Document::parse`, and, for each node that
/// `Document::descendants` yields, on `Node::id`, `Node::parent`,
/// `Node::is_element`, `Node::tag_name` and `Node::text`; a parse error is
/// handed back as its message.
#[verifier::external_body]
pub(crate) fn parse_xml(xml: &str) -> (r: Result<Vec<XmlNode>, String>)
    ensures
        match r {
            Ok(ns) => parsed_xml(xml@) == Some(nodes_view(ns@)),
            Err(_) => parsed_xml(xml@) is None,
        },
{
    roxmltree::Document::parse(xml).map(|doc| doc.descendants().map(|n| XmlNode {
        id: n.id().get_usize(),
        parent: n.parent().map(|p| p.id().get_usize()),
        element: n.is_element(),
        tag: n.tag_name().name().to_string(),
        text: n.text().map(|t| t.to_string()),
    }).collect()).map_err(|e| e.to_string())
}

/// Node `i` is an element named `tag` whose parent is `parent`.
pub open spec fn is_child_tagged(ns: Seq<XmlNodeView>, i: int, parent: usize, tag: Seq<char>) -> bool {
    ns[i].parent == Some(parent) && ns[i].element && ns[i].tag == tag
}

/// The first node from index `k` on that is a child of `parent` named `tag`.
pub open spec fn find_child_from(ns: Seq<XmlNodeView>, parent: usize, tag: Seq<char>, k: int) -> Option<int>
    decreases ns.len() - k,
{
    if 0 <= k < ns.len() {
        if is_child_tagged(ns, k, parent, tag) {
            Some(k)
        } else {
            find_child_from(ns, parent, tag, k + 1)
        }
    } else {
        None
    }
}

/// The first child of `parent` named `tag`, in document order.
pub open spec fn find_child(ns: Seq<XmlNodeView>, parent: usize, tag: Seq<char>) -> Option<int> {
    find_child_from(ns, parent, tag, 0)
}

/// Finds the first child element of `parent` named `tag`.
pub fn find_child_index(ns: &Vec<XmlNode>, parent: usize, tag: &str) -> (r: Option<usize>)
    ensures
        match r {
            Some(i) => find_child(nodes_view(ns@), parent, tag@) == Some(i as int),
            None => find_child(nodes_view(ns@), parent, tag@) is None,
        },
        r matches Some(i) ==> i < ns@.len(),
{
    let ghost v = nodes_view(ns@);
    let mut i: usize = 0;
    while i < ns.len()
        invariant
            i <= ns@.len(),
            v == nodes_view(ns@),
            find_child(v, parent, tag@) == find_child_from(v, parent, tag@, i as int),
        decreases ns.len() - i,
    {
        let n = &ns[i];
        assert(v[i as int] == n@);
        if n.parent == Some(parent) && n.element && str_eq(n.tag.as_str(), tag) {
            return Some(i);
        }
        i = i + 1;
    }
    None
}

} // verus!
