use vstd::prelude::*;

use markup5ever_rcdom::{Handle, NodeData, RcDom};
use tendril::TendrilSink;

use crate::dom::{Attr, HtmlNode};

verus! {

/// The document tree that parsing an HTML string yields. Parsing is
/// deterministic: the tree is a function of the input characters alone.
pub uninterp spec fn parse_of(s: Seq<char>) -> HtmlNode;

#[verifier::external_type_specification]
#[verifier::external_body]
pub struct ExDomNode(markup5ever_rcdom::Node);

#[verifier::external_type_specification]
#[verifier::external_body]
pub struct ExAttribute(markup5ever::Attribute);

/// Relies on markup5ever: an attribute is its qualified name (the local
/// part) together with its value.
#[verifier::external_body]
fn read_attr(a: &markup5ever::Attribute) -> Attr {
    Attr { name: a.name.local.to_string(), value: a.value.to_string() }
}

/// Relies on markup5ever_rcdom: a DOM node is its data — document, element
/// (with qualified name and attribute list), text, comment, doctype or
/// processing instruction — together with its ordered list of children.
/// This reads that structure into the library's own tree, one node for one.
#[verifier::external_body]
fn dom_to_node(h: &Handle) -> HtmlNode {
    match &h.data {
        NodeData::Document => HtmlNode::Document {
            children: h.children.borrow().iter().map(dom_to_node).collect(),
        },
        NodeData::Element { name, attrs, .. } => HtmlNode::Element {
            tag: name.local.to_string(),
            attrs: attrs.borrow().iter().map(read_attr).collect(),
            children: h.children.borrow().iter().map(dom_to_node).collect(),
        },
        NodeData::Text { contents } => HtmlNode::Text { text: contents.borrow().to_string() },
        NodeData::Comment { .. } => HtmlNode::Comment,
        NodeData::Doctype { .. } => HtmlNode::Doctype,
        NodeData::ProcessingInstruction { .. } => HtmlNode::ProcessingInstruction,
    }
}

/// Relies on html5ever's parse_document driver with markup5ever_rcdom as
/// the sink: the string is parsed into a DOM whose root is the document
/// node. Reading from an in-memory byte slice performs no I/O and cannot
/// fail, and the parse is deterministic, so the tree depends on the input
/// alone.
#[verifier::external_body]
pub fn parse_string(text: &str) -> (n: HtmlNode)
    ensures
        n == parse_of(text@),
{
    let dom = html5ever::parse_document(RcDom::default(), Default::default())
        .from_utf8()
        .read_from(&mut text.as_bytes())
        .unwrap();
    dom_to_node(&dom.document)
}

} // verus!
