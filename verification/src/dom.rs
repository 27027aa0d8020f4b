use vstd::prelude::*;

verus! {

/// One attribute of an element: a name and a value, both plain strings.
/// Attribute names are compared case-insensitively by the converter.
pub struct Attr {
    pub name: String,
    pub value: String,
}

/// A node of the document tree that the converter walks. The tree is owned
/// and immutable during conversion; children are held in document order.
pub enum HtmlNode {
    Document { children: Vec<HtmlNode> },
    Element { tag: String, attrs: Vec<Attr>, children: Vec<HtmlNode> },
    Text { text: String },
    Comment,
    Doctype,
    ProcessingInstruction,
}

} // verus!
