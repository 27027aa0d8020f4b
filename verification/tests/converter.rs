use readable_url::dom::{Attr, HtmlNode};
use readable_url::markdown::{
    convert_html, convert_string, ensure_double_newline, ensure_newline, prefix,
    prefix_with_necessary_spaces, trim_ending_whitespace, MarkdownConverter,
};
use readable_url::model::ListMarker;

fn chars(s: &str) -> Vec<char> {
    s.chars().collect()
}

fn to_s(v: &Vec<char>) -> String {
    v.iter().collect()
}

fn text(t: &str) -> HtmlNode {
    HtmlNode::Text { text: t.to_string() }
}

fn el(tag: &str, attrs: Vec<(&str, &str)>, children: Vec<HtmlNode>) -> HtmlNode {
    HtmlNode::Element {
        tag: tag.to_string(),
        attrs: attrs
            .into_iter()
            .map(|(n, v)| Attr { name: n.to_string(), value: v.to_string() })
            .collect(),
        children,
    }
}

fn doc(children: Vec<HtmlNode>) -> HtmlNode {
    HtmlNode::Document { children }
}

#[test]
fn test_prefix_with_necessary_spaces() {
    let mut buf: Vec<char> = Vec::new();
    prefix_with_necessary_spaces(&mut buf, &[]);
    assert_eq!("", to_s(&buf));

    let mut buf: Vec<char> = Vec::new();
    prefix_with_necessary_spaces(&mut buf, &[ListMarker::Bullet]);
    assert_eq!("  ", to_s(&buf));

    let mut buf: Vec<char> = Vec::new();
    prefix_with_necessary_spaces(&mut buf, &[ListMarker::Ordered(3)]);
    assert_eq!("   ", to_s(&buf));

    let mut buf: Vec<char> = Vec::new();
    let stack = [ListMarker::Ordered(1), ListMarker::Bullet, ListMarker::Ordered(2)];
    prefix_with_necessary_spaces(&mut buf, &stack);
    assert_eq!("        ", to_s(&buf));

    let mut buf: Vec<char> = Vec::new();
    prefix_with_necessary_spaces(&mut buf, stack.split_at(2).0);
    assert_eq!("     ", to_s(&buf));
}

#[test]
fn test_collapse_whitespace() {
    assert_eq!("a b", convert_html(&doc(vec![text("a  \n b")])));
    assert_eq!("x", convert_html(&doc(vec![text("  x")])));
    assert_eq!("a b ", convert_html(&doc(vec![text("a\n\n\nb\n")])));
}

#[test]
fn test_ordered_list_markers() {
    let tree = doc(vec![el(
        "ol",
        vec![],
        vec![
            el("li", vec![], vec![text("a")]),
            el("li", vec![], vec![text("b")]),
            el("li", vec![], vec![text("c")]),
        ],
    )]);
    assert_eq!("1. a\n2. b\n3. c\n\n", convert_html(&tree));
}

#[test]
fn test_two_digit_ordered_marker() {
    assert_eq!(Some("12. ".to_string()), prefix(&[ListMarker::Ordered(12)]));
    assert_eq!(Some("* ".to_string()), prefix(&[ListMarker::Bullet]));
    assert_eq!(None, prefix(&[]));
}

#[test]
fn test_nested_list_indent() {
    let tree = doc(vec![el(
        "ul",
        vec![],
        vec![el(
            "li",
            vec![],
            vec![text("x"), el("ol", vec![], vec![el("li", vec![], vec![text("y")])])],
        )],
    )]);
    assert_eq!("* x\n\n  1. y\n\n", convert_html(&tree));
}

#[test]
fn test_blockquote_prefix() {
    let tree = doc(vec![el("blockquote", vec![], vec![el("p", vec![], vec![text("text")])])]);
    assert_eq!("> text\n", convert_html(&tree));
}

#[test]
fn test_nested_blockquote() {
    let tree = doc(vec![el(
        "blockquote",
        vec![],
        vec![el("blockquote", vec![], vec![el("p", vec![], vec![text("t")])])],
    )]);
    assert_eq!(">> t\n", convert_html(&tree));
}

#[test]
fn test_blockquote_prefix_per_text_node() {
    let tree = doc(vec![el("blockquote", vec![], vec![text("a"), text("b")])]);
    assert_eq!("> a> b\n", convert_html(&tree));
}

#[test]
fn test_link_with_href() {
    let tree = doc(vec![el("a", vec![("href", "http://x")], vec![text("text")])]);
    assert_eq!("[text](http://x)", convert_html(&tree));
}

#[test]
fn test_link_without_href() {
    let tree = doc(vec![el("a", vec![], vec![text("text")])]);
    assert_eq!("[text]()", convert_html(&tree));
}

#[test]
fn test_link_last_href_wins() {
    let tree = doc(vec![el(
        "a",
        vec![("HREF", "u1"), ("href", "u2")],
        vec![text("t")],
    )]);
    assert_eq!("[t](u2)", convert_html(&tree));
}

#[test]
fn test_img_no_alt() {
    let tree = doc(vec![el("img", vec![("src", "a.png")], vec![])]);
    assert_eq!("![no alt text](a.png)", convert_html(&tree));
}

#[test]
fn test_img_alt_and_src() {
    let tree = doc(vec![el("img", vec![("alt", "pic"), ("src", "s.png")], vec![])]);
    assert_eq!("![pic](s.png)", convert_html(&tree));
}

#[test]
fn test_suppressed_subtrees() {
    let tree = doc(vec![
        el("p", vec![], vec![text("a")]),
        el("script", vec![], vec![text("var x = 1;")]),
        el("style", vec![], vec![text("p { color: red }")]),
        el("head", vec![], vec![el("p", vec![], vec![text("ignored")])]),
        el("p", vec![], vec![text("b")]),
    ]);
    assert_eq!("a\n\nb", convert_html(&tree));
}

#[test]
fn test_sibling_paragraphs() {
    let tree = doc(vec![
        el("p", vec![], vec![text("one")]),
        el("p", vec![], vec![text("two")]),
    ]);
    assert_eq!("one\n\ntwo", convert_html(&tree));
}

#[test]
fn test_bold_and_emphasis() {
    let tree = doc(vec![
        el("b", vec![], vec![text("x")]),
        el("em", vec![], vec![text("y")]),
    ]);
    assert_eq!("**x***y*", convert_html(&tree));
}

#[test]
fn test_uppercase_tags_match() {
    let tree = doc(vec![el("STRONG", vec![], vec![text("x")])]);
    assert_eq!("**x**", convert_html(&tree));
}

#[test]
fn test_line_break() {
    let tree = doc(vec![text("a"), el("br", vec![], vec![]), text("b")]);
    assert_eq!("a\nb", convert_html(&tree));
}

#[test]
fn test_dedup_guard_after_marker() {
    let tree = doc(vec![el(
        "ul",
        vec![],
        vec![el("li", vec![], vec![el("p", vec![], vec![text("x")])])],
    )]);
    assert_eq!("* x\n\n", convert_html(&tree));
}

#[test]
fn test_empty_document() {
    assert_eq!("", convert_html(&doc(vec![])));
}

#[test]
fn test_comment_and_doctype_silent() {
    let tree = doc(vec![HtmlNode::Comment, HtmlNode::Doctype, HtmlNode::ProcessingInstruction]);
    assert_eq!("", convert_html(&tree));
}

#[test]
fn test_unknown_tag_passthrough() {
    let tree = doc(vec![el("span", vec![], vec![text("x")])]);
    assert_eq!("x", convert_html(&tree));
}

#[test]
fn test_converter_keeps_state() {
    let mut c = MarkdownConverter::new();
    let first = c.convert_html(&text("a"));
    assert_eq!("a", first);
    let second = c.convert_html(&text("b"));
    assert_eq!("ab", second);
}

#[test]
fn test_trim_ending_whitespace() {
    let mut buf = chars("a \t ");
    trim_ending_whitespace(&mut buf);
    assert_eq!("a", to_s(&buf));
}

#[test]
fn test_ensure_newlines() {
    let mut buf = chars("a ");
    ensure_newline(&mut buf);
    assert_eq!("a\n", to_s(&buf));

    let mut buf = chars("a");
    ensure_double_newline(&mut buf);
    assert_eq!("a\n\n", to_s(&buf));

    let mut buf = chars("a\n");
    ensure_double_newline(&mut buf);
    assert_eq!("a\n\n", to_s(&buf));

    let mut buf = chars("");
    ensure_double_newline(&mut buf);
    assert_eq!("", to_s(&buf));
}

#[test]
fn test_convert_string_paragraph() {
    assert_eq!("hello", convert_string("<p>hello</p>"));
}

#[test]
fn test_convert_string_bold() {
    assert_eq!("**hi**", convert_string("<b>hi</b>"));
}

#[test]
fn test_convert_string_full_page() {
    let html = "<html><head><title>t</title></head><body><p>one</p><p>two</p></body></html>";
    assert_eq!("one\n\ntwo", convert_string(html));
}

#[test]
fn test_convert_string_link() {
    assert_eq!("[t](u)", convert_string("<a href=\"u\">t</a>"));
}
