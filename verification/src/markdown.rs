use vstd::prelude::*;

use crate::chars::{append_chars, append_str, chars_eq_str, chars_to_string, lower_chars,
    str_to_chars};
use crate::dom::{Attr, HtmlNode};
use crate::model::{bump, collapse, conv_node, conv_nodes, dec_rep, emit_text, end_tag,
    ends_ws_or_empty, ensure_dnl, ensure_nl, inc_sat, indent_width, init_state, last_attr_value,
    lemma_conv_nodes_snoc, marker_text, marker_width, quote_prefix, seq_ends_with, spaces,
    start_tag, tag_kind, trim_ws, ConvState, ListMarker, TagKind};
use crate::parse::{parse_of, parse_string};

verus! {

/// Parses the string as an HTML document and converts the resulting tree
/// to Markdown.
pub fn convert_string(s: &str) -> (r: String)
    ensures
        r@ == conv_node(init_state(), parse_of(s@)).buf,
{
    let dom = parse_string(s);
    convert_html(&dom)
}

/// Converts a document tree to Markdown with a fresh converter.
pub fn convert_html(node: &HtmlNode) -> (r: String)
    ensures
        r@ == conv_node(init_state(), *node).buf,
{
    let mut converter = MarkdownConverter::new();
    converter.convert_html(node)
}

/// The stateful tree-to-Markdown converter: an output buffer, the
/// blockquote nesting depth, and the list-marker stack. One value serves
/// one conversion; no state outlives the call that owns it.
pub struct MarkdownConverter {
    buf: Vec<char>,
    quotes: usize,
    list_markers: Vec<ListMarker>,
}

impl View for MarkdownConverter {
    type V = ConvState;

    closed spec fn view(&self) -> ConvState {
        ConvState { buf: self.buf@, quotes: self.quotes as nat, markers: self.list_markers@ }
    }
}

impl MarkdownConverter {
    /// A fresh converter: empty buffer, no blockquote, no list context.
    pub fn new() -> (c: MarkdownConverter)
        ensures
            c@ == init_state(),
    {
        let c = MarkdownConverter { buf: Vec::new(), quotes: 0, list_markers: Vec::new() };
        proof {
            assert(c@.buf =~= init_state().buf);
            assert(c@.markers =~= init_state().markers);
        }
        c
    }

    /// Converts the tree below `node` into the buffer and returns the
    /// buffer's contents; the converter keeps its state.
    pub fn convert_html(&mut self, node: &HtmlNode) -> (r: String)
        ensures
            final(self)@ == conv_node(old(self)@, *node),
            r@ == final(self)@.buf,
    {
        self.convert_html_into_buffer(node);
        chars_to_string(&self.buf)
    }

    /// The depth-first walk: dispatches on the node kind, suppresses the
    /// subtrees of `head`, `style` and `script`, and brackets every other
    /// element's children between its start and end hooks.
    #[verifier::loop_isolation(false)]
    fn convert_html_into_buffer(&mut self, node: &HtmlNode)
        ensures
            final(self)@ == conv_node(old(self)@, *node),
        decreases *node,
    {
        match node {
            HtmlNode::Comment => {},
            HtmlNode::Doctype => {},
            HtmlNode::ProcessingInstruction => {},
            HtmlNode::Text { text } => {
                convert_text(text.as_str(), &mut self.buf, self.quotes);
            },
            HtmlNode::Document { children } => {
                let mut i: usize = 0;
                while i < children.len()
                    invariant
                        i <= children@.len(),
                        self@ == conv_nodes(old(self)@, children@.take(i as int)),
                    decreases children@.len() - i,
                {
                    proof {
                        assert(decreases_to!(*node => (*node)->Document_children));
                        assert((*node)->Document_children == *children);
                        assert(decreases_to!(*children => children@[i as int]));
                        assert(decreases_to!(*node => children@[i as int]));
                    }
                    self.convert_html_into_buffer(&children[i]);
                    proof {
                        lemma_conv_nodes_snoc(old(self)@, children@, i as int);
                    }
                    i = i + 1;
                }
                proof {
                    assert(children@.take(children@.len() as int) =~= children@);
                }
            },
            HtmlNode::Element { tag, attrs, children } => {
                proof {
                    assert(decreases_to!(*node => (*node)->Element_children));
                    assert((*node)->Element_children == *children);
                }
                self.handle_element(tag.as_str(), attrs.as_slice(), children);
            },
        }
    }

    /// One element: classify the tag, skip the suppressed ones whole, and
    /// otherwise run start hook, children, end hook.
    #[verifier::loop_isolation(false)]
    fn handle_element(&mut self, name: &str, attrs: &[Attr], children: &Vec<HtmlNode>)
        ensures
            final(self)@ == (if tag_kind(name@) == TagKind::Suppressed {
                old(self)@
            } else {
                end_tag(
                    conv_nodes(start_tag(old(self)@, tag_kind(name@), attrs@), children@),
                    tag_kind(name@),
                    attrs@,
                )
            }),
        decreases *children,
    {
        let t = classify_tag(name);
        match t {
            TagKind::Suppressed => {},
            _ => {
                self.element_start(name, attrs);
                let ghost s1 = self@;
                let mut i: usize = 0;
                while i < children.len()
                    invariant
                        i <= children@.len(),
                        self@ == conv_nodes(s1, children@.take(i as int)),
                    decreases children@.len() - i,
                {
                    self.convert_html_into_buffer(&children[i]);
                    proof {
                        lemma_conv_nodes_snoc(s1, children@, i as int);
                    }
                    i = i + 1;
                }
                proof {
                    assert(children@.take(children@.len() as int) =~= children@);
                }
                self.element_end(name, attrs);
            },
        }
    }

    /// The per-tag start hook.
    fn element_start(&mut self, name: &str, attrs: &[Attr])
        ensures
            final(self)@ == start_tag(old(self)@, tag_kind(name@), attrs@),
    {
        let t = classify_tag(name);
        match t {
            TagKind::Bold => bold_start(&mut self.buf),
            TagKind::Emphasis => emphasize_start(&mut self.buf),
            TagKind::Paragraph => self.p_start(),
            TagKind::Blockquote => blockquote_start(&mut self.buf, &mut self.quotes),
            TagKind::LineBreak => self.br_start(),
            TagKind::Anchor => link_start(&mut self.buf),
            TagKind::Image => img_start(&mut self.buf, attrs),
            TagKind::UnorderedList => ul_start(&mut self.buf, &mut self.list_markers),
            TagKind::OrderedList => ol_start(&mut self.buf, &mut self.list_markers),
            TagKind::ListItem => li_start(&mut self.buf, self.list_markers.as_slice()),
            TagKind::Suppressed => {},
            TagKind::Other => {},
        }
    }

    /// The per-tag end hook.
    fn element_end(&mut self, name: &str, attrs: &[Attr])
        ensures
            final(self)@ == end_tag(old(self)@, tag_kind(name@), attrs@),
    {
        let t = classify_tag(name);
        match t {
            TagKind::Bold => bold_end(&mut self.buf),
            TagKind::Emphasis => emphasize_end(&mut self.buf),
            TagKind::Blockquote => blockquote_end(&mut self.buf, &mut self.quotes),
            TagKind::Anchor => link_end(&mut self.buf, attrs),
            TagKind::UnorderedList => list_end(&mut self.buf, &mut self.list_markers),
            TagKind::OrderedList => list_end(&mut self.buf, &mut self.list_markers),
            TagKind::ListItem => li_end(&mut self.buf, &mut self.list_markers),
            _ => {},
        }
    }

    /// A paragraph break: skipped right after a fresh list marker, else a
    /// blank line and the continuation indent.
    pub fn p_start(&mut self)
        ensures
            final(self)@ == start_tag(old(self)@, TagKind::Paragraph, Seq::<Attr>::empty()),
    {
        if self.list_markers.len() > 0 {
            let m = self.list_markers[self.list_markers.len() - 1];
            let mv = marker_chars(m);
            if ends_with_chars(&self.buf, &mv) {
                return ;
            }
        }
        ensure_double_newline(&mut self.buf);
        prefix_with_necessary_spaces(&mut self.buf, self.list_markers.as_slice());
    }

    /// A line break: skipped right after a fresh list marker, else one
    /// newline and the continuation indent.
    pub fn br_start(&mut self)
        ensures
            final(self)@ == start_tag(old(self)@, TagKind::LineBreak, Seq::<Attr>::empty()),
    {
        if self.list_markers.len() > 0 {
            let m = self.list_markers[self.list_markers.len() - 1];
            let mv = marker_chars(m);
            if ends_with_chars(&self.buf, &mv) {
                return ;
            }
        }
        ensure_newline(&mut self.buf);
        prefix_with_necessary_spaces(&mut self.buf, self.list_markers.as_slice());
    }
}

/// Classifies a tag name, matching case-insensitively.
pub fn classify_tag(name: &str) -> (t: TagKind)
    ensures
        t == tag_kind(name@),
{
    let lc = lower_chars(name);
    if chars_eq_str(&lc, "head") || chars_eq_str(&lc, "style") || chars_eq_str(&lc, "script") {
        TagKind::Suppressed
    } else if chars_eq_str(&lc, "b") || chars_eq_str(&lc, "strong") {
        TagKind::Bold
    } else if chars_eq_str(&lc, "i") || chars_eq_str(&lc, "em") {
        TagKind::Emphasis
    } else if chars_eq_str(&lc, "p") || chars_eq_str(&lc, "div") {
        TagKind::Paragraph
    } else if chars_eq_str(&lc, "br") {
        TagKind::LineBreak
    } else if chars_eq_str(&lc, "blockquote") {
        TagKind::Blockquote
    } else if chars_eq_str(&lc, "a") {
        TagKind::Anchor
    } else if chars_eq_str(&lc, "img") {
        TagKind::Image
    } else if chars_eq_str(&lc, "ul") {
        TagKind::UnorderedList
    } else if chars_eq_str(&lc, "ol") {
        TagKind::OrderedList
    } else if chars_eq_str(&lc, "li") {
        TagKind::ListItem
    } else {
        TagKind::Other
    }
}

/// The text normalizer: blockquote prefixes, then the whitespace-collapsed
/// text of the node.
pub fn convert_text(text: &str, buf: &mut Vec<char>, quotes: usize)
    ensures
        final(buf)@ == emit_text(old(buf)@, quotes as nat, text@),
{
    let mut q: usize = 0;
    while q < quotes
        invariant
            q <= quotes,
            buf@ == old(buf)@ + Seq::new(q as nat, |k: int| '>'),
        decreases quotes - q,
    {
        buf.push('>');
        proof {
            assert(old(buf)@ + Seq::new((q + 1) as nat, |k: int| '>') =~= (old(buf)@ + Seq::new(
                q as nat,
                |k: int| '>',
            )).push('>'));
        }
        q = q + 1;
    }
    if quotes > 0 {
        buf.push(' ');
    }
    proof {
        assert(buf@ =~= old(buf)@ + quote_prefix(quotes as nat));
    }
    let ghost b0 = old(buf)@ + quote_prefix(quotes as nat);
    let mut prev: bool = buf.len() == 0 || buf[buf.len() - 1] == ' ' || buf[buf.len() - 1] == '\n';
    proof {
        assert(prev == ends_ws_or_empty(b0));
    }
    let ghost p0 = ends_ws_or_empty(b0);
    let cs = str_to_chars(text);
    proof {
        assert(text@.skip(0) =~= text@);
    }
    let mut i: usize = 0;
    while i < cs.len()
        invariant
            i <= cs@.len(),
            cs@ == text@,
            b0 + collapse(text@, p0) == buf@ + collapse(text@.skip(i as int), prev),
        decreases cs@.len() - i,
    {
        let c = cs[i];
        proof {
            assert(text@.skip(i as int).first() == text@[i as int]);
            assert(text@.skip(i as int).drop_first() =~= text@.skip(i + 1 as int));
        }
        if c == ' ' || c == '\n' {
            if !prev {
                prev = true;
                buf.push(' ');
                proof {
                    assert(buf@ + collapse(text@.skip(i + 1 as int), true) =~= buf@.drop_last()
                        + (seq![' '] + collapse(text@.skip(i + 1 as int), true)));
                }
            }
        } else {
            prev = false;
            buf.push(c);
            proof {
                assert(buf@ + collapse(text@.skip(i + 1 as int), false) =~= buf@.drop_last() + (
                seq![c] + collapse(text@.skip(i + 1 as int), false)));
            }
        }
        i = i + 1;
    }
    proof {
        assert(text@.skip(text@.len() as int) =~= Seq::<char>::empty());
        assert(buf@ =~= b0 + collapse(text@, p0));
    }
}

/// Opens bold emphasis.
pub fn bold_start(buf: &mut Vec<char>)
    ensures
        final(buf)@ == old(buf)@ + seq!['*', '*'],
{
    buf.push('*');
    buf.push('*');
    proof {
        assert(buf@ =~= old(buf)@ + seq!['*', '*']);
    }
}

/// Closes bold emphasis: the same marker as opening it.
pub fn bold_end(buf: &mut Vec<char>)
    ensures
        final(buf)@ == old(buf)@ + seq!['*', '*'],
{
    bold_start(buf)
}

/// Opens italic emphasis.
pub fn emphasize_start(buf: &mut Vec<char>)
    ensures
        final(buf)@ == old(buf)@.push('*'),
{
    buf.push('*')
}

/// Closes italic emphasis: the same marker as opening it.
pub fn emphasize_end(buf: &mut Vec<char>)
    ensures
        final(buf)@ == old(buf)@.push('*'),
{
    emphasize_start(buf)
}

/// Removes trailing spaces and tabs from the buffer.
pub fn trim_ending_whitespace(buf: &mut Vec<char>)
    ensures
        final(buf)@ == trim_ws(old(buf)@),
{
    while buf.len() > 0 && (buf[buf.len() - 1] == ' ' || buf[buf.len() - 1] == '\t')
        invariant
            trim_ws(buf@) == trim_ws(old(buf)@),
        decreases buf@.len(),
    {
        buf.pop();
    }
}

/// The literal text of the innermost list marker, or nothing outside a
/// list.
pub fn prefix(list_markers: &[ListMarker]) -> (r: Option<String>)
    ensures
        match r {
            Some(p) => list_markers@.len() > 0 && p@ == marker_text(list_markers@.last()),
            None => list_markers@.len() == 0,
        },
{
    if list_markers.len() == 0 {
        None
    } else {
        let m = list_markers[list_markers.len() - 1];
        let v = marker_chars(m);
        Some(chars_to_string(&v))
    }
}

/// The characters of one marker's literal text.
pub fn marker_chars(m: ListMarker) -> (v: Vec<char>)
    ensures
        v@ == marker_text(m),
{
    let mut v: Vec<char> = Vec::new();
    match m {
        ListMarker::Bullet => {
            v.push('*');
            v.push(' ');
        },
        ListMarker::Ordered(n) => {
            push_decimal(&mut v, n);
            v.push('.');
            v.push(' ');
        },
    }
    proof {
        assert(v@ =~= marker_text(m));
    }
    v
}

/// Appends the decimal digits of a number, most significant first.
pub fn push_decimal(buf: &mut Vec<char>, n: usize)
    ensures
        final(buf)@ == old(buf)@ + dec_rep(n as nat),
    decreases n,
{
    if n < 10 {
        let d: u8 = 48 + (n as u8);
        buf.push(d as char);
        proof {
            assert(buf@ =~= old(buf)@ + dec_rep(n as nat));
        }
    } else {
        push_decimal(buf, n / 10);
        let d: u8 = 48 + ((n % 10) as u8);
        buf.push(d as char);
        proof {
            assert(buf@ =~= old(buf)@ + dec_rep(n as nat));
        }
    }
}

/// Appends the continuation indent for a marker stack: two spaces per
/// bullet level, three per ordered level, in stack order.
pub fn prefix_with_necessary_spaces(buf: &mut Vec<char>, list_markers: &[ListMarker])
    ensures
        final(buf)@ == old(buf)@ + spaces(indent_width(list_markers@)),
{
    let mut i: usize = 0;
    while i < list_markers.len()
        invariant
            i <= list_markers@.len(),
            buf@ == old(buf)@ + spaces(indent_width(list_markers@.take(i as int))),
        decreases list_markers@.len() - i,
    {
        let w: usize = match list_markers[i] {
            ListMarker::Ordered(_) => 3,
            ListMarker::Bullet => 2,
        };
        assert(w == marker_width(list_markers@[i as int]));
        let ghost before = buf@;
        let mut j: usize = 0;
        while j < w
            invariant
                j <= w,
                buf@ == before + spaces(j as nat),
            decreases w - j,
        {
            buf.push(' ');
            proof {
                assert(before + spaces((j + 1) as nat) =~= (before + spaces(j as nat)).push(' '));
            }
            j = j + 1;
        }
        proof {
            assert(list_markers@.take(i + 1 as int).drop_last() =~= list_markers@.take(i as int));
            assert(list_markers@.take(i + 1 as int).last() == list_markers@[i as int]);
            assert(buf@ =~= old(buf)@ + spaces(indent_width(list_markers@.take(i + 1 as int))));
        }
        i = i + 1;
    }
    proof {
        assert(list_markers@.take(list_markers@.len() as int) =~= list_markers@);
    }
}

/// Trailing whitespace trimmed, then exactly two newlines unless the
/// buffer is empty or already ends in two.
pub fn ensure_double_newline(buf: &mut Vec<char>)
    ensures
        final(buf)@ == ensure_dnl(old(buf)@),
{
    trim_ending_whitespace(buf);
    let n = buf.len();
    if n >= 2 && buf[n - 1] == '\n' && buf[n - 2] == '\n' {
    } else if n >= 1 && buf[n - 1] == '\n' {
        buf.push('\n');
    } else if n > 0 {
        buf.push('\n');
        buf.push('\n');
    }
}

/// Trailing whitespace trimmed, then one newline unless the buffer is
/// empty or already ends in one.
pub fn ensure_newline(buf: &mut Vec<char>)
    ensures
        final(buf)@ == ensure_nl(old(buf)@),
{
    trim_ending_whitespace(buf);
    let n = buf.len();
    if n >= 1 && buf[n - 1] == '\n' {
    } else if n > 0 {
        buf.push('\n');
    }
}

/// Whether the buffer ends with the given characters.
pub fn ends_with_chars(buf: &Vec<char>, suffix: &Vec<char>) -> (r: bool)
    ensures
        r == seq_ends_with(buf@, suffix@),
{
    let n = buf.len();
    let m = suffix.len();
    if m > n {
        return false;
    }
    let mut j: usize = 0;
    while j < m
        invariant
            m <= n,
            n == buf@.len(),
            m == suffix@.len(),
            j <= m,
            forall|k: int| 0 <= k < j ==> buf@[n - m + k] == suffix@[k],
        decreases m - j,
    {
        if buf[n - m + j] != suffix[j] {
            proof {
                assert(buf@.skip((n - m) as int)[j as int] != suffix@[j as int]);
            }
            return false;
        }
        j = j + 1;
    }
    proof {
        assert(buf@.skip((n - m) as int) =~= suffix@);
    }
    true
}

/// Opens a blockquote: a fresh line, one level deeper.
pub fn blockquote_start(buf: &mut Vec<char>, quotes: &mut usize)
    ensures
        final(buf)@ == ensure_nl(old(buf)@),
        *final(quotes) == inc_sat(*old(quotes) as nat),
{
    ensure_newline(buf);
    if *quotes < usize::MAX {
        *quotes = *quotes + 1;
    }
}

/// Closes a blockquote: one level shallower (closing without opening is
/// ignored), then a fresh line.
pub fn blockquote_end(buf: &mut Vec<char>, quotes: &mut usize)
    ensures
        final(buf)@ == ensure_nl(old(buf)@),
        *final(quotes) == (if *old(quotes) > 0 {
            *old(quotes) - 1
        } else {
            0
        }),
{
    if *quotes > 0 {
        *quotes = *quotes - 1;
    }
    ensure_newline(buf)
}

/// Opens a link.
pub fn link_start(buf: &mut Vec<char>)
    ensures
        final(buf)@ == old(buf)@.push('['),
{
    buf.push('[')
}

/// Closes a link: the target is the last `href` attribute's value, or
/// empty when none is present.
pub fn link_end(buf: &mut Vec<char>, attrs: &[Attr])
    ensures
        final(buf)@ == old(buf)@ + seq![']', '('] + last_attr_value(attrs@, "href"@, Seq::empty())
            + seq![')'],
{
    let mut url: Vec<char> = Vec::new();
    let mut i: usize = 0;
    while i < attrs.len()
        invariant
            i <= attrs@.len(),
            url@ == last_attr_value(attrs@.take(i as int), "href"@, Seq::empty()),
        decreases attrs@.len() - i,
    {
        let lname = lower_chars(attrs[i].name.as_str());
        if chars_eq_str(&lname, "href") {
            url = str_to_chars(attrs[i].value.as_str());
        }
        proof {
            assert(attrs@.take(i + 1 as int).drop_last() =~= attrs@.take(i as int));
            assert(attrs@.take(i + 1 as int).last() == attrs@[i as int]);
        }
        i = i + 1;
    }
    proof {
        assert(attrs@.take(attrs@.len() as int) =~= attrs@);
    }
    buf.push(']');
    buf.push('(');
    append_chars(buf, &url);
    buf.push(')');
    proof {
        assert(buf@ =~= old(buf)@ + seq![']', '('] + last_attr_value(
            attrs@,
            "href"@,
            Seq::empty(),
        ) + seq![')']);
    }
}

/// An image, emitted whole on its start tag: the last `alt` attribute (or
/// the fixed default) and the last `src` attribute (or empty).
pub fn img_start(buf: &mut Vec<char>, attrs: &[Attr])
    ensures
        final(buf)@ == old(buf)@ + seq!['!', '['] + last_attr_value(attrs@, "alt"@, "no alt text"@)
            + seq![']', '('] + last_attr_value(attrs@, "src"@, Seq::empty()) + seq![')'],
{
    let mut src: Vec<char> = Vec::new();
    let mut alt: Vec<char> = str_to_chars("no alt text");
    let mut i: usize = 0;
    while i < attrs.len()
        invariant
            i <= attrs@.len(),
            src@ == last_attr_value(attrs@.take(i as int), "src"@, Seq::empty()),
            alt@ == last_attr_value(attrs@.take(i as int), "alt"@, "no alt text"@),
        decreases attrs@.len() - i,
    {
        let lname = lower_chars(attrs[i].name.as_str());
        if chars_eq_str(&lname, "src") {
            src = str_to_chars(attrs[i].value.as_str());
        }
        if chars_eq_str(&lname, "alt") {
            alt = str_to_chars(attrs[i].value.as_str());
        }
        proof {
            assert(attrs@.take(i + 1 as int).drop_last() =~= attrs@.take(i as int));
            assert(attrs@.take(i + 1 as int).last() == attrs@[i as int]);
        }
        i = i + 1;
    }
    proof {
        assert(attrs@.take(attrs@.len() as int) =~= attrs@);
    }
    buf.push('!');
    buf.push('[');
    append_chars(buf, &alt);
    buf.push(']');
    buf.push('(');
    append_chars(buf, &src);
    buf.push(')');
    proof {
        assert(buf@ =~= old(buf)@ + seq!['!', '['] + last_attr_value(attrs@, "alt"@, "no alt text"@)
            + seq![']', '('] + last_attr_value(attrs@, "src"@, Seq::empty()) + seq![')']);
    }
}

/// Opens an unordered list: a blank line and a bullet frame.
pub fn ul_start(buf: &mut Vec<char>, list_markers: &mut Vec<ListMarker>)
    ensures
        final(buf)@ == ensure_dnl(old(buf)@),
        final(list_markers)@ == old(list_markers)@.push(ListMarker::Bullet),
{
    ensure_double_newline(buf);
    list_markers.push(ListMarker::Bullet);
}

/// Opens an ordered list: a blank line and a counter frame starting at 1.
pub fn ol_start(buf: &mut Vec<char>, list_markers: &mut Vec<ListMarker>)
    ensures
        final(buf)@ == ensure_dnl(old(buf)@),
        final(list_markers)@ == old(list_markers)@.push(ListMarker::Ordered(1)),
{
    ensure_double_newline(buf);
    list_markers.push(ListMarker::Ordered(1));
}

/// Closes a list of either kind: a blank line, the innermost frame popped
/// (closing without opening is ignored), and the remaining levels' indent.
pub fn list_end(buf: &mut Vec<char>, list_markers: &mut Vec<ListMarker>)
    ensures
        final(list_markers)@ == (if old(list_markers)@.len() > 0 {
            old(list_markers)@.drop_last()
        } else {
            old(list_markers)@
        }),
        final(buf)@ == ensure_dnl(old(buf)@) + spaces(indent_width(final(list_markers)@)),
{
    ensure_double_newline(buf);
    if list_markers.len() > 0 {
        list_markers.pop();
    }
    prefix_with_necessary_spaces(buf, list_markers.as_slice());
}

/// Opens a list item: the outer levels' indent, then the innermost
/// marker's literal text; outside any list it does nothing.
pub fn li_start(buf: &mut Vec<char>, list_markers: &[ListMarker])
    ensures
        final(buf)@ == (if list_markers@.len() == 0 {
            old(buf)@
        } else {
            old(buf)@ + spaces(indent_width(list_markers@.drop_last())) + marker_text(
                list_markers@.last(),
            )
        }),
{
    if list_markers.len() > 0 {
        let last_index = list_markers.len() - 1;
        let (outer, _) = list_markers.split_at(last_index);
        prefix_with_necessary_spaces(buf, outer);
        proof {
            assert(list_markers@.subrange(0, last_index as int) =~= list_markers@.drop_last());
        }
        if let Some(p) = prefix(list_markers) {
            append_str(buf, p.as_str());
        }
    }
}

/// Closes a list item: a fresh line, and the innermost counter bumped for
/// the next sibling; outside any list it does nothing.
pub fn li_end(buf: &mut Vec<char>, list_markers: &mut Vec<ListMarker>)
    ensures
        old(list_markers)@.len() == 0 ==> final(buf)@ == old(buf)@,
        old(list_markers)@.len() == 0 ==> final(list_markers)@ == old(list_markers)@,
        old(list_markers)@.len() > 0 ==> final(buf)@ == ensure_nl(old(buf)@),
        old(list_markers)@.len() > 0 ==> final(list_markers)@ == old(list_markers)@.drop_last().push(
            bump(old(list_markers)@.last()),
        ),
{
    match list_markers.pop() {
        None => {},
        Some(mark) => {
            ensure_newline(buf);
            match mark {
                ListMarker::Ordered(i) => {
                    let next: usize = if i < usize::MAX {
                        i + 1
                    } else {
                        i
                    };
                    list_markers.push(ListMarker::Ordered(next));
                },
                ListMarker::Bullet => {
                    list_markers.push(mark);
                },
            }
        },
    }
}

} // verus!
