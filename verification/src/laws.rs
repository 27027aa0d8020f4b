use vstd::prelude::*;

use crate::dom::{Attr, HtmlNode};
use crate::model::{bump, collapse, conv_node, conv_nodes, dec_rep, digit_char, emit_text,
    end_list, end_tag, ensure_dnl, ensure_nl, ends_ws_or_empty, indent_width, init_state,
    is_text_ws, is_trim_ws, last_attr_value, lemma_conv_nodes_snoc, marker_text, quote_prefix,
    spaces, start_tag, tag_kind, trim_ws, ConvState, ListMarker, TagKind};

verus! {

/// No raw newline anywhere in the sequence.
pub open spec fn no_newline(s: Seq<char>) -> bool {
    forall|i: int| 0 <= i < s.len() ==> s[i] != '\n'
}

/// No two adjacent space characters.
pub open spec fn no_double_space(s: Seq<char>) -> bool {
    forall|i: int| 0 <= i && i + 1 < s.len() ==> !(#[trigger] s[i] == ' ' && s[i + 1] == ' ')
}

/// Never three newlines in a row: the buffer's ordering invariant, two
/// newlines being the canonical paragraph separator.
pub open spec fn no_triple_nl(s: Seq<char>) -> bool {
    forall|i: int|
        0 <= i && i + 2 < s.len() ==> !(#[trigger] s[i] == '\n' && s[i + 1] == '\n' && s[i + 2] == '\n')
}

/// Whitespace-collapsed text holds no raw newline and no two adjacent
/// spaces; and right after whitespace it does not even begin with a space.
pub proof fn lemma_collapse_normalized(text: Seq<char>, prev_ws: bool)
    ensures
        no_newline(collapse(text, prev_ws)),
        no_double_space(collapse(text, prev_ws)),
        prev_ws && collapse(text, prev_ws).len() > 0 ==> collapse(text, prev_ws)[0] != ' ',
    decreases text.len(),
{
    if text.len() == 0 {
    } else {
        let c = text.first();
        let rest = text.drop_first();
        let r = collapse(text, prev_ws);
        if is_text_ws(c) {
            lemma_collapse_normalized(rest, true);
            if !prev_ws {
                let rr = collapse(rest, true);
                assert forall|i: int| 0 <= i < r.len() implies r[i] != '\n' by {
                    if i > 0 {
                        assert(r[i] == rr[i - 1]);
                    }
                }
                assert forall|i: int| 0 <= i && i + 1 < r.len() implies !(#[trigger] r[i] == ' ' && r[i + 1]
                    == ' ') by {
                    if i == 0 {
                        assert(r[1] == rr[0]);
                    } else {
                        assert(r[i] == rr[i - 1]);
                        assert(r[i + 1] == rr[i]);
                    }
                }
            }
        } else {
            lemma_collapse_normalized(rest, false);
            let rr = collapse(rest, false);
            assert forall|i: int| 0 <= i < r.len() implies r[i] != '\n' by {
                if i > 0 {
                    assert(r[i] == rr[i - 1]);
                }
            }
            assert forall|i: int| 0 <= i && i + 1 < r.len() implies !(#[trigger] r[i] == ' ' && r[i + 1]
                == ' ') by {
                if i > 0 {
                    assert(r[i] == rr[i - 1]);
                    assert(r[i + 1] == rr[i]);
                }
            }
        }
    }
}

/// Text with no collapsible whitespace passes through collapse unchanged.
pub proof fn lemma_collapse_ws_free(text: Seq<char>, prev_ws: bool)
    requires
        forall|i: int| 0 <= i < text.len() ==> !is_text_ws(text[i]),
    ensures
        collapse(text, prev_ws) == text,
    decreases text.len(),
{
    if text.len() == 0 {
        assert(collapse(text, prev_ws) =~= text);
    } else {
        assert(!is_text_ws(text.first()));
        lemma_collapse_ws_free(text.drop_first(), false);
        assert(seq![text.first()] + text.drop_first() =~= text);
    }
}

/// A suppressed element — `head`, `style` or `script` — contributes
/// nothing at all: the converter state is exactly what it was.
pub proof fn lemma_suppressed_subtree(s: ConvState, n: HtmlNode)
    requires
        n is Element,
        tag_kind(n->Element_tag@) == TagKind::Suppressed,
    ensures
        conv_node(s, n) == s,
{
}

/// Concatenation keeps the no-triple-newline invariant when neither side
/// breaks it and the boundary does not stack newlines three deep.
pub proof fn lemma_concat_no_triple(a: Seq<char>, b: Seq<char>)
    requires
        no_triple_nl(a),
        no_triple_nl(b),
        (a.len() >= 1 && a.last() == '\n' && b.len() >= 2) ==> !(b[0] == '\n' && b[1] == '\n'),
        (a.len() >= 2 && a[a.len() - 1] == '\n' && a[a.len() - 2] == '\n' && b.len() >= 1) ==> b[0]
            != '\n',
    ensures
        no_triple_nl(a + b),
{
    let ab = a + b;
    assert forall|i: int| 0 <= i && i + 2 < ab.len() implies !(#[trigger] ab[i] == '\n' && ab[i + 1] == '\n'
        && ab[i + 2] == '\n') by {
        if i + 2 < a.len() {
            assert(ab[i] == a[i] && ab[i + 1] == a[i + 1] && ab[i + 2] == a[i + 2]);
        } else if i >= a.len() {
            assert(ab[i] == b[i - a.len()] && ab[i + 1] == b[i + 1 - a.len()] && ab[i + 2] == b[i
                + 2 - a.len()]);
        } else if i + 1 == a.len() {
            assert(ab[i] == a[a.len() - 1] && ab[i + 1] == b[0] && ab[i + 2] == b[1]);
        } else {
            assert(i + 2 == a.len());
            assert(ab[i] == a[a.len() - 2] && ab[i + 1] == a[a.len() - 1] && ab[i + 2] == b[0]);
        }
    }
}

/// Appending newline-free characters keeps the invariant.
pub proof fn lemma_append_no_nl(a: Seq<char>, b: Seq<char>)
    requires
        no_triple_nl(a),
        no_newline(b),
    ensures
        no_triple_nl(a + b),
{
    lemma_concat_no_triple(a, b);
}

/// Trimming trailing whitespace keeps the invariant.
pub proof fn lemma_trim_no_triple(s: Seq<char>)
    requires
        no_triple_nl(s),
    ensures
        no_triple_nl(trim_ws(s)),
    decreases s.len(),
{
    if s.len() > 0 && is_trim_ws(s.last()) {
        assert forall|i: int| 0 <= i && i + 2 < s.drop_last().len() implies !(#[trigger] s.drop_last()[i]
            == '\n' && s.drop_last()[i + 1] == '\n' && s.drop_last()[i + 2] == '\n') by {
            assert(s.drop_last()[i] == s[i] && s.drop_last()[i + 1] == s[i + 1] && s.drop_last()[i
                + 2] == s[i + 2]);
        }
        lemma_trim_no_triple(s.drop_last());
    }
}

/// The single-newline normalizer keeps the invariant.
pub proof fn lemma_ensure_nl_no_triple(s: Seq<char>)
    requires
        no_triple_nl(s),
    ensures
        no_triple_nl(ensure_nl(s)),
{
    lemma_trim_no_triple(s);
    let t = trim_ws(s);
    if !(t.len() == 0 || t.last() == '\n') {
        lemma_concat_no_triple(t, seq!['\n']);
        assert(t.push('\n') =~= t + seq!['\n']);
    }
}

/// The double-newline normalizer keeps the invariant.
pub proof fn lemma_ensure_dnl_no_triple(s: Seq<char>)
    requires
        no_triple_nl(s),
    ensures
        no_triple_nl(ensure_dnl(s)),
{
    lemma_trim_no_triple(s);
    let t = trim_ws(s);
    if t.len() >= 2 && t[t.len() - 2] == '\n' && t[t.len() - 1] == '\n' {
    } else if t.len() > 0 && t.last() == '\n' {
        lemma_concat_no_triple(t, seq!['\n']);
        assert(t.push('\n') =~= t + seq!['\n']);
    } else if t.len() > 0 {
        lemma_concat_no_triple(t, seq!['\n', '\n']);
        assert(t.push('\n').push('\n') =~= t + seq!['\n', '\n']);
    }
}

/// The blockquote prefix holds only `>` and a space.
pub proof fn lemma_quote_prefix_no_nl(q: nat)
    ensures
        no_newline(quote_prefix(q)),
{
    if q > 0 {
        let p = quote_prefix(q);
        assert forall|i: int| 0 <= i < p.len() implies p[i] != '\n' by {
            if i < q {
                assert(p[i] == '>');
            } else {
                assert(p[i] == ' ');
            }
        }
    }
}

/// A text node's emission keeps the invariant: its prefix and its
/// collapsed text hold no newline at all.
pub proof fn lemma_emit_text_no_triple(buf: Seq<char>, q: nat, text: Seq<char>)
    requires
        no_triple_nl(buf),
    ensures
        no_triple_nl(emit_text(buf, q, text)),
{
    lemma_quote_prefix_no_nl(q);
    lemma_append_no_nl(buf, quote_prefix(q));
    let b = buf + quote_prefix(q);
    lemma_collapse_normalized(text, ends_ws_or_empty(b));
    lemma_append_no_nl(b, collapse(text, ends_ws_or_empty(b)));
}

/// Decimal digits are never newlines.
pub proof fn lemma_dec_rep_no_nl(n: nat)
    ensures
        no_newline(dec_rep(n)),
    decreases n,
{
    if n < 10 {
        assert(digit_char(n) != '\n');
    } else {
        assert(digit_char(n % 10) != '\n');
        lemma_dec_rep_no_nl(n / 10);
        let r = dec_rep(n);
        let head = dec_rep(n / 10);
        assert forall|i: int| 0 <= i < r.len() implies r[i] != '\n' by {
            if i < head.len() {
                assert(r[i] == head[i]);
            } else {
                assert(r[i] == digit_char(n % 10));
            }
        }
    }
}

/// A marker's literal text is newline-free.
pub proof fn lemma_marker_text_no_nl(m: ListMarker)
    ensures
        no_newline(marker_text(m)),
{
    match m {
        ListMarker::Bullet => {},
        ListMarker::Ordered(n) => {
            lemma_dec_rep_no_nl(n as nat);
            let r = marker_text(m);
            let head = dec_rep(n as nat);
            assert forall|i: int| 0 <= i < r.len() implies r[i] != '\n' by {
                if i < head.len() {
                    assert(r[i] == head[i]);
                }
            }
        },
    }
}

/// Indentation is all spaces.
pub proof fn lemma_spaces_no_nl(n: nat)
    ensures
        no_newline(spaces(n)),
{
}

/// All attribute values of a list are free of triple newlines.
pub open spec fn attrs_ok(attrs: Seq<Attr>) -> bool {
    forall|i: int| 0 <= i < attrs.len() ==> no_triple_nl(attrs[i].value@)
}

/// Every element in the tree has such attribute values.
pub open spec fn tree_attrs_ok(n: HtmlNode) -> bool
    decreases n,
{
    match n {
        HtmlNode::Document { children } => nodes_attrs_ok(children@),
        HtmlNode::Element { attrs, children, .. } => attrs_ok(attrs@) && nodes_attrs_ok(children@),
        _ => true,
    }
}

pub open spec fn nodes_attrs_ok(ns: Seq<HtmlNode>) -> bool
    decreases ns,
{
    ns.len() == 0 || (tree_attrs_ok(ns.first()) && nodes_attrs_ok(ns.drop_first()))
}

/// An attribute lookup's result inherits the invariant from the values and
/// the default.
pub proof fn lemma_last_attr_no_triple(attrs: Seq<Attr>, name: Seq<char>, dflt: Seq<char>)
    requires
        attrs_ok(attrs),
        no_triple_nl(dflt),
    ensures
        no_triple_nl(last_attr_value(attrs, name, dflt)),
    decreases attrs.len(),
{
    if attrs.len() > 0 {
        assert(attrs_ok(attrs.drop_last())) by {
            assert forall|i: int| 0 <= i < attrs.drop_last().len() implies no_triple_nl(
                attrs.drop_last()[i].value@,
            ) by {
                assert(attrs.drop_last()[i] == attrs[i]);
            }
        }
        lemma_last_attr_no_triple(attrs.drop_last(), name, dflt);
    }
}

/// The fixed alternative text for images holds no newline.
pub proof fn lemma_default_alt_no_nl()
    ensures
        no_newline("no alt text"@),
        no_triple_nl("no alt text"@),
{
    reveal_strlit("no alt text");
    assert(no_newline("no alt text"@));
}

/// The start hook keeps the buffer invariant.
pub proof fn lemma_start_tag_no_triple(s: ConvState, t: TagKind, attrs: Seq<Attr>)
    requires
        no_triple_nl(s.buf),
        attrs_ok(attrs),
    ensures
        no_triple_nl(start_tag(s, t, attrs).buf),
{
    match t {
        TagKind::Bold => {
            lemma_append_no_nl(s.buf, seq!['*', '*']);
        },
        TagKind::Emphasis => {
            lemma_append_no_nl(s.buf, seq!['*']);
            assert(s.buf.push('*') =~= s.buf + seq!['*']);
        },
        TagKind::Paragraph => {
            lemma_ensure_dnl_no_triple(s.buf);
            lemma_append_no_nl(ensure_dnl(s.buf), spaces(indent_width(s.markers)));
        },
        TagKind::LineBreak => {
            lemma_ensure_nl_no_triple(s.buf);
            lemma_append_no_nl(ensure_nl(s.buf), spaces(indent_width(s.markers)));
        },
        TagKind::Blockquote => {
            lemma_ensure_nl_no_triple(s.buf);
        },
        TagKind::Anchor => {
            lemma_append_no_nl(s.buf, seq!['[']);
            assert(s.buf.push('[') =~= s.buf + seq!['[']);
        },
        TagKind::Image => {
            let alt = last_attr_value(attrs, "alt"@, "no alt text"@);
            let src = last_attr_value(attrs, "src"@, Seq::empty());
            lemma_default_alt_no_nl();
            lemma_last_attr_no_triple(attrs, "alt"@, "no alt text"@);
            lemma_last_attr_no_triple(attrs, "src"@, Seq::empty());
            lemma_append_no_nl(s.buf, seq!['!', '[']);
            lemma_concat_no_triple(s.buf + seq!['!', '['], alt);
            lemma_concat_no_triple(s.buf + seq!['!', '['] + alt, seq![']', '(']);
            lemma_concat_no_triple(s.buf + seq!['!', '['] + alt + seq![']', '('], src);
            lemma_concat_no_triple(s.buf + seq!['!', '['] + alt + seq![']', '('] + src, seq![')']);
        },
        TagKind::UnorderedList => {
            lemma_ensure_dnl_no_triple(s.buf);
        },
        TagKind::OrderedList => {
            lemma_ensure_dnl_no_triple(s.buf);
        },
        TagKind::ListItem => {
            if s.markers.len() > 0 {
                lemma_spaces_no_nl(indent_width(s.markers.drop_last()));
                lemma_marker_text_no_nl(s.markers.last());
                lemma_append_no_nl(s.buf, spaces(indent_width(s.markers.drop_last())));
                lemma_append_no_nl(
                    s.buf + spaces(indent_width(s.markers.drop_last())),
                    marker_text(s.markers.last()),
                );
            }
        },
        TagKind::Suppressed => {},
        TagKind::Other => {},
    }
}

/// The end hook keeps the buffer invariant.
pub proof fn lemma_end_tag_no_triple(s: ConvState, t: TagKind, attrs: Seq<Attr>)
    requires
        no_triple_nl(s.buf),
        attrs_ok(attrs),
    ensures
        no_triple_nl(end_tag(s, t, attrs).buf),
{
    match t {
        TagKind::Bold => {
            lemma_append_no_nl(s.buf, seq!['*', '*']);
        },
        TagKind::Emphasis => {
            lemma_append_no_nl(s.buf, seq!['*']);
            assert(s.buf.push('*') =~= s.buf + seq!['*']);
        },
        TagKind::Blockquote => {
            lemma_ensure_nl_no_triple(s.buf);
        },
        TagKind::Anchor => {
            let url = last_attr_value(attrs, "href"@, Seq::empty());
            lemma_last_attr_no_triple(attrs, "href"@, Seq::empty());
            lemma_append_no_nl(s.buf, seq![']', '(']);
            lemma_concat_no_triple(s.buf + seq![']', '('], url);
            lemma_concat_no_triple(s.buf + seq![']', '('] + url, seq![')']);
        },
        TagKind::UnorderedList => {
            lemma_ensure_dnl_no_triple(s.buf);
            lemma_append_no_nl(ensure_dnl(s.buf), spaces(indent_width(end_list(s).markers)));
        },
        TagKind::OrderedList => {
            lemma_ensure_dnl_no_triple(s.buf);
            lemma_append_no_nl(ensure_dnl(s.buf), spaces(indent_width(end_list(s).markers)));
        },
        TagKind::ListItem => {
            if s.markers.len() > 0 {
                lemma_ensure_nl_no_triple(s.buf);
            }
        },
        _ => {},
    }
}

/// The conversion of any tree keeps the buffer invariant, as long as the
/// tree's attribute values do not themselves stack three newlines.
pub proof fn lemma_conv_node_no_triple(s: ConvState, n: HtmlNode)
    requires
        no_triple_nl(s.buf),
        tree_attrs_ok(n),
    ensures
        no_triple_nl(conv_node(s, n).buf),
    decreases n,
{
    match n {
        HtmlNode::Comment => {},
        HtmlNode::Doctype => {},
        HtmlNode::ProcessingInstruction => {},
        HtmlNode::Text { text } => {
            lemma_emit_text_no_triple(s.buf, s.quotes, text@);
        },
        HtmlNode::Document { children } => {
            lemma_conv_nodes_no_triple(s, children@);
        },
        HtmlNode::Element { tag, attrs, children } => {
            let t = tag_kind(tag@);
            if t != TagKind::Suppressed {
                lemma_start_tag_no_triple(s, t, attrs@);
                lemma_conv_nodes_no_triple(start_tag(s, t, attrs@), children@);
                lemma_end_tag_no_triple(conv_nodes(start_tag(s, t, attrs@), children@), t, attrs@);
            }
        },
    }
}

pub proof fn lemma_conv_nodes_no_triple(s: ConvState, ns: Seq<HtmlNode>)
    requires
        no_triple_nl(s.buf),
        nodes_attrs_ok(ns),
    ensures
        no_triple_nl(conv_nodes(s, ns).buf),
    decreases ns,
{
    if ns.len() > 0 {
        lemma_conv_node_no_triple(s, ns.first());
        lemma_conv_nodes_no_triple(conv_node(s, ns.first()), ns.drop_first());
    }
}

/// The whole output of a conversion from scratch never holds three
/// consecutive newlines: blocks are separated by at most one blank line.
pub proof fn lemma_output_no_triple_newline(n: HtmlNode)
    requires
        tree_attrs_ok(n),
    ensures
        no_triple_nl(conv_node(init_state(), n).buf),
{
    lemma_conv_node_no_triple(init_state(), n);
}

/// Items of an ordered list are numbered consecutively in document order,
/// independent of their content: with the innermost marker reading `c`
/// before any item, the marker after the first `k` items have closed reads
/// `c + k` — so the items open with `"{c}. "`, `"{c+1}. "`, … in turn.
/// Content is free to write what it likes as long as it leaves the list
/// context as it found it (as balanced lists do).
pub proof fn lemma_ordered_items_numbered(s: ConvState, items: Seq<HtmlNode>, c: usize, k: int)
    requires
        0 <= k <= items.len(),
        s.markers.len() > 0,
        s.markers.last() == ListMarker::Ordered(c),
        c + items.len() <= usize::MAX,
        forall|j: int|
            0 <= j < items.len() ==> (#[trigger] items[j]) is Element && tag_kind(
                items[j]->Element_tag@,
            ) == TagKind::ListItem,
        forall|j: int, s2: ConvState|
            0 <= j < items.len() ==> (#[trigger] conv_nodes(
                s2,
                items[j]->Element_children@,
            )).markers == s2.markers,
    ensures
        conv_nodes(s, items.take(k)).markers == s.markers.drop_last().push(
            ListMarker::Ordered((c + k) as usize),
        ),
    decreases k,
{
    if k == 0 {
        assert(items.take(0) =~= Seq::<HtmlNode>::empty());
        assert(s.markers.drop_last().push(ListMarker::Ordered(c)) =~= s.markers);
    } else {
        lemma_ordered_items_numbered(s, items, c, k - 1);
        let sk = conv_nodes(s, items.take(k - 1));
        lemma_conv_nodes_snoc(s, items, k - 1);
        let item = items[k - 1];
        let t = tag_kind(item->Element_tag@);
        assert(t == TagKind::ListItem);
        let s1 = start_tag(sk, t, item->Element_attrs@);
        assert(s1.markers == sk.markers);
        let s2 = conv_nodes(s1, item->Element_children@);
        assert(s2.markers == s1.markers);
        let s3 = end_tag(s2, t, item->Element_attrs@);
        assert(conv_node(sk, item) == s3);
        assert(s2.markers.last() == ListMarker::Ordered((c + k - 1) as usize));
        assert(bump(ListMarker::Ordered((c + k - 1) as usize))
            == ListMarker::Ordered((c + k) as usize));
        assert(s3.markers == s2.markers.drop_last().push(ListMarker::Ordered((c + k) as usize)));
        assert(s2.markers.drop_last() =~= s.markers.drop_last());
    }
}

/// A link around whitespace-free text renders as `[text](href)`, with the
/// last `href` attribute's value as the target — empty when none is there.
pub proof fn lemma_anchor_text(s: ConvState, n: HtmlNode)
    requires
        n is Element,
        tag_kind(n->Element_tag@) == TagKind::Anchor,
        n->Element_children@.len() == 1,
        n->Element_children@[0] is Text,
        forall|i: int|
            0 <= i < n->Element_children@[0]->Text_text@.len() ==> !is_text_ws(
                n->Element_children@[0]->Text_text@[i],
            ),
        s.quotes == 0,
    ensures
        conv_node(s, n).buf == s.buf + seq!['['] + n->Element_children@[0]->Text_text@ + seq![
            ']',
            '(',
        ] + last_attr_value(n->Element_attrs@, "href"@, Seq::empty()) + seq![')'],
{
    let attrs = n->Element_attrs@;
    let kids = n->Element_children@;
    let t = kids[0]->Text_text@;
    let s1 = start_tag(s, TagKind::Anchor, attrs);
    assert(s1.buf == s.buf.push('['));
    assert(!ends_ws_or_empty(s1.buf));
    assert(s1.buf + quote_prefix(0) =~= s1.buf);
    lemma_collapse_ws_free(t, false);
    let s2 = conv_node(s1, kids[0]);
    assert(s2.buf == s1.buf + collapse(t, false));
    let rest = kids.drop_first();
    assert(rest =~= Seq::<HtmlNode>::empty());
    assert(conv_nodes(s2, rest) == s2);
    assert(kids.first() == kids[0]);
    assert(conv_nodes(s1, kids) == conv_nodes(conv_node(s1, kids.first()), rest));
    assert(conv_nodes(s1, kids) == conv_node(s1, kids[0]));
    let s3 = end_tag(s2, TagKind::Anchor, attrs);
    assert(conv_node(s, n) == s3);
    assert(s3.buf =~= s.buf + seq!['['] + t + seq![']', '('] + last_attr_value(
        attrs,
        "href"@,
        Seq::empty(),
    ) + seq![')']);
}

/// A blockquoted paragraph of plain text renders as the prefix `"> "`
/// immediately followed by the text, then a closing newline.
pub proof fn lemma_blockquote_paragraph(n: HtmlNode)
    requires
        n is Element,
        tag_kind(n->Element_tag@) == TagKind::Blockquote,
        n->Element_children@.len() == 1,
        n->Element_children@[0] is Element,
        tag_kind(n->Element_children@[0]->Element_tag@) == TagKind::Paragraph,
        n->Element_children@[0]->Element_children@.len() == 1,
        n->Element_children@[0]->Element_children@[0] is Text,
        n->Element_children@[0]->Element_children@[0]->Text_text@.len() > 0,
        forall|i: int|
            0 <= i < n->Element_children@[0]->Element_children@[0]->Text_text@.len() ==> (
            !is_text_ws(n->Element_children@[0]->Element_children@[0]->Text_text@[i])
                && !is_trim_ws(n->Element_children@[0]->Element_children@[0]->Text_text@[i])),
    ensures
        conv_node(init_state(), n).buf == seq!['>', ' ']
            + n->Element_children@[0]->Element_children@[0]->Text_text@ + seq!['\n'],
{
    let p = n->Element_children@[0];
    let t = p->Element_children@[0]->Text_text@;
    let s0 = init_state();
    let s1 = start_tag(s0, TagKind::Blockquote, n->Element_attrs@);
    assert(trim_ws(s0.buf) =~= s0.buf);
    assert(s1.buf =~= Seq::<char>::empty());
    assert(s1.quotes == 1);
    let s2 = start_tag(s1, TagKind::Paragraph, p->Element_attrs@);
    assert(s2.buf =~= Seq::<char>::empty());
    assert(s2.quotes == 1);
    let b = s2.buf + quote_prefix(1);
    assert(b =~= seq!['>', ' ']);
    assert(ends_ws_or_empty(b));
    lemma_collapse_ws_free(t, true);
    let s3 = conv_node(s2, p->Element_children@[0]);
    let prest = p->Element_children@.drop_first();
    assert(prest =~= Seq::<HtmlNode>::empty());
    assert(conv_nodes(s3, prest) == s3);
    assert(p->Element_children@.first() == p->Element_children@[0]);
    assert(conv_nodes(s2, p->Element_children@) == conv_nodes(
        conv_node(s2, p->Element_children@.first()),
        prest,
    ));
    assert(conv_nodes(s2, p->Element_children@) == s3);
    assert(s3.buf == b + t);
    let s4 = end_tag(s3, TagKind::Paragraph, p->Element_attrs@);
    assert(s4 == s3);
    assert(conv_node(s1, p) == s4);
    let nrest = n->Element_children@.drop_first();
    assert(nrest =~= Seq::<HtmlNode>::empty());
    assert(conv_nodes(s4, nrest) == s4);
    assert(n->Element_children@.first() == p);
    assert(conv_nodes(s1, n->Element_children@) == conv_nodes(
        conv_node(s1, n->Element_children@.first()),
        nrest,
    ));
    assert(conv_nodes(s1, n->Element_children@) == conv_node(s1, p));
    let s5 = end_tag(s4, TagKind::Blockquote, n->Element_attrs@);
    assert(conv_node(s0, n) == s5);
    assert(trim_ws(s4.buf) =~= s4.buf) by {
        assert(s4.buf.len() > 0);
        assert(s4.buf.last() == t.last());
        assert(!is_trim_ws(s4.buf.last()));
    }
    assert(s4.buf.last() == t.last());
    assert(s4.buf.last() != '\n');
    assert(s5.buf =~= seq!['>', ' '] + t + seq!['\n']);
}

} // verus!
