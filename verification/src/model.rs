use vstd::prelude::*;

use crate::chars::lower_seq;
use crate::dom::{Attr, HtmlNode};

verus! {

/// One frame of the list-context stack: an unordered bullet, or an ordered
/// counter. The counter starts at 1 and is bumped each time a list item at
/// that level closes; it never decreases and is never reset mid-list.
#[derive(Clone, Copy, PartialEq, Eq, Structural, Debug)]
pub enum ListMarker {
    Bullet,
    Ordered(usize),
}

/// The recognized element kinds, after ASCII-lowercasing the tag name.
/// `Suppressed` covers `head`, `style` and `script`, whose whole subtree is
/// skipped; `Other` is any unrecognized tag, which is passed through with no
/// added markup.
#[derive(Clone, Copy, PartialEq, Eq, Structural, Debug)]
pub enum TagKind {
    Bold,
    Emphasis,
    Paragraph,
    LineBreak,
    Blockquote,
    Anchor,
    Image,
    UnorderedList,
    OrderedList,
    ListItem,
    Suppressed,
    Other,
}

/// The converter's state as the contracts see it: the output buffer, the
/// blockquote nesting depth (each level contributes one `>` to the prefix
/// of a text run), and the list-marker stack.
pub struct ConvState {
    pub buf: Seq<char>,
    pub quotes: nat,
    pub markers: Seq<ListMarker>,
}

/// The state a fresh converter starts in: everything empty.
pub open spec fn init_state() -> ConvState {
    ConvState { buf: Seq::empty(), quotes: 0, markers: Seq::empty() }
}

pub open spec fn with_buf(s: ConvState, b: Seq<char>) -> ConvState {
    ConvState { buf: b, quotes: s.quotes, markers: s.markers }
}

/// Classification of a tag name; matching is case-insensitive.
pub open spec fn tag_kind(tag: Seq<char>) -> TagKind {
    let t = lower_seq(tag);
    if t == "head"@ || t == "style"@ || t == "script"@ {
        TagKind::Suppressed
    } else if t == "b"@ || t == "strong"@ {
        TagKind::Bold
    } else if t == "i"@ || t == "em"@ {
        TagKind::Emphasis
    } else if t == "p"@ || t == "div"@ {
        TagKind::Paragraph
    } else if t == "br"@ {
        TagKind::LineBreak
    } else if t == "blockquote"@ {
        TagKind::Blockquote
    } else if t == "a"@ {
        TagKind::Anchor
    } else if t == "img"@ {
        TagKind::Image
    } else if t == "ul"@ {
        TagKind::UnorderedList
    } else if t == "ol"@ {
        TagKind::OrderedList
    } else if t == "li"@ {
        TagKind::ListItem
    } else {
        TagKind::Other
    }
}

/// The decimal digit character for a value below ten.
pub open spec fn digit_char(d: nat) -> char
    recommends
        d < 10,
{
    ((48 + d) as u8) as char
}

/// The decimal representation of a number, most significant digit first.
pub open spec fn dec_rep(n: nat) -> Seq<char>
    decreases n,
{
    if n < 10 {
        seq![digit_char(n)]
    } else {
        dec_rep(n / 10).push(digit_char(n % 10))
    }
}

/// The literal text of a list marker: `"* "` for a bullet, `"{n}. "` for an
/// ordered counter.
pub open spec fn marker_text(m: ListMarker) -> Seq<char> {
    match m {
        ListMarker::Bullet => seq!['*', ' '],
        ListMarker::Ordered(n) => dec_rep(n as nat) + seq!['.', ' '],
    }
}

/// The continuation-indent contribution of one marker: two columns under a
/// bullet, three under an ordered marker, whatever the counter's digit count.
pub open spec fn marker_width(m: ListMarker) -> nat {
    match m {
        ListMarker::Bullet => 2,
        ListMarker::Ordered(_) => 3,
    }
}

/// The continuation-indent width of a marker stack: the markers' widths
/// summed in stack order.
pub open spec fn indent_width(ms: Seq<ListMarker>) -> nat
    decreases ms.len(),
{
    if ms.len() == 0 {
        0
    } else {
        indent_width(ms.drop_last()) + marker_width(ms.last())
    }
}

/// A run of space characters.
pub open spec fn spaces(n: nat) -> Seq<char> {
    Seq::new(n, |i: int| ' ')
}

/// The whitespace that trailing trims remove: spaces and tabs.
pub open spec fn is_trim_ws(c: char) -> bool {
    c == ' ' || c == '\t'
}

/// The buffer with trailing spaces and tabs removed.
pub open spec fn trim_ws(s: Seq<char>) -> Seq<char>
    decreases s.len(),
{
    if s.len() > 0 && is_trim_ws(s.last()) {
        trim_ws(s.drop_last())
    } else {
        s
    }
}

/// Trailing whitespace trimmed, then exactly one newline at the end —
/// except that an empty buffer stays empty.
pub open spec fn ensure_nl(s: Seq<char>) -> Seq<char> {
    let t = trim_ws(s);
    if t.len() == 0 || t.last() == '\n' {
        t
    } else {
        t.push('\n')
    }
}

pub open spec fn ends_double_nl(t: Seq<char>) -> bool {
    t.len() >= 2 && t[t.len() - 2] == '\n' && t[t.len() - 1] == '\n'
}

/// Trailing whitespace trimmed, then at least two newlines at the end —
/// except that an empty buffer stays empty, and a buffer already ending in
/// two newlines is left alone.
pub open spec fn ensure_dnl(s: Seq<char>) -> Seq<char> {
    let t = trim_ws(s);
    if ends_double_nl(t) {
        t
    } else if t.len() > 0 && t.last() == '\n' {
        t.push('\n')
    } else if t.len() == 0 {
        t
    } else {
        t.push('\n').push('\n')
    }
}

/// The blockquote prefix injected before a text run: one `>` per nesting
/// level, then a single separating space; nothing at depth zero.
pub open spec fn quote_prefix(q: nat) -> Seq<char> {
    if q == 0 {
        Seq::empty()
    } else {
        Seq::new(q, |i: int| '>') + seq![' ']
    }
}

/// The whitespace that text normalization collapses: spaces and newlines.
pub open spec fn is_text_ws(c: char) -> bool {
    c == ' ' || c == '\n'
}

/// Whitespace collapse over a text run: any run of spaces and newlines
/// becomes a single space, and is dropped entirely when the previously
/// emitted character was already whitespace (`prev_ws`).
pub open spec fn collapse(text: Seq<char>, prev_ws: bool) -> Seq<char>
    decreases text.len(),
{
    if text.len() == 0 {
        Seq::empty()
    } else if is_text_ws(text.first()) {
        if prev_ws {
            collapse(text.drop_first(), true)
        } else {
            seq![' '] + collapse(text.drop_first(), true)
        }
    } else {
        seq![text.first()] + collapse(text.drop_first(), false)
    }
}

/// Whether the last character counts as whitespace for collapse purposes;
/// an empty buffer counts too, so output never begins with a space.
pub open spec fn ends_ws_or_empty(s: Seq<char>) -> bool {
    s.len() == 0 || s.last() == ' ' || s.last() == '\n'
}

/// What a text node adds to the buffer: the blockquote prefix, then the
/// collapsed text, whose leading whitespace is suppressed when the buffer
/// (prefix included) already ends in whitespace or is empty.
pub open spec fn emit_text(buf: Seq<char>, q: nat, text: Seq<char>) -> Seq<char> {
    let b = buf + quote_prefix(q);
    b + collapse(text, ends_ws_or_empty(b))
}

/// Whether an attribute has the given (lowercase) name; names are compared
/// case-insensitively.
pub open spec fn attr_named(a: Attr, name: Seq<char>) -> bool {
    lower_seq(a.name@) == name
}

/// The value of the last attribute with the given name, or the default when
/// none is present. The last occurrence wins on malformed duplicates.
pub open spec fn last_attr_value(attrs: Seq<Attr>, name: Seq<char>, dflt: Seq<char>) -> Seq<char>
    decreases attrs.len(),
{
    if attrs.len() == 0 {
        dflt
    } else if attr_named(attrs.last(), name) {
        attrs.last().value@
    } else {
        last_attr_value(attrs.drop_last(), name, dflt)
    }
}

/// Whether a suffix stands at the end of a buffer.
pub open spec fn seq_ends_with(s: Seq<char>, suffix: Seq<char>) -> bool {
    suffix.len() <= s.len() && s.skip(s.len() - suffix.len()) == suffix
}

/// The dedup guard: a paragraph or line break right after a freshly emitted
/// list marker inserts nothing, so the item's first block stays on the
/// marker's line.
pub open spec fn para_guard(s: ConvState) -> bool {
    s.markers.len() > 0 && seq_ends_with(s.buf, marker_text(s.markers.last()))
}

/// An ordered counter one higher, saturating at the machine word; a bullet
/// is unchanged.
pub open spec fn bump(m: ListMarker) -> ListMarker {
    match m {
        ListMarker::Bullet => ListMarker::Bullet,
        ListMarker::Ordered(n) => ListMarker::Ordered(
            if n < usize::MAX {
                (n + 1) as usize
            } else {
                n
            },
        ),
    }
}

/// A nesting depth one deeper, saturating at the machine word.
pub open spec fn inc_sat(q: nat) -> nat {
    if q < usize::MAX {
        q + 1
    } else {
        q
    }
}

/// The start-tag hook: what the converter does on entering an element,
/// before its children are visited.
pub open spec fn start_tag(s: ConvState, t: TagKind, attrs: Seq<Attr>) -> ConvState {
    match t {
        TagKind::Bold => with_buf(s, s.buf + seq!['*', '*']),
        TagKind::Emphasis => with_buf(s, s.buf.push('*')),
        TagKind::Paragraph => if para_guard(s) {
            s
        } else {
            with_buf(s, ensure_dnl(s.buf) + spaces(indent_width(s.markers)))
        },
        TagKind::LineBreak => if para_guard(s) {
            s
        } else {
            with_buf(s, ensure_nl(s.buf) + spaces(indent_width(s.markers)))
        },
        TagKind::Blockquote => ConvState {
            buf: ensure_nl(s.buf),
            quotes: inc_sat(s.quotes),
            markers: s.markers,
        },
        TagKind::Anchor => with_buf(s, s.buf.push('[')),
        TagKind::Image => with_buf(
            s,
            s.buf + seq!['!', '['] + last_attr_value(attrs, "alt"@, "no alt text"@) + seq![
                ']',
                '(',
            ] + last_attr_value(attrs, "src"@, Seq::empty()) + seq![')'],
        ),
        TagKind::UnorderedList => ConvState {
            buf: ensure_dnl(s.buf),
            quotes: s.quotes,
            markers: s.markers.push(ListMarker::Bullet),
        },
        TagKind::OrderedList => ConvState {
            buf: ensure_dnl(s.buf),
            quotes: s.quotes,
            markers: s.markers.push(ListMarker::Ordered(1)),
        },
        TagKind::ListItem => if s.markers.len() == 0 {
            s
        } else {
            with_buf(
                s,
                s.buf + spaces(indent_width(s.markers.drop_last())) + marker_text(
                    s.markers.last(),
                ),
            )
        },
        TagKind::Suppressed => s,
        TagKind::Other => s,
    }
}

/// The end-tag hook: what the converter does on leaving an element, after
/// its children have been visited.
pub open spec fn end_tag(s: ConvState, t: TagKind, attrs: Seq<Attr>) -> ConvState {
    match t {
        TagKind::Bold => with_buf(s, s.buf + seq!['*', '*']),
        TagKind::Emphasis => with_buf(s, s.buf.push('*')),
        TagKind::Blockquote => ConvState {
            buf: ensure_nl(s.buf),
            quotes: if s.quotes > 0 {
                (s.quotes - 1) as nat
            } else {
                0
            },
            markers: s.markers,
        },
        TagKind::Anchor => with_buf(
            s,
            s.buf + seq![']', '('] + last_attr_value(attrs, "href"@, Seq::empty()) + seq![')'],
        ),
        TagKind::UnorderedList => end_list(s),
        TagKind::OrderedList => end_list(s),
        TagKind::ListItem => if s.markers.len() == 0 {
            s
        } else {
            ConvState {
                buf: ensure_nl(s.buf),
                quotes: s.quotes,
                markers: s.markers.drop_last().push(bump(s.markers.last())),
            }
        },
        _ => s,
    }
}

/// Closing a list: the separating blank line, the marker popped, and the
/// continuation indent of the remaining (outer) levels appended.
pub open spec fn end_list(s: ConvState) -> ConvState {
    let ms = if s.markers.len() > 0 {
        s.markers.drop_last()
    } else {
        s.markers
    };
    ConvState { buf: ensure_dnl(s.buf) + spaces(indent_width(ms)), quotes: s.quotes, markers: ms }
}

/// The whole conversion of one node: what the depth-first walk does to the
/// converter state.
pub open spec fn conv_node(s: ConvState, n: HtmlNode) -> ConvState
    decreases n,
{
    match n {
        HtmlNode::Comment => s,
        HtmlNode::Doctype => s,
        HtmlNode::ProcessingInstruction => s,
        HtmlNode::Text { text } => with_buf(s, emit_text(s.buf, s.quotes, text@)),
        HtmlNode::Document { children } => conv_nodes(s, children@),
        HtmlNode::Element { tag, attrs, children } => {
            let t = tag_kind(tag@);
            if t == TagKind::Suppressed {
                s
            } else {
                end_tag(conv_nodes(start_tag(s, t, attrs@), children@), t, attrs@)
            }
        },
    }
}

/// The conversion of a sequence of sibling nodes, left to right.
pub open spec fn conv_nodes(s: ConvState, ns: Seq<HtmlNode>) -> ConvState
    decreases ns,
{
    if ns.len() == 0 {
        s
    } else {
        conv_nodes(conv_node(s, ns.first()), ns.drop_first())
    }
}

/// Converting siblings one more node at a time: the walk's loop step.
pub proof fn lemma_conv_nodes_snoc(s: ConvState, ns: Seq<HtmlNode>, i: int)
    requires
        0 <= i < ns.len(),
    ensures
        conv_nodes(s, ns.take(i + 1)) == conv_node(conv_nodes(s, ns.take(i)), ns[i]),
    decreases i,
{
    if i == 0 {
        assert(ns.take(1).drop_first() =~= Seq::<HtmlNode>::empty());
        assert(ns.take(1).first() == ns[0]);
        assert(ns.take(0) =~= Seq::<HtmlNode>::empty());
        assert(conv_nodes(s, ns.take(0)) == s);
        assert(conv_nodes(s, ns.take(1)) == conv_nodes(conv_node(s, ns[0]), ns.take(1).drop_first()));
        assert(conv_nodes(s, ns.take(1)) == conv_node(s, ns[0]));
    } else {
        let s1 = conv_node(s, ns[0]);
        let dns = ns.drop_first();
        lemma_conv_nodes_snoc(s1, dns, i - 1);
        assert(ns.take(i + 1).first() == ns[0]);
        assert(ns.take(i + 1).drop_first() =~= dns.take(i));
        assert(conv_nodes(s, ns.take(i + 1)) == conv_nodes(s1, dns.take(i)));
        assert(ns.take(i).first() == ns[0]);
        assert(ns.take(i).drop_first() =~= dns.take(i - 1));
        assert(conv_nodes(s, ns.take(i)) == conv_nodes(s1, dns.take(i - 1)));
        assert(dns[i - 1] == ns[i]);
    }
}

} // verus!
