//! A textual dump of a node tree, for debugging: one line per node, children
//! indented under their parent, elements closed after their children.
use vstd::prelude::*;
use crate::text::{
    chars_of, decimal, digits_value, is_digit_of, law_hexadecimal_is_the_numeral, digit_char, hexadecimal, is_whitespace, push_char, push_decimal,
    push_hexadecimal, push_str, white_space,
};

verus! {

broadcast use vstd::seq_lib::group_seq_properties;

/// The text of a text node.
#[derive(Debug)]
pub struct TextNodeData {
    pub content: String,
}

/// An attribute of an element: its local name and its value.
#[derive(Debug)]
pub struct Attribute {
    pub name: String,
    pub value: String,
}

/// An element: its local name and its attributes, in order.
#[derive(Debug)]
pub struct ElementData {
    pub name: String,
    pub attrs: Vec<Attribute>,
}

/// What a node is.
#[derive(Debug)]
pub enum NodeData {
    Document,
    Text(TextNodeData),
    Comment,
    AnonymousBlock(ElementData),
    Element(ElementData),
}

/// A node of the tree: its id, what it is, and its children in order.
#[derive(Debug)]
pub struct Node {
    pub id: usize,
    pub data: NodeData,
    pub children: Vec<Node>,
}

// ----- characters -----

/// The ASCII whitespace characters: space, tab, line feed, form feed and
/// carriage return.
pub open spec fn is_ascii_whitespace(c: char) -> bool {
    c == ' ' || c == '\t' || c == '\n' || c == '\x0C' || c == '\r'
}

fn ascii_whitespace(c: char) -> (res: bool)
    ensures
        res == is_ascii_whitespace(c),
{
    c == ' ' || c == '\t' || c == '\n' || c == '\x0C' || c == '\r'
}

/// Whether every character is ASCII whitespace (true of the empty text).
pub open spec fn all_ascii_whitespace(s: Seq<char>) -> bool {
    forall|i: int| 0 <= i < s.len() ==> is_ascii_whitespace(#[trigger] s[i])
}

/// The text without its leading whitespace.
pub open spec fn trim_start(s: Seq<char>) -> Seq<char>
    decreases s.len(),
{
    if s.len() > 0 && white_space(s[0]) {
        trim_start(s.drop_first())
    } else {
        s
    }
}

/// The text without its trailing whitespace.
pub open spec fn trim_end(s: Seq<char>) -> Seq<char>
    decreases s.len(),
{
    if s.len() > 0 && white_space(s.last()) {
        trim_end(s.drop_last())
    } else {
        s
    }
}

/// The text without leading and trailing whitespace.
pub open spec fn trimmed(s: Seq<char>) -> Seq<char> {
    trim_end(trim_start(s))
}

/// The number of bytes of a character in UTF-8.
pub open spec fn utf8_width(c: char) -> nat {
    if (c as u32) < 0x80 {
        1
    } else if (c as u32) < 0x800 {
        2
    } else if (c as u32) < 0x10000 {
        3
    } else {
        4
    }
}

/// The number of bytes of a text in UTF-8.
pub open spec fn utf8_len(s: Seq<char>) -> nat
    decreases s.len(),
{
    if s.len() == 0 {
        0
    } else {
        utf8_len(s.drop_last()) + utf8_width(s.last())
    }
}

/// The escape of one character, as `char::escape_default` documents it: tab,
/// carriage return and line feed as `\t`, `\r`, `\n`; single quote, double
/// quote and backslash preceded by a backslash; other printable ASCII
/// characters (0x20 to 0x7e) as themselves; every other character as
/// `\u{NNNN}`, with its code point in hexadecimal.
pub open spec fn escaped_char(c: char) -> Seq<char> {
    if c == '\t' {
        seq!['\\', 't']
    } else if c == '\r' {
        seq!['\\', 'r']
    } else if c == '\n' {
        seq!['\\', 'n']
    } else if c == '\'' || c == '"' || c == '\\' {
        seq!['\\', c]
    } else if 0x20 <= (c as u32) <= 0x7e {
        seq![c]
    } else {
        seq!['\\', 'u', '{'] + hexadecimal(c as nat) + seq!['}']
    }
}

/// Every character of a text escaped, in order.
pub open spec fn escaped(s: Seq<char>) -> Seq<char>
    decreases s.len(),
{
    if s.len() == 0 {
        Seq::empty()
    } else {
        escaped(s.drop_last()) + escaped_char(s.last())
    }
}

/// `n` spaces.
pub open spec fn spaces(n: nat) -> Seq<char> {
    Seq::new(n, |i: int| ' ')
}

// ----- lines -----

/// The line shown for a text node whose content is `text`: the trimmed text,
/// escaped; where the trimmed text is longer than 10 bytes, only the
/// characters before the tenth (or before the last, if it has fewer than
/// ten), followed by `...`.
pub open spec fn text_line(id: nat, text: Seq<char>) -> Seq<char> {
    if all_ascii_whitespace(text) {
        decimal(id) + " #text: <whitespace>"@
    } else {
        let content = trimmed(text);
        if utf8_len(content) > 10 {
            let shown = if content.len() >= 10 { 9 } else { content.len() - 1 };
            "#text "@ + decimal(id) + ": "@ + escaped(content.take(shown)) + "..."@
        } else {
            "#text "@ + decimal(id) + ": "@ + escaped(content)
        }
    }
}

/// ` name="value"` for each attribute, in order.
pub open spec fn attrs_text(attrs: Seq<Attribute>) -> Seq<char>
    decreases attrs.len(),
{
    if attrs.len() == 0 {
        Seq::empty()
    } else {
        attrs_text(attrs.drop_last()) + " "@ + attrs.last().name@ + "=\""@ + attrs.last().value@
            + "\""@
    }
}

/// The line shown for a node, without its indentation or line break.
pub open spec fn node_line(node: Node) -> Seq<char> {
    match node.data {
        NodeData::Document => "#Document "@ + decimal(node.id as nat),
        NodeData::Text(t) => text_line(node.id as nat, t.content@),
        NodeData::Comment => "<!-- COMMENT "@ + decimal(node.id as nat) + " -->"@,
        NodeData::AnonymousBlock(_) => decimal(node.id as nat) + " AnonymousBlock"@,
        NodeData::Element(e) => "<"@ + e.name@ + " "@ + decimal(node.id as nat) + attrs_text(
            e.attrs@,
        ) + if node.children@.len() > 0 {
            ">"@
        } else {
            "/>"@
        },
    }
}

/// Whether a node is a text node holding only ASCII whitespace; such nodes
/// are left out of the dump, with their children.
pub open spec fn is_blank_text(node: Node) -> bool {
    node.data matches NodeData::Text(t) && all_ascii_whitespace(t.content@)
}

/// The dump of a node indented by `indent`: its line, then its children
/// indented two more, then (for an element with children) its closing tag.
pub open spec fn node_text(indent: nat, node: Node) -> Seq<char>
    decreases node,
{
    if is_blank_text(node) {
        Seq::empty()
    } else {
        let closing = if node.children@.len() > 0 && node.data is Element {
            spaces(indent) + "</"@ + node.data->Element_0.name@ + ">\n"@
        } else {
            Seq::empty()
        };
        spaces(indent) + node_line(node) + "\n"@ + forest_text(indent + 2, node.children@) + closing
    }
}

/// The dumps of nodes, one after the other.
pub open spec fn forest_text(indent: nat, nodes: Seq<Node>) -> Seq<char>
    decreases nodes,
{
    if nodes.len() == 0 {
        Seq::empty()
    } else {
        forest_text(indent, nodes.drop_last()) + node_text(indent, nodes.last())
    }
}

/// Law: a text node holding only ASCII whitespace is left out of the dump
/// entirely, whatever its indentation.
pub proof fn law_blank_text_is_left_out(indent: nat, node: Node)
    requires
        is_blank_text(node),
    ensures
        node_text(indent, node) == Seq::<char>::empty(),
{
}

/// Law: a dump that is not empty starts with the node's indentation and
/// line, and ends with a line break.
pub proof fn law_dump_starts_with_the_node_line(indent: nat, node: Node)
    requires
        !is_blank_text(node),
    ensures
        node_text(indent, node).take((indent + node_line(node).len() + 1) as int) == spaces(indent)
            + node_line(node) + "\n"@,
        node_text(indent, node).last() == '\n',
    decreases node,
{
    let head = spaces(indent) + node_line(node) + "\n"@;
    let rest = forest_text(indent + 2, node.children@);
    let closing = if node.children@.len() > 0 && node.data is Element {
        spaces(indent) + "</"@ + node.data->Element_0.name@ + ">\n"@
    } else {
        Seq::empty()
    };
    reveal_strlit("\n");
    reveal_strlit(">\n");
    assert(head.len() == indent + node_line(node).len() + 1);
    assert(node_text(indent, node) == head + rest + closing);
    assert((head + rest + closing).take(head.len() as int) =~= head);
    if closing.len() == 0 {
        lemma_forest_text_ends_with_line_break(indent + 2, node.children@);
    }
}

proof fn lemma_forest_text_ends_with_line_break(indent: nat, nodes: Seq<Node>)
    ensures
        forest_text(indent, nodes).len() == 0 || forest_text(indent, nodes).last() == '\n',
    decreases nodes,
{
    if nodes.len() > 0 {
        lemma_forest_text_ends_with_line_break(indent, nodes.drop_last());
        let last = nodes.last();
        if !is_blank_text(last) {
            law_dump_starts_with_the_node_line(indent, last);
        }
    }
}

/// Law: an element's line is `<`, its name, a space, its id, then every
/// attribute as ` name="value"` in order, whether or not the element has
/// children; only the ending differs: `>` with children, `/>` without.
pub proof fn law_element_line(node: Node)
    requires
        node.data is Element,
    ensures
        ({
            let e = node.data->Element_0;
            let head = "<"@ + e.name@ + " "@ + decimal(node.id as nat) + attrs_text(e.attrs@);
            &&& node_line(node).take(head.len() as int) == head
            &&& node_line(node).skip(head.len() as int) == if node.children@.len() > 0 {
                ">"@
            } else {
                "/>"@
            }
        }),
{
    let e = node.data->Element_0;
    let head = "<"@ + e.name@ + " "@ + decimal(node.id as nat) + attrs_text(e.attrs@);
    let tail = if node.children@.len() > 0 { ">"@ } else { "/>"@ };
    assert(node_line(node) == head + tail);
    assert((head + tail).take(head.len() as int) =~= head);
    assert((head + tail).skip(head.len() as int) =~= tail);
}

/// Law: a single attribute is written ` name="value"`.
pub proof fn law_attribute_text(a: Attribute)
    ensures
        attrs_text(seq![a]) == " "@ + a.name@ + "=\""@ + a.value@ + "\""@,
{
    assert(seq![a].drop_last() =~= Seq::<Attribute>::empty());
    assert(seq![a].last() == a);
    assert(attrs_text(Seq::<Attribute>::empty()) =~= Seq::<char>::empty());
    assert(attrs_text(seq![a]) =~= " "@ + a.name@ + "=\""@ + a.value@ + "\""@);
}

/// Law: the attribute text of two attribute lists one after the other is
/// the text of the first followed by the text of the second.
pub proof fn law_attributes_text_concatenates(a: Seq<Attribute>, b: Seq<Attribute>)
    ensures
        attrs_text(a + b) == attrs_text(a) + attrs_text(b),
    decreases b.len(),
{
    if b.len() == 0 {
        assert(a + b =~= a);
        assert(attrs_text(b) =~= Seq::<char>::empty());
        assert(attrs_text(a) + attrs_text(b) =~= attrs_text(a));
    } else {
        law_attributes_text_concatenates(a, b.drop_last());
        assert((a + b).drop_last() =~= a + b.drop_last());
        assert((a + b).last() == b.last());
        let x = b.last();
        let t = " "@ + x.name@ + "=\""@ + x.value@ + "\""@;
        assert(attrs_text(a) + attrs_text(b.drop_last()) + t =~= attrs_text(a) + (attrs_text(
            b.drop_last(),
        ) + t));
    }
}

/// Law: printable ASCII characters other than quotes and backslash are shown
/// as themselves; tab, carriage return and line feed as a backslash and
/// `t`, `r`, `n`; quotes and backslash behind a backslash; every other
/// character as `\u{` followed by the hexadecimal numeral of its code point
/// and `}`.
pub proof fn law_escaped_char(c: char)
    ensures
        0x20 <= c as u32 <= 0x7e && c != '\'' && c != '"' && c != '\\' ==> escaped_char(c) == seq![c],
        c == '\t' ==> escaped_char(c) == seq!['\\', 't'],
        c == '\r' ==> escaped_char(c) == seq!['\\', 'r'],
        c == '\n' ==> escaped_char(c) == seq!['\\', 'n'],
        c == '\'' || c == '"' || c == '\\' ==> escaped_char(c) == seq!['\\', c],
        !(0x20 <= c as u32 <= 0x7e) && c != '\t' && c != '\r' && c != '\n' ==> {
            let e = escaped_char(c);
            &&& e.take(3) == seq!['\\', 'u', '{']
            &&& e.last() == '}'
            &&& digits_value(e.subrange(3, e.len() - 1), 16) == c as int
            &&& forall|i: int| 3 <= i < e.len() - 1 ==> is_digit_of(#[trigger] e[i], 16)
        },
{
    if !(0x20 <= c as u32 <= 0x7e) && c != '\t' && c != '\r' && c != '\n' {
        let h = hexadecimal(c as nat);
        law_hexadecimal_is_the_numeral(c as nat);
        let e = seq!['\\', 'u', '{'] + h + seq!['}'];
        assert(escaped_char(c) == e);
        assert(e.take(3) =~= seq!['\\', 'u', '{']);
        assert(e.subrange(3, e.len() - 1) =~= h);
        assert forall|i: int| 3 <= i < e.len() - 1 implies is_digit_of(#[trigger] e[i], 16) by {
            assert(e[i] == h[i - 3]);
        }
    }
}

/// Law: escaping a text escapes each piece of it on its own.
pub proof fn law_escaping_concatenates(a: Seq<char>, b: Seq<char>)
    ensures
        escaped(a + b) == escaped(a) + escaped(b),
    decreases b.len(),
{
    if b.len() == 0 {
        assert(a + b =~= a);
        assert(escaped(a) + escaped(b) =~= escaped(a));
    } else {
        law_escaping_concatenates(a, b.drop_last());
        assert((a + b).drop_last() =~= a + b.drop_last());
        assert((a + b).last() == b.last());
        assert(escaped(a) + escaped(b.drop_last()) + escaped_char(b.last()) =~= escaped(a) + (escaped(
            b.drop_last(),
        ) + escaped_char(b.last())));
    }
}

proof fn lemma_trim_start(s: Seq<char>)
    ensures
        exists|a: int|
            0 <= a <= s.len() && trim_start(s) == s.subrange(a, s.len() as int) && (forall|i: int|
                0 <= i < a ==> white_space(#[trigger] s[i])),
        trim_start(s).len() > 0 ==> !white_space(trim_start(s)[0]),
    decreases s.len(),
{
    if s.len() > 0 && white_space(s[0]) {
        let r = s.drop_first();
        lemma_trim_start(r);
        let a = choose|a: int|
            0 <= a <= r.len() && trim_start(r) == r.subrange(a, r.len() as int) && (forall|i: int|
                0 <= i < a ==> white_space(#[trigger] r[i]));
        assert(trim_start(s) == s.subrange(a + 1, s.len() as int));
        assert forall|i: int| 0 <= i < a + 1 implies white_space(#[trigger] s[i]) by {
            if i > 0 {
                assert(s[i] == r[i - 1]);
            }
        }
    } else {
        assert(trim_start(s) == s.subrange(0, s.len() as int));
    }
}

proof fn lemma_trim_end(s: Seq<char>)
    ensures
        exists|b: int|
            0 <= b <= s.len() && trim_end(s) == s.subrange(0, b) && (forall|i: int|
                b <= i < s.len() ==> white_space(#[trigger] s[i])),
        trim_end(s).len() > 0 ==> !white_space(trim_end(s).last()),
    decreases s.len(),
{
    if s.len() > 0 && white_space(s.last()) {
        let r = s.drop_last();
        lemma_trim_end(r);
        let b = choose|b: int|
            0 <= b <= r.len() && trim_end(r) == r.subrange(0, b) && (forall|i: int|
                b <= i < r.len() ==> white_space(#[trigger] r[i]));
        assert(trim_end(s) == s.subrange(0, b));
        assert forall|i: int| b <= i < s.len() implies white_space(#[trigger] s[i]) by {
            if i < s.len() - 1 {
                assert(s[i] == r[i]);
            }
        }
    } else {
        assert(trim_end(s) == s.subrange(0, s.len() as int));
    }
}

/// Law: the trimmed text is a contiguous piece of the text, everything cut
/// away before and after it is whitespace, and it neither starts nor ends
/// with whitespace.
pub proof fn law_trimmed_text(s: Seq<char>)
    ensures
        exists|a: int, b: int|
            0 <= a <= b <= s.len() && trimmed(s) == s.subrange(a, b) && (forall|i: int|
                0 <= i < a ==> white_space(#[trigger] s[i])) && (forall|i: int|
                b <= i < s.len() ==> white_space(#[trigger] s[i])),
        trimmed(s).len() > 0 ==> !white_space(trimmed(s)[0]) && !white_space(trimmed(s).last()),
{
    lemma_trim_start(s);
    let a = choose|a: int|
        0 <= a <= s.len() && trim_start(s) == s.subrange(a, s.len() as int) && (forall|i: int|
            0 <= i < a ==> white_space(#[trigger] s[i]));
    let t = trim_start(s);
    lemma_trim_end(t);
    let b = choose|b: int|
        0 <= b <= t.len() && trim_end(t) == t.subrange(0, b) && (forall|i: int|
            b <= i < t.len() ==> white_space(#[trigger] t[i]));
    assert(trimmed(s) == s.subrange(a, a + b));
    assert forall|i: int| a + b <= i < s.len() implies white_space(#[trigger] s[i]) by {
        assert(s[i] == t[i - a]);
    }
    if trimmed(s).len() > 0 {
        assert(trimmed(s)[0] == t[0]);
    }
}

/// Law: a text line shows at most nine characters of the trimmed text when
/// that text is longer than ten bytes (then followed by `...`), and the
/// whole trimmed text otherwise.
pub proof fn law_text_line_cut(id: nat, text: Seq<char>)
    requires
        !all_ascii_whitespace(text),
    ensures
        ({
            let c = trimmed(text);
            let head = "#text "@ + decimal(id) + ": "@;
            &&& utf8_len(c) > 10 ==> exists|k: int|
                0 <= k <= 9 && k < c.len() && (k == 9 || k == c.len() - 1) && text_line(id, text)
                    == head + escaped(c.take(k)) + "..."@
            &&& utf8_len(c) <= 10 ==> text_line(id, text) == head + escaped(c)
        }),
{
    let c = trimmed(text);
    if utf8_len(c) > 10 {
        let k: int = if c.len() >= 10 { 9 } else { c.len() - 1 };
        if c.len() == 0 {
            assert(utf8_len(c) == 0);
        }
        assert(text_line(id, text) == "#text "@ + decimal(id) + ": "@ + escaped(c.take(k)) + "..."@);
    }
}

/// Law: `spaces(n)` is `n` space characters.
pub proof fn law_spaces(n: nat)
    ensures
        spaces(n).len() == n,
        forall|i: int| 0 <= i < n ==> #[trigger] spaces(n)[i] == ' ',
{
}

/// Law: the dump of a list of nodes is the dumps of the nodes one after the
/// other, each at the same indentation.
pub proof fn law_forest_text_concatenates(indent: nat, a: Seq<Node>, b: Seq<Node>)
    ensures
        forest_text(indent, a + b) == forest_text(indent, a) + forest_text(indent, b),
    decreases b.len(),
{
    if b.len() == 0 {
        assert(a + b =~= a);
        assert(forest_text(indent, a) + forest_text(indent, b) =~= forest_text(indent, a));
    } else {
        law_forest_text_concatenates(indent, a, b.drop_last());
        assert((a + b).drop_last() =~= a + b.drop_last());
        assert((a + b).last() == b.last());
        assert(forest_text(indent, a) + forest_text(indent, b.drop_last()) + node_text(
            indent,
            b.last(),
        ) =~= forest_text(indent, a) + (forest_text(indent, b.drop_last()) + node_text(
            indent,
            b.last(),
        )));
    }
}

/// Law: the dump of a single node in a list is the dump of that node.
pub proof fn law_forest_text_single(indent: nat, n: Node)
    ensures
        forest_text(indent, seq![n]) == node_text(indent, n),
{
    assert(seq![n].drop_last() =~= Seq::<Node>::empty());
    assert(seq![n].last() == n);
    assert(forest_text(indent, seq![n].drop_last()) =~= Seq::<char>::empty());
    assert(forest_text(indent, seq![n]) =~= node_text(indent, n));
}

/// Law: the dump of a node that is not blank text is: `indent` spaces, its
/// line and a line break; then the dumps of its children, in order, indented
/// two more spaces; then, only for an element with children, `indent`
/// spaces, `</name>` and a line break.
pub proof fn law_dump_layout(indent: nat, node: Node)
    requires
        !is_blank_text(node),
    ensures
        node_text(indent, node) == spaces(indent) + node_line(node) + "\n"@ + forest_text(
            indent + 2,
            node.children@,
        ) + if node.children@.len() > 0 && node.data is Element {
            spaces(indent) + "</"@ + node.data->Element_0.name@ + ">\n"@
        } else {
            Seq::<char>::empty()
        },
{
}

/// Law: the lines of documents, comments and anonymous blocks.
pub proof fn law_other_node_lines(node: Node)
    ensures
        node.data is Document ==> node_line(node) == "#Document "@ + decimal(node.id as nat),
        node.data is Comment ==> node_line(node) == "<!-- COMMENT "@ + decimal(node.id as nat)
            + " -->"@,
        node.data is AnonymousBlock ==> node_line(node) == decimal(node.id as nat)
            + " AnonymousBlock"@,
        node.data matches NodeData::Text(t) ==> node_line(node) == text_line(
            node.id as nat,
            t.content@,
        ),
{
}

/// Law: a tree is one level taller than its tallest child, and a node without
/// children has height one.
pub proof fn law_tree_height(node: Node)
    ensures
        tree_height(node) >= 1,
        node.children@.len() == 0 ==> tree_height(node) == 1,
        forall|i: int|
            0 <= i < node.children@.len() ==> tree_height(#[trigger] node.children@[i]) + 1
                <= tree_height(node),
        node.children@.len() > 0 ==> exists|i: int|
            0 <= i < node.children@.len() && tree_height(#[trigger] node.children@[i]) + 1
                == tree_height(node),
{
    let c = node.children@;
    assert forall|i: int| 0 <= i < c.len() implies tree_height(#[trigger] c[i]) + 1 <= tree_height(
        node,
    ) by {
        lemma_forest_height_bounds(c, i);
    }
    if c.len() > 0 {
        lemma_forest_height_attained(c);
    }
}

proof fn lemma_forest_height_attained(nodes: Seq<Node>)
    requires
        nodes.len() > 0,
    ensures
        exists|i: int| 0 <= i < nodes.len() && tree_height(#[trigger] nodes[i]) == forest_height(nodes),
    decreases nodes.len(),
{
    let rest = nodes.drop_last();
    if rest.len() > 0 && forest_height(rest) >= tree_height(nodes.last()) {
        lemma_forest_height_attained(rest);
        let i = choose|i: int| 0 <= i < rest.len() && tree_height(#[trigger] rest[i]) == forest_height(rest);
        assert(nodes[i] == rest[i]);
    } else {
        assert(nodes[nodes.len() - 1] == nodes.last());
        assert(tree_height(nodes.last()) >= 1);
        if rest.len() == 0 {
            assert(forest_height(rest) == 0);
        }
        assert(tree_height(nodes[nodes.len() - 1]) == forest_height(nodes));
    }
}

/// Law: the UTF-8 width of a text is the sum of the widths of its pieces,
/// and each character takes one to four bytes.
pub proof fn law_utf8_len(a: Seq<char>, b: Seq<char>)
    ensures
        utf8_len(a + b) == utf8_len(a) + utf8_len(b),
        a.len() <= utf8_len(a) <= 4 * a.len(),
    decreases a.len(),
{
    lemma_utf8_len_append(a, b);
    if a.len() > 0 {
        law_utf8_len(a.drop_last(), b);
        let w = utf8_width(a.last());
        assert(1 <= w <= 4);
        assert(utf8_len(a) == utf8_len(a.drop_last()) + w);
    }
}

// ----- writing -----

fn push_escaped_char(out: &mut String, c: char)
    ensures
        final(out)@ == old(out)@ + escaped_char(c),
{
    let ghost start = out@;
    if c == '\t' {
        push_str(out, "\\t");
        proof { reveal_strlit("\\t"); }
    } else if c == '\r' {
        push_str(out, "\\r");
        proof { reveal_strlit("\\r"); }
    } else if c == '\n' {
        push_str(out, "\\n");
        proof { reveal_strlit("\\n"); }
    } else if c == '\'' || c == '"' || c == '\\' {
        push_char(out, '\\');
        push_char(out, c);
    } else if 0x20 <= (c as u32) && (c as u32) <= 0x7e {
        push_char(out, c);
    } else {
        push_str(out, "\\u{");
        proof { reveal_strlit("\\u{"); }
        push_hexadecimal(out, c as u32);
        push_char(out, '}');
    }
    assert(out@ =~= start + escaped_char(c));
}

/// Appends the escapes of `s[from..to]`.
fn push_escaped(out: &mut String, s: &Vec<char>, from: usize, to: usize)
    requires
        from <= to <= s@.len(),
    ensures
        final(out)@ == old(out)@ + escaped(s@.subrange(from as int, to as int)),
{
    let ghost start = out@;
    let mut i = from;
    while i < to
        invariant
            from <= i <= to <= s@.len(),
            out@ == start + escaped(s@.subrange(from as int, i as int)),
        decreases to - i,
    {
        let ghost before = out@;
        push_escaped_char(out, s[i]);
        proof {
            let sub = s@.subrange(from as int, i + 1);
            assert(sub.drop_last() =~= s@.subrange(from as int, i as int));
            assert(sub.last() == s@[i as int]);
            assert(out@ =~= start + escaped(sub));
        }
        i = i + 1;
    }
}

/// The number of levels of a tree (one for a node without children).
pub open spec fn tree_height(node: Node) -> nat
    decreases node,
{
    1 + forest_height(node.children@)
}

/// The largest height among trees (zero for none).
pub open spec fn forest_height(nodes: Seq<Node>) -> nat
    decreases nodes,
{
    if nodes.len() == 0 {
        0
    } else {
        let rest = forest_height(nodes.drop_last());
        let last = tree_height(nodes.last());
        if rest < last {
            last
        } else {
            rest
        }
    }
}

proof fn lemma_forest_height_bounds(nodes: Seq<Node>, i: int)
    requires
        0 <= i < nodes.len(),
    ensures
        tree_height(nodes[i]) <= forest_height(nodes),
    decreases nodes.len(),
{
    if i < nodes.len() - 1 {
        lemma_forest_height_bounds(nodes.drop_last(), i);
        assert(nodes.drop_last()[i] == nodes[i]);
    }
}

proof fn lemma_forest_height_at_most(nodes: Seq<Node>, k: nat)
    ensures
        forest_height(nodes) <= k <==> forall|i: int|
            0 <= i < nodes.len() ==> tree_height(#[trigger] nodes[i]) <= k,
    decreases nodes.len(),
{
    if nodes.len() > 0 {
        let rest = nodes.drop_last();
        lemma_forest_height_at_most(rest, k);
        if forall|i: int| 0 <= i < nodes.len() ==> tree_height(#[trigger] nodes[i]) <= k {
            assert forall|i: int| 0 <= i < rest.len() implies tree_height(#[trigger] rest[i]) <= k by {
                assert(rest[i] == nodes[i]);
            }
            assert(tree_height(nodes[nodes.len() - 1]) <= k);
        } else {
            let i = choose|i: int| 0 <= i < nodes.len() && !(tree_height(#[trigger] nodes[i]) <= k);
            if i < nodes.len() - 1 {
                assert(rest[i] == nodes[i]);
            }
        }
    }
}

fn height_at_most(node: &Node, limit: usize) -> (res: bool)
    ensures
        res == (tree_height(*node) <= limit),
    decreases node,
{
    if limit == 0 {
        return false;
    }
    let n = node.children.len();
    let mut i: usize = 0;
    while i < n
        invariant
            n == node.children@.len(),
            i <= n,
            1 <= limit,
            forall|j: int| 0 <= j < i ==> tree_height(#[trigger] node.children@[j]) <= limit - 1,
        decreases n - i,
    {
        proof {
            assert(decreases_to!(*node => node.children));
            assert(decreases_to!(node.children => node.children@));
            assert(decreases_to!(node.children@ => node.children@[i as int]));
        }
        if !height_at_most(&node.children[i], limit - 1) {
            proof {
                lemma_forest_height_at_most(node.children@, (limit - 1) as nat);
            }
            return false;
        }
        i = i + 1;
    }
    proof {
        lemma_forest_height_at_most(node.children@, (limit - 1) as nat);
    }
    true
}

/// Whether a tree can be dumped with indentation `indent`: the deepest
/// indentation, two spaces per level, fits in a `usize`.
pub fn dump_fits(indent: usize, node: &Node) -> (res: bool)
    ensures
        res == (indent + 2 * tree_height(*node) <= usize::MAX),
{
    height_at_most(node, (usize::MAX - indent) / 2)
}

proof fn lemma_utf8_len_append(a: Seq<char>, b: Seq<char>)
    ensures
        utf8_len(a + b) == utf8_len(a) + utf8_len(b),
    decreases b.len(),
{
    if b.len() > 0 {
        lemma_utf8_len_append(a, b.drop_last());
        assert((a + b).drop_last() =~= a + b.drop_last());
        assert((a + b).last() == b.last());
    } else {
        assert(a + b =~= a);
    }
}

fn push_spaces(out: &mut String, n: usize)
    ensures
        final(out)@ == old(out)@ + spaces(n as nat),
{
    let ghost start = out@;
    let mut i: usize = 0;
    while i < n
        invariant
            i <= n,
            out@ == start + spaces(i as nat),
        decreases n - i,
    {
        push_char(out, ' ');
        proof {
            assert(spaces((i + 1) as nat) =~= spaces(i as nat).push(' '));
        }
        i = i + 1;
    }
}

fn only_ascii_whitespace(s: &Vec<char>) -> (res: bool)
    ensures
        res == all_ascii_whitespace(s@),
{
    let n = s.len();
    let mut i: usize = 0;
    while i < n
        invariant
            n == s@.len(),
            i <= n,
            forall|j: int| 0 <= j < i ==> is_ascii_whitespace(#[trigger] s@[j]),
        decreases n - i,
    {
        if !ascii_whitespace(s[i]) {
            return false;
        }
        i = i + 1;
    }
    true
}

/// The bounds of the trimmed text within `s`.
#[verifier::rlimit(40)]
fn trim_bounds(s: &Vec<char>) -> (res: (usize, usize))
    ensures
        res.0 <= res.1 <= s@.len(),
        s@.subrange(res.0 as int, res.1 as int) == trimmed(s@),
{
    let n = s.len();
    let mut a: usize = 0;
    proof {
        assert(s@.subrange(0, n as int) =~= s@);
    }
    while a < n && is_whitespace(s[a])
        invariant
            n == s@.len(),
            a <= n,
            trim_start(s@) == trim_start(s@.subrange(a as int, n as int)),
        decreases n - a,
    {
        proof {
            assert(s@.subrange(a as int, n as int).drop_first() =~= s@.subrange(a + 1, n as int));
        }
        a = a + 1;
    }
    let mut b: usize = n;
    while b > a && is_whitespace(s[b - 1])
        invariant
            n == s@.len(),
            a <= b <= n,
            trim_start(s@) == s@.subrange(a as int, n as int),
            trimmed(s@) == trim_end(s@.subrange(a as int, b as int)),
        decreases b - a,
    {
        proof {
            assert(s@.subrange(a as int, b as int).drop_last() =~= s@.subrange(a as int, b - 1));
        }
        b = b - 1;
    }
    (a, b)
}

/// Whether `s[from..to]` takes more than 10 bytes in UTF-8.
fn longer_than_ten_bytes(s: &Vec<char>, from: usize, to: usize) -> (res: bool)
    requires
        from <= to <= s@.len(),
    ensures
        res == (utf8_len(s@.subrange(from as int, to as int)) > 10),
{
    let mut total: usize = 0;
    let mut i = from;
    while i < to && total <= 10
        invariant
            from <= i <= to <= s@.len(),
            total == utf8_len(s@.subrange(from as int, i as int)),
            total <= 14,
        decreases to - i,
    {
        let c = s[i];
        let w: usize = if (c as u32) < 0x80 {
            1
        } else if (c as u32) < 0x800 {
            2
        } else if (c as u32) < 0x10000 {
            3
        } else {
            4
        };
        proof {
            assert(s@.subrange(from as int, i + 1).drop_last() =~= s@.subrange(from as int, i as int));
        }
        total = total + w;
        i = i + 1;
    }
    proof {
        lemma_utf8_len_append(s@.subrange(from as int, i as int), s@.subrange(i as int, to as int));
        assert(s@.subrange(from as int, i as int) + s@.subrange(i as int, to as int) =~= s@.subrange(
            from as int,
            to as int,
        ));
    }
    total > 10
}

fn push_text_line(out: &mut String, id: usize, content: &String)
    ensures
        final(out)@ == old(out)@ + text_line(id as nat, content@),
{
    let ghost start = out@;
    let cs = chars_of(content.as_str());
    if only_ascii_whitespace(&cs) {
        push_decimal(out, id);
        push_str(out, " #text: <whitespace>");
    } else {
        let (a, b) = trim_bounds(&cs);
        if longer_than_ten_bytes(&cs, a, b) {
            let len = b - a;
            let shown: usize = if len >= 10 { 9 } else { len - 1 };
            push_str(out, "#text ");
            push_decimal(out, id);
            push_str(out, ": ");
            push_escaped(out, &cs, a, a + shown);
            push_str(out, "...");
            proof {
                assert(cs@.subrange(a as int, (a + shown) as int) =~= trimmed(cs@).take(shown as int));
            }
        } else {
            push_str(out, "#text ");
            push_decimal(out, id);
            push_str(out, ": ");
            push_escaped(out, &cs, a, b);
        }
    }
    assert(out@ =~= start + text_line(id as nat, content@));
}

fn push_attrs(out: &mut String, attrs: &Vec<Attribute>)
    ensures
        final(out)@ == old(out)@ + attrs_text(attrs@),
{
    let ghost start = out@;
    let n = attrs.len();
    let mut i: usize = 0;
    while i < n
        invariant
            n == attrs@.len(),
            i <= n,
            out@ == start + attrs_text(attrs@.take(i as int)),
        decreases n - i,
    {
        let attr = &attrs[i];
        push_str(out, " ");
        push_str(out, attr.name.as_str());
        push_str(out, "=\"");
        push_str(out, attr.value.as_str());
        push_str(out, "\"");
        proof {
            assert(attrs@.take(i + 1).drop_last() =~= attrs@.take(i as int));
            assert(attrs@.take(i + 1).last() == attrs@[i as int]);
            assert(out@ =~= start + attrs_text(attrs@.take(i + 1)));
        }
        i = i + 1;
    }
    proof {
        assert(attrs@.take(n as int) =~= attrs@);
    }
}

fn push_node_line(out: &mut String, node: &Node)
    ensures
        final(out)@ == old(out)@ + node_line(*node),
{
    let ghost start = out@;
    match &node.data {
        NodeData::Document => {
            push_str(out, "#Document ");
            push_decimal(out, node.id);
        },
        NodeData::Text(t) => {
            push_text_line(out, node.id, &t.content);
        },
        NodeData::Comment => {
            push_str(out, "<!-- COMMENT ");
            push_decimal(out, node.id);
            push_str(out, " -->");
        },
        NodeData::AnonymousBlock(_) => {
            push_decimal(out, node.id);
            push_str(out, " AnonymousBlock");
        },
        NodeData::Element(e) => {
            push_str(out, "<");
            push_str(out, e.name.as_str());
            push_str(out, " ");
            push_decimal(out, node.id);
            push_attrs(out, &e.attrs);
            if node.children.len() > 0 {
                push_str(out, ">");
            } else {
                push_str(out, "/>");
            }
        },
    }
    assert(out@ =~= start + node_line(*node));
}

fn write_node(out: &mut String, indent: usize, node: &Node)
    requires
        indent + 2 * tree_height(*node) <= usize::MAX,
    ensures
        final(out)@ == old(out)@ + node_text(indent as nat, *node),
    decreases node,
{
    let ghost start = out@;
    if let NodeData::Text(t) = &node.data {
        let cs = chars_of(t.content.as_str());
        if only_ascii_whitespace(&cs) {
            assert(out@ =~= start + node_text(indent as nat, *node));
            return;
        }
    }
    push_spaces(out, indent);
    push_node_line(out, node);
    push_str(out, "\n");
    let ghost head = out@;
    let n = node.children.len();
    let mut i: usize = 0;
    while i < n
        invariant
            n == node.children@.len(),
            i <= n,
            indent + 2 * tree_height(*node) <= usize::MAX,
            out@ == head + forest_text((indent + 2) as nat, node.children@.take(i as int)),
        decreases n - i,
    {
        proof {
            lemma_forest_height_bounds(node.children@, i as int);
            assert(decreases_to!(*node => node.children));
            assert(decreases_to!(node.children => node.children@));
            assert(decreases_to!(node.children@ => node.children@[i as int]));
        }
        write_node(out, indent + 2, &node.children[i]);
        proof {
            let t = node.children@.take(i + 1);
            assert(t.drop_last() =~= node.children@.take(i as int));
            assert(t.last() == node.children@[i as int]);
        }
        i = i + 1;
    }
    proof {
        assert(node.children@.take(n as int) =~= node.children@);
    }
    if n > 0 {
        if let NodeData::Element(e) = &node.data {
            push_spaces(out, indent);
            push_str(out, "</");
            push_str(out, e.name.as_str());
            push_str(out, ">\n");
        }
    }
    assert(out@ =~= start + node_text(indent as nat, *node));
}

/// The dump of a node tree, indented by `indent` spaces: a line for each node
/// (text nodes holding only ASCII whitespace left out), children indented two
/// spaces further than their parent, and a closing tag after the children of
/// an element.
pub fn walk_tree(indent: usize, node: &Node) -> (res: String)
    requires
        indent + 2 * tree_height(*node) <= usize::MAX,
    ensures
        res@ == node_text(indent as nat, *node),
{
    let mut out = String::new();
    write_node(&mut out, indent, node);
    assert(out@ =~= node_text(indent as nat, *node));
    out
}

} // verus!
