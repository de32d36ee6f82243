use blitz_dom::tree_dump::{dump_fits, walk_tree, Attribute, ElementData, Node, NodeData, TextNodeData};

fn element(id: usize, name: &str, attrs: &[(&str, &str)], children: Vec<Node>) -> Node {
    Node {
        id,
        data: NodeData::Element(ElementData {
            name: name.to_string(),
            attrs: attrs
                .iter()
                .map(|(n, v)| Attribute { name: n.to_string(), value: v.to_string() })
                .collect(),
        }),
        children,
    }
}

fn text(id: usize, content: &str) -> Node {
    Node {
        id,
        data: NodeData::Text(TextNodeData { content: content.to_string() }),
        children: Vec::new(),
    }
}

fn leaf(id: usize, data: NodeData) -> Node {
    Node { id, data, children: Vec::new() }
}

#[test]
fn dumps_a_document_with_indentation_and_closing_tags() {
    let body = element(
        2,
        "body",
        &[("class", "x"), ("id", "main")],
        vec![
            text(3, "  Hello   "),
            text(4, "\n  \t"),
            leaf(5, NodeData::Comment),
            element(6, "br", &[], vec![]),
        ],
    );
    let doc = Node {
        id: 0,
        data: NodeData::Document,
        children: vec![element(1, "html", &[], vec![body])],
    };
    let expected = ["#Document 0\n", "  <html 1>\n", "    <body 2 class=\"x\" id=\"main\">\n", "      #text 3: Hello\n", "      <!-- COMMENT 5 -->\n", "      <br 6/>\n", "    </body>\n", "  </html>\n"].concat();
    assert_eq!(walk_tree(0, &doc), expected);
}

#[test]
fn whitespace_only_text_is_left_out() {
    assert_eq!(walk_tree(0, &text(7, " \t\r\n\x0C")), "");
    assert_eq!(walk_tree(3, &text(7, "")), "");
}

#[test]
fn long_text_is_cut_before_the_tenth_character() {
    assert_eq!(walk_tree(0, &text(8, "  Hello, wonderful world ")), "#text 8: Hello, wo...\n");
    // Exactly ten bytes: shown whole.
    assert_eq!(walk_tree(0, &text(8, "0123456789")), "#text 8: 0123456789\n");
    // Eleven bytes: nine characters and an ellipsis.
    assert_eq!(walk_tree(0, &text(8, "0123456789A")), "#text 8: 012345678...\n");
}

#[test]
fn long_text_counts_bytes_not_characters() {
    // Five two-byte characters are ten bytes: shown whole.
    assert_eq!(walk_tree(0, &text(9, "ééééé")), "#text 9: \\u{e9}\\u{e9}\\u{e9}\\u{e9}\\u{e9}\n");
    // Six are twelve bytes, fewer than ten characters: all but the last.
    assert_eq!(
        walk_tree(0, &text(9, "éééééé")),
        "#text 9: \\u{e9}\\u{e9}\\u{e9}\\u{e9}\\u{e9}...\n"
    );
}

#[test]
fn unicode_whitespace_is_trimmed_but_does_not_blank_a_node() {
    assert_eq!(walk_tree(0, &text(10, "\u{a0}")), "#text 10: \n");
    assert_eq!(walk_tree(0, &text(10, "\u{3000}x\u{2009}")), "#text 10: x\n");
}

#[test]
fn text_is_escaped_like_escape_default() {
    let samples = [
        "tab\there",
        "q\"'\\",
        "a\u{7f}b",
        "\u{1f600}",
        "x\u{0}y",
        "zé",
        "ab\ncd",
        "\u{10ffff}!",
    ];
    for s in samples {
        let content = s.trim();
        let expected = if content.len() > 10 {
            let cut = content.char_indices().take(10).last().unwrap().0;
            format!("#text 11: {}...\n", content.split_at(cut).0.escape_default())
        } else {
            format!("#text 11: {}\n", content.escape_default())
        };
        assert_eq!(walk_tree(0, &text(11, s)), expected, "escaping {:?}", s);
    }
}

#[test]
fn other_node_kinds_have_their_own_lines() {
    assert_eq!(walk_tree(2, &leaf(12, NodeData::Comment)), "  <!-- COMMENT 12 -->\n");
    let anon = leaf(
        13,
        NodeData::AnonymousBlock(ElementData { name: "div".to_string(), attrs: Vec::new() }),
    );
    assert_eq!(walk_tree(1, &anon), " 13 AnonymousBlock\n");
    assert_eq!(walk_tree(0, &leaf(4294967296, NodeData::Document)), "#Document 4294967296\n");
}

#[test]
fn children_of_non_elements_are_indented_without_closing_tag() {
    let anon = Node {
        id: 20,
        data: NodeData::AnonymousBlock(ElementData { name: "div".to_string(), attrs: Vec::new() }),
        children: vec![text(21, "hi"), element(22, "span", &[], vec![text(23, "there")])],
    };
    let expected = ["20 AnonymousBlock\n", "  #text 21: hi\n", "  <span 22>\n", "    #text 23: there\n", "  </span>\n"].concat();
    assert_eq!(walk_tree(0, &anon), expected);
}

#[test]
fn indentation_must_fit() {
    let tree = element(1, "a", &[], vec![element(2, "b", &[], vec![])]);
    assert!(dump_fits(0, &tree));
    assert!(dump_fits(usize::MAX - 4, &tree));
    assert!(!dump_fits(usize::MAX - 3, &tree));
    assert!(!dump_fits(usize::MAX, &text(3, "x")));
    assert!(dump_fits(usize::MAX - 2, &text(3, "x")));
}
