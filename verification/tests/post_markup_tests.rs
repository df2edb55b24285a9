use post_markup::context::PostParserContext;
use post_markup::engine::post_parse;
use post_markup::node::Node;
use post_markup::parser::{HtmlParser, ParseError};
use post_markup::{PostLink, Spannable, SpannableData};

fn units(s: &str) -> Vec<u16> {
    s.encode_utf16().collect()
}

fn ctx_with(posts: Vec<u64>) -> PostParserContext {
    PostParserContext::new(posts)
}

#[test]
fn greentext_span_over_decoded_text() {
    let ctx = ctx_with(vec![]);
    let (flat, spans) = post_parse(&units("<span class=\"quote\">&gt;implying</span>"), &ctx)
        .unwrap();
    assert_eq!(flat, units(">implying"));
    assert_eq!(
        spans,
        vec![Spannable { start: 0, len: 9, spannable_data: SpannableData::GreenText }]
    );
}

#[test]
fn spoiler_span_over_descendants() {
    let ctx = ctx_with(vec![]);
    let (flat, spans) = post_parse(&units("<s>secret</s>"), &ctx).unwrap();
    assert_eq!(flat, units("secret"));
    assert_eq!(
        spans,
        vec![Spannable { start: 0, len: 6, spannable_data: SpannableData::Spoiler }]
    );
}

#[test]
fn dead_link_wrapping_quotelink() {
    let ctx = ctx_with(vec![]);
    let input = "<span class=\"deadlink\"><span class=\"quotelink\">&gt;&gt;555</span></span>";
    let (flat, spans) = post_parse(&units(input), &ctx).unwrap();
    assert_eq!(flat, units(">>555"));
    assert_eq!(
        spans,
        vec![Spannable {
            start: 0,
            len: 5,
            spannable_data: SpannableData::Link(PostLink::Dead { post_no: 555 }),
        }]
    );
}

#[test]
fn internal_quote_resolves_to_quote_link() {
    let ctx = ctx_with(vec![555]);
    let input = "<span class=\"quotelink\">&gt;&gt;555</span>";
    let (flat, spans) = post_parse(&units(input), &ctx).unwrap();
    assert_eq!(flat, units(">>555"));
    assert_eq!(
        spans,
        vec![Spannable {
            start: 0,
            len: 5,
            spannable_data: SpannableData::Link(PostLink::Quote { post_no: 555 }),
        }]
    );
}

#[test]
fn unclosed_tag_fails_fatally() {
    let ctx = ctx_with(vec![]);
    assert_eq!(post_parse(&units("<div>"), &ctx), Err(ParseError::UnterminatedClosingTag));
}

#[test]
fn unterminated_closing_tag_fails_fatally() {
    let parser = HtmlParser::new();
    assert!(matches!(
        parser.parse(&units("abc</div")),
        Err(ParseError::UnterminatedClosingTag)
    ));
}

#[test]
fn tag_without_name_fails_fatally() {
    let parser = HtmlParser::new();
    assert!(matches!(parser.parse(&units("<>")), Err(ParseError::TagWithoutName)));
}

#[test]
fn void_elements_parse_childless() {
    let parser = HtmlParser::new();
    let nodes = parser.parse(&units("<br><hr><img>")).unwrap();
    assert_eq!(nodes.len(), 3);
    for node in &nodes {
        match node {
            Node::Element(e) => {
                assert!(e.is_void_element);
                assert!(e.children.is_empty());
            }
            Node::Text(_) => panic!("expected an element"),
        }
    }
}

#[test]
fn nested_void_element_stays_childless() {
    let parser = HtmlParser::new();
    let nodes = parser.parse(&units("<div>a<br>b</div>")).unwrap();
    assert_eq!(nodes.len(), 1);
    match &nodes[0] {
        Node::Element(div) => {
            assert!(!div.is_void_element);
            assert_eq!(div.children.len(), 3);
            match &div.children[1] {
                Node::Element(br) => {
                    assert!(br.is_void_element);
                    assert!(br.children.is_empty());
                }
                Node::Text(_) => panic!("expected the void element"),
            }
        }
        Node::Text(_) => panic!("expected an element"),
    }
}

#[test]
fn quoted_attribute_value_keeps_its_space() {
    let parser = HtmlParser::new();
    let nodes = parser.parse(&units("<span data-x=\"a b\">t</span>")).unwrap();
    match &nodes[0] {
        Node::Element(e) => {
            assert_eq!(e.attributes.len(), 1);
            assert_eq!(e.attributes.get(&units("data-x")), Some(&units("a b")));
        }
        Node::Text(_) => panic!("expected an element"),
    }
}

#[test]
fn empty_attribute_is_dropped() {
    let parser = HtmlParser::new();
    let nodes = parser.parse(&units("<span empty=\"\">x</span>")).unwrap();
    match &nodes[0] {
        Node::Element(e) => {
            assert!(e.attributes.is_empty());
        }
        Node::Text(_) => panic!("expected an element"),
    }
}

#[test]
fn entity_decoding_changes_text() {
    let ctx = ctx_with(vec![]);
    let (flat, spans) = post_parse(&units("a&amp;b"), &ctx).unwrap();
    assert_eq!(flat, units("a&b"));
    assert!(spans.is_empty());
}

#[test]
fn empty_bodied_markers_emit_no_spannables() {
    let ctx = ctx_with(vec![]);
    let (flat, spans) = post_parse(&units("<span class=\"quote\"></span><s></s>"), &ctx).unwrap();
    assert_eq!(flat, units(""));
    assert!(spans.is_empty());
}

#[test]
fn unmatched_tag_recurses_with_no_spannable() {
    let ctx = ctx_with(vec![]);
    let (flat, spans) = post_parse(&units("<div>abc</div>"), &ctx).unwrap();
    assert_eq!(flat, units("abc"));
    assert!(spans.is_empty());
}

#[test]
fn quote_link_inside_greentext() {
    let ctx = ctx_with(vec![7]);
    let input = "<span class=\"quote\">&gt;look <span class=\"quotelink\">&gt;&gt;7</span></span>";
    let (flat, spans) = post_parse(&units(input), &ctx).unwrap();
    assert_eq!(flat, units(">look >>7"));
    assert_eq!(
        spans,
        vec![
            Spannable {
                start: 6,
                len: 3,
                spannable_data: SpannableData::Link(PostLink::Quote { post_no: 7 }),
            },
            Spannable { start: 0, len: 9, spannable_data: SpannableData::GreenText },
        ]
    );
}

#[test]
fn malformed_quote_label_is_skipped_silently() {
    let ctx = ctx_with(vec![]);
    let input = "a<span class=\"quotelink\">nope</span>b";
    let (flat, spans) = post_parse(&units(input), &ctx).unwrap();
    // The malformed label produces no text and no spannable; the rest of the
    // post is still usable.
    assert_eq!(flat, units("ab"));
    assert!(spans.is_empty());
}

#[test]
fn quote_label_with_unparsable_number_is_skipped() {
    let ctx = ctx_with(vec![]);
    let input = "<span class=\"quotelink\">&gt;&gt;9999999999999999999999</span>";
    let (flat, spans) = post_parse(&units(input), &ctx).unwrap();
    assert_eq!(flat, units(""));
    assert!(spans.is_empty());
}

#[test]
fn mismatched_closing_tag_closes_innermost() {
    let ctx = ctx_with(vec![]);
    let (flat, spans) = post_parse(&units("<span>inner</div>after"), &ctx).unwrap();
    assert_eq!(flat, units("innerafter"));
    assert!(spans.is_empty());
}

#[test]
fn offsets_count_utf16_units() {
    let ctx = ctx_with(vec![]);
    // One astral-plane character weighs two UTF-16 units.
    let (flat, spans) = post_parse(&units("\u{1F600}<s>x</s>"), &ctx).unwrap();
    assert_eq!(flat, units("\u{1F600}x"));
    assert_eq!(
        spans,
        vec![Spannable { start: 2, len: 1, spannable_data: SpannableData::Spoiler }]
    );
}

#[test]
fn lone_open_bracket_is_a_nameless_tag() {
    let parser = HtmlParser::new();
    assert!(matches!(parser.parse(&units("<")), Err(ParseError::TagWithoutName)));
}

#[test]
fn text_only_input_is_one_text_node() {
    let parser = HtmlParser::new();
    let nodes = parser.parse(&units("plain text")).unwrap();
    assert_eq!(nodes.len(), 1);
    match &nodes[0] {
        Node::Text(t) => assert_eq!(t, &units("plain text")),
        Node::Element(_) => panic!("expected text"),
    }
}

#[test]
fn empty_input_parses_to_nothing() {
    let parser = HtmlParser::new();
    let nodes = parser.parse(&units("")).unwrap();
    assert!(nodes.is_empty());
    let ctx = ctx_with(vec![]);
    let (flat, spans) = post_parse(&units(""), &ctx).unwrap();
    assert!(flat.is_empty());
    assert!(spans.is_empty());
}

#[test]
fn void_element_keeps_its_attributes() {
    let parser = HtmlParser::new();
    let nodes = parser.parse(&units("<img src=\"x\">tail")).unwrap();
    assert_eq!(nodes.len(), 2);
    match &nodes[0] {
        Node::Element(e) => {
            assert!(e.is_void_element);
            assert!(e.children.is_empty());
            assert_eq!(e.attributes.get(&units("src")), Some(&units("x")));
        }
        Node::Text(_) => panic!("expected the void element"),
    }
}

#[test]
fn deadlink_with_direct_text_child_is_handled() {
    let ctx = ctx_with(vec![]);
    let input = "<span class=\"deadlink\">&gt;&gt;81</span>";
    let (flat, spans) = post_parse(&units(input), &ctx).unwrap();
    assert_eq!(flat, units(">>81"));
    assert_eq!(
        spans,
        vec![Spannable {
            start: 0,
            len: 4,
            spannable_data: SpannableData::Link(PostLink::Dead { post_no: 81 }),
        }]
    );
}

#[test]
fn quote_link_element_with_many_children_is_skipped() {
    let ctx = ctx_with(vec![]);
    let input = "<span class=\"quotelink\">a<b>c</b>d</span>e";
    let (flat, spans) = post_parse(&units(input), &ctx).unwrap();
    // More than one child is a non-fatal skip that still suppresses
    // recursion: only the text after the element survives.
    assert_eq!(flat, units("e"));
    assert!(spans.is_empty());
}
