use post_markup::context::PostParserContext;
use post_markup::digits::parse_u64_digits;
use post_markup::parser::HtmlParser;
use post_markup::rule_handler::{RuleHandler, RuleHandlerPostHandleMeta};
use post_markup::span::{handle_single_post_quote, SpanHandler};
use post_markup::spoiler::SpoilerHandler;
use post_markup::tag::{split_into_parts_by_separator, units_eq};
use post_markup::text_part::{concat_text_parts, TextPart};
use post_markup::{PostLink, Spannable, SpannableData};

fn units(s: &str) -> Vec<u16> {
    s.encode_utf16().collect()
}

#[test]
fn parse_u64_accepts_digit_runs() {
    assert_eq!(parse_u64_digits(&units("123")), Some(123));
    assert_eq!(parse_u64_digits(&units("0")), Some(0));
    assert_eq!(parse_u64_digits(&units("18446744073709551615")), Some(u64::MAX));
}

#[test]
fn parse_u64_rejects_bad_runs() {
    assert_eq!(parse_u64_digits(&units("")), None);
    assert_eq!(parse_u64_digits(&units("12a")), None);
    assert_eq!(parse_u64_digits(&units("-3")), None);
    assert_eq!(parse_u64_digits(&units("18446744073709551616")), None);
}

#[test]
fn split_respects_quoted_stretches() {
    let parts = split_into_parts_by_separator(&units("span data-x=\"a b\" c"), 32);
    assert_eq!(parts.len(), 3);
    assert_eq!(parts[0], units("span"));
    assert_eq!(parts[1], units("data-x=\"a b\""));
    assert_eq!(parts[2], units("c"));
}

#[test]
fn split_keeps_empty_middle_parts_only() {
    let parts = split_into_parts_by_separator(&units("a  b "), 32);
    assert_eq!(parts.len(), 3);
    assert_eq!(parts[0], units("a"));
    assert_eq!(parts[1], units(""));
    assert_eq!(parts[2], units("b"));
}

#[test]
fn units_eq_compares_contents() {
    assert!(units_eq(&units("abc"), &units("abc")));
    assert!(!units_eq(&units("abc"), &units("abd")));
    assert!(!units_eq(&units("abc"), &units("ab")));
}

#[test]
fn context_classifies_post_numbers() {
    let ctx = PostParserContext::new(vec![10, 20]);
    assert!(ctx.is_internal_thread_post(10));
    assert!(!ctx.is_internal_thread_post(30));
}

#[test]
fn single_post_quote_appends_label_and_span() {
    let mut parts = vec![TextPart::new(units("before "))];
    let mut spans: Vec<Spannable> = vec![];
    handle_single_post_quote(
        PostLink::Dead { post_no: 42 },
        &units(">>42"),
        &mut parts,
        &mut spans,
    );
    assert_eq!(concat_text_parts(&parts), units("before >>42"));
    assert_eq!(
        spans,
        vec![Spannable {
            start: 7,
            len: 4,
            spannable_data: SpannableData::Link(PostLink::Dead { post_no: 42 }),
        }]
    );
}

#[test]
fn meta_helpers_measure_the_diff() {
    let handler = SpanHandler::new();
    let parts = vec![TextPart::new(units("ab")), TextPart::new(units("cde"))];
    assert_eq!(handler.get_out_text_parts_diff_len(1, &parts), Some(2));
    assert_eq!(handler.get_out_text_parts_new_len(1, &parts), Some(3));
    assert_eq!(handler.get_out_text_parts_diff_text(0, &parts), units("abcde"));
    assert_eq!(handler.get_out_text_parts_diff_text(1, &parts), units("cde"));
}

#[test]
fn spoiler_post_handle_skips_empty_ranges() {
    let handler = SpoilerHandler::new();
    let ctx = PostParserContext::new(vec![]);
    let parser = HtmlParser::new();
    let nodes = parser.parse(&units("<s></s>")).unwrap();
    let element = match &nodes[0] {
        post_markup::node::Node::Element(e) => e,
        post_markup::node::Node::Text(_) => panic!("expected an element"),
    };
    let mut parts = vec![TextPart::new(units("ab"))];
    let mut spans: Vec<Spannable> = vec![];
    // Snapshot taken at the current length: the element contributed nothing.
    handler.post_handle(&ctx, element, 1, &mut parts, 0, &mut spans);
    assert!(spans.is_empty());
    // Snapshot taken before the only part: the whole text is the range.
    handler.post_handle(&ctx, element, 0, &mut parts, 0, &mut spans);
    assert_eq!(
        spans,
        vec![Spannable { start: 0, len: 2, spannable_data: SpannableData::Spoiler }]
    );
}

#[test]
fn span_pre_handle_ignores_plain_spans() {
    let handler = SpanHandler::new();
    let ctx = PostParserContext::new(vec![]);
    let parser = HtmlParser::new();
    let nodes = parser.parse(&units("<span class=\"quote\">x</span>")).unwrap();
    let element = match &nodes[0] {
        post_markup::node::Node::Element(e) => e,
        post_markup::node::Node::Text(_) => panic!("expected an element"),
    };
    let mut parts: Vec<TextPart> = vec![];
    let mut spans: Vec<Spannable> = vec![];
    assert!(!handler.pre_handle(&ctx, element, &mut parts, &mut spans));
    assert!(parts.is_empty());
    assert!(spans.is_empty());
}

#[test]
fn has_class_splits_class_lists() {
    let parser = HtmlParser::new();
    let nodes = parser.parse(&units("<span class=\"a b\">x</span>")).unwrap();
    let element = match &nodes[0] {
        post_markup::node::Node::Element(e) => e,
        post_markup::node::Node::Text(_) => panic!("expected an element"),
    };
    assert!(element.has_class(&units("a")));
    assert!(element.has_class(&units("b")));
    assert!(!element.has_class(&units("c")));
    assert!(!element.has_class(&units("a b")));
}

#[test]
fn debug_concat_renders_lines() {
    let parser = HtmlParser::new();
    let nodes = parser.parse(&units("<span class=\"quote\">x</span>y")).unwrap();
    let rendered = parser.debug_concat_into_string(&nodes);
    assert_eq!(rendered, units("<span, class=quote>\nx\ny\n"));
}

#[test]
fn attribute_order_is_insertion_order() {
    let parser = HtmlParser::new();
    let nodes = parser.parse(&units("<span b=\"2\" a=\"1\">x</span>")).unwrap();
    let rendered = parser.debug_concat_into_string(&nodes);
    assert_eq!(rendered, units("<span, b=2, a=1>\nx\n"));
    let element = match &nodes[0] {
        post_markup::node::Node::Element(e) => e,
        post_markup::node::Node::Text(_) => panic!("expected an element"),
    };
    let keys: Vec<Vec<u16>> = element.attributes.keys().cloned().collect();
    assert_eq!(keys, vec![units("b"), units("a")]);
}
