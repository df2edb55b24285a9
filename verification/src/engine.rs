//! The flattening/annotation engine: walks the node tree depth-first, left to
//! right, keeps the two shared accumulators, and dispatches each element to
//! its rule handler under the pre/post hook protocol.

use vstd::prelude::*;
use crate::context::PostParserContext;
use crate::decode::{decode_entities, decoded_units_of};
use crate::node::{
    elem_view, lemma_nodes_view_len, node_view, nodes_view, Element, Node, SpecElement, SpecNode,
};
use crate::parser::{spec_parse, HtmlParser, ParseError};
use crate::rule_handler::{spec_range_span, RuleHandler};
use crate::span::SpanHandler;
use crate::spoiler::SpoilerHandler;
use crate::text_part::{
    concat_text_parts, flat_of, lemma_flat_len, lemma_parts_of_push, lemma_total_len_nonneg,
    lemma_total_len_push, lemma_total_len_split, parts_of, parts_wf, total_len, TextPart,
};
use crate::{Spannable, SpannableData};

verus! {

/// Which rule handler an element dispatches to, decided by its tag name;
/// unmatched tags get the identity handler that only recurses.
#[derive(Clone, Copy, Debug, PartialEq, Eq, Structural)]
pub enum HandlerKind {
    Span,
    Spoiler,
    NoOp,
}

/// The code units of the tag name `span`.
pub open spec fn span_tag() -> Seq<u16> {
    seq![115u16, 112u16, 97u16, 110u16]
}

/// The code units of the spoiler tag name `s`.
pub open spec fn spoiler_tag() -> Seq<u16> {
    seq![115u16]
}

pub open spec fn spec_handler_kind(e: SpecElement) -> HandlerKind {
    if e.tag_name == span_tag() {
        HandlerKind::Span
    } else if e.tag_name == spoiler_tag() {
        HandlerKind::Spoiler
    } else {
        HandlerKind::NoOp
    }
}

fn select_handler(element: &Element) -> (k: HandlerKind)
    ensures
        k == spec_handler_kind(elem_view(*element)),
{
    let span_name: Vec<u16> = vec![115u16, 112u16, 97u16, 110u16];
    let s_name: Vec<u16> = vec![115u16];
    proof {
        assert(span_name@ =~= span_tag());
        assert(s_name@ =~= spoiler_tag());
    }
    if crate::tag::units_eq(&element.tag_name, &span_name) {
        HandlerKind::Span
    } else if crate::tag::units_eq(&element.tag_name, &s_name) {
        HandlerKind::Spoiler
    } else {
        HandlerKind::NoOp
    }
}

pub open spec fn spec_pre_of(
    k: HandlerKind,
    ctx: PostParserContext,
    e: SpecElement,
    parts: Seq<Seq<u16>>,
    spans: Seq<Spannable>,
) -> (bool, Seq<Seq<u16>>, Seq<Spannable>) {
    match k {
        HandlerKind::Span => (SpanHandler {  }).spec_pre(ctx, e, parts, spans),
        HandlerKind::Spoiler => (SpoilerHandler {  }).spec_pre(ctx, e, parts, spans),
        HandlerKind::NoOp => (false, parts, spans),
    }
}

pub open spec fn spec_post_of(
    k: HandlerKind,
    ctx: PostParserContext,
    e: SpecElement,
    prev_parts: int,
    prev_spans: int,
    parts: Seq<Seq<u16>>,
    spans: Seq<Spannable>,
) -> (Seq<Seq<u16>>, Seq<Spannable>) {
    match k {
        HandlerKind::Span => (SpanHandler {  }).spec_post(ctx, e, prev_parts, prev_spans, parts, spans),
        HandlerKind::Spoiler => (SpoilerHandler {  }).spec_post(
            ctx,
            e,
            prev_parts,
            prev_spans,
            parts,
            spans,
        ),
        HandlerKind::NoOp => (parts, spans),
    }
}

/// The accumulators after flattening one node: a text run is decoded and
/// appended as one fragment; an element goes through its handler's pre hook,
/// its children (unless fully handled), and its handler's post hook.
pub open spec fn spec_flatten_node(
    node: SpecNode,
    ctx: PostParserContext,
    parts: Seq<Seq<u16>>,
    spans: Seq<Spannable>,
) -> (Seq<Seq<u16>>, Seq<Spannable>)
    decreases node,
{
    match node {
        SpecNode::Text(t) => (parts.push(decoded_units_of(t)), spans),
        SpecNode::Element(e) => {
            let k = spec_handler_kind(e);
            let (fully, p1, s1) = spec_pre_of(k, ctx, e, parts, spans);
            if fully {
                (p1, s1)
            } else {
                let (p2, s2) = spec_flatten_nodes(e.children, ctx, p1, s1);
                spec_post_of(k, ctx, e, parts.len() as int, spans.len() as int, p2, s2)
            }
        }
    }
}

pub open spec fn spec_flatten_nodes(
    nodes: Seq<SpecNode>,
    ctx: PostParserContext,
    parts: Seq<Seq<u16>>,
    spans: Seq<Spannable>,
) -> (Seq<Seq<u16>>, Seq<Spannable>)
    decreases nodes,
{
    if nodes.len() == 0 {
        (parts, spans)
    } else {
        let (p1, s1) = spec_flatten_node(nodes[0], ctx, parts, spans);
        spec_flatten_nodes(nodes.drop_first(), ctx, p1, s1)
    }
}

/// One sequence carries the other forward unchanged as its prefix.
pub open spec fn seq_extends<A>(s2: Seq<A>, s1: Seq<A>) -> bool {
    s2.len() >= s1.len() && s2.subrange(0, s1.len() as int) == s1
}

proof fn lemma_extends_refl<A>(s: Seq<A>)
    ensures
        seq_extends(s, s),
{
    assert(s.subrange(0, s.len() as int) =~= s);
}

proof fn lemma_extends_push<A>(s: Seq<A>, x: A)
    ensures
        seq_extends(s.push(x), s),
{
    assert(s.push(x).subrange(0, s.len() as int) =~= s);
}

proof fn lemma_extends_trans<A>(a: Seq<A>, b: Seq<A>, c: Seq<A>)
    requires
        seq_extends(b, a),
        seq_extends(c, b),
    ensures
        seq_extends(c, a),
{
    assert(c.subrange(0, a.len() as int) =~= b.subrange(0, a.len() as int));
    assert(b.subrange(0, a.len() as int) =~= a.subrange(0, a.len() as int));
    assert(a.subrange(0, a.len() as int) =~= a);
}

proof fn lemma_pre_extends(
    k: HandlerKind,
    ctx: PostParserContext,
    e: SpecElement,
    parts: Seq<Seq<u16>>,
    spans: Seq<Spannable>,
)
    ensures
        ({
            let (fully, p1, s1) = spec_pre_of(k, ctx, e, parts, spans);
            seq_extends(p1, parts) && seq_extends(s1, spans)
        }),
{
    lemma_extends_refl(parts);
    lemma_extends_refl(spans);
    let (fully, p1, s1) = spec_pre_of(k, ctx, e, parts, spans);
    lemma_extends_push(parts, p1.last());
    lemma_extends_push(spans, s1.last());
    assert(seq_extends(p1, parts) && seq_extends(s1, spans)) by {
        if p1 != parts {
            assert(p1 == parts.push(p1.last()));
        }
        if s1 != spans {
            assert(s1 == spans.push(s1.last()));
        }
    }
}

proof fn lemma_post_extends(
    k: HandlerKind,
    ctx: PostParserContext,
    e: SpecElement,
    prev_parts: int,
    prev_spans: int,
    parts: Seq<Seq<u16>>,
    spans: Seq<Spannable>,
)
    ensures
        ({
            let (p2, s2) = spec_post_of(k, ctx, e, prev_parts, prev_spans, parts, spans);
            p2 == parts && seq_extends(s2, spans)
        }),
{
    lemma_extends_refl(spans);
    let (p2, s2) = spec_post_of(k, ctx, e, prev_parts, prev_spans, parts, spans);
    lemma_extends_push(spans, s2.last());
    assert(p2 == parts && seq_extends(s2, spans)) by {
        if s2 != spans {
            assert(s2 == spans.push(s2.last()));
        }
    }
}

/// Flattening only appends: what was in the accumulators stays, in place.
pub proof fn lemma_flatten_node_extends(
    node: SpecNode,
    ctx: PostParserContext,
    parts: Seq<Seq<u16>>,
    spans: Seq<Spannable>,
)
    ensures
        ({
            let (p2, s2) = spec_flatten_node(node, ctx, parts, spans);
            seq_extends(p2, parts) && seq_extends(s2, spans)
        }),
    decreases node,
{
    match node {
        SpecNode::Text(t) => {
            lemma_extends_push(parts, decoded_units_of(t));
            lemma_extends_refl(spans);
        }
        SpecNode::Element(e) => {
            let k = spec_handler_kind(e);
            lemma_pre_extends(k, ctx, e, parts, spans);
            let (fully, p1, s1) = spec_pre_of(k, ctx, e, parts, spans);
            if !fully {
                lemma_flatten_nodes_extends(e.children, ctx, p1, s1);
                let (p2, s2) = spec_flatten_nodes(e.children, ctx, p1, s1);
                lemma_post_extends(k, ctx, e, parts.len() as int, spans.len() as int, p2, s2);
                let (p3, s3) = spec_post_of(
                    k,
                    ctx,
                    e,
                    parts.len() as int,
                    spans.len() as int,
                    p2,
                    s2,
                );
                lemma_extends_trans(parts, p1, p2);
                lemma_extends_trans(spans, s1, s2);
                lemma_extends_trans(spans, s2, s3);
            }
        }
    }
}

pub proof fn lemma_flatten_nodes_extends(
    nodes: Seq<SpecNode>,
    ctx: PostParserContext,
    parts: Seq<Seq<u16>>,
    spans: Seq<Spannable>,
)
    ensures
        ({
            let (p2, s2) = spec_flatten_nodes(nodes, ctx, parts, spans);
            seq_extends(p2, parts) && seq_extends(s2, spans)
        }),
    decreases nodes,
{
    if nodes.len() == 0 {
        lemma_extends_refl(parts);
        lemma_extends_refl(spans);
    } else {
        lemma_flatten_node_extends(nodes[0], ctx, parts, spans);
        let (p1, s1) = spec_flatten_node(nodes[0], ctx, parts, spans);
        lemma_flatten_nodes_extends(nodes.drop_first(), ctx, p1, s1);
        let (p2, s2) = spec_flatten_nodes(nodes.drop_first(), ctx, p1, s1);
        lemma_extends_trans(parts, p1, p2);
        lemma_extends_trans(spans, s1, s2);
    }
}

/// Offset soundness and validity: every spannable covers at least one unit
/// and ends within the given total text length.
pub open spec fn spans_ok(spans: Seq<Spannable>, total: int) -> bool {
    forall|i: int| 0 <= i < spans.len() ==> ((#[trigger] spans[i]).len > 0 && spans[i].start
        + spans[i].len <= total)
}

proof fn lemma_spans_ok_weaken(spans: Seq<Spannable>, t1: int, t2: int)
    requires
        spans_ok(spans, t1),
        t1 <= t2,
    ensures
        spans_ok(spans, t2),
{
}

proof fn lemma_range_span_ok(
    prev: int,
    parts: Seq<Seq<u16>>,
    spans: Seq<Spannable>,
    data: SpannableData,
)
    requires
        0 <= prev <= parts.len(),
        spans_ok(spans, total_len(parts)),
    ensures
        spans_ok(spec_range_span(prev, parts, spans, data), total_len(parts)),
{
    lemma_total_len_split(parts, prev);
}

proof fn lemma_pre_sound(
    k: HandlerKind,
    ctx: PostParserContext,
    e: SpecElement,
    parts: Seq<Seq<u16>>,
    spans: Seq<Spannable>,
)
    requires
        spans_ok(spans, total_len(parts)),
    ensures
        ({
            let (fully, p1, s1) = spec_pre_of(k, ctx, e, parts, spans);
            spans_ok(s1, total_len(p1))
        }),
{
    let (fully, p1, s1) = spec_pre_of(k, ctx, e, parts, spans);
    if p1 != parts {
        // The only growing pre-effect appends one quote label and, at most,
        // one link spannable ending exactly at the new total.
        assert(p1 == parts.push(p1.last()));
        lemma_total_len_push(parts, p1.last());
        lemma_total_len_nonneg(parts);
        lemma_spans_ok_weaken(spans, total_len(parts), total_len(p1));
    }
}

proof fn lemma_post_sound(
    k: HandlerKind,
    ctx: PostParserContext,
    e: SpecElement,
    prev_parts: int,
    prev_spans: int,
    parts: Seq<Seq<u16>>,
    spans: Seq<Spannable>,
)
    requires
        0 <= prev_parts <= parts.len(),
        spans_ok(spans, total_len(parts)),
    ensures
        ({
            let (p2, s2) = spec_post_of(k, ctx, e, prev_parts, prev_spans, parts, spans);
            spans_ok(s2, total_len(p2))
        }),
{
    lemma_range_span_ok(prev_parts, parts, spans, SpannableData::GreenText);
    lemma_range_span_ok(prev_parts, parts, spans, SpannableData::Spoiler);
}

/// Every spannable the engine ever emits is valid and ends within the final
/// flattened length, provided the accumulators started that way.
pub proof fn lemma_flatten_node_sound(
    node: SpecNode,
    ctx: PostParserContext,
    parts: Seq<Seq<u16>>,
    spans: Seq<Spannable>,
)
    requires
        spans_ok(spans, total_len(parts)),
    ensures
        ({
            let (p2, s2) = spec_flatten_node(node, ctx, parts, spans);
            spans_ok(s2, total_len(p2))
        }),
    decreases node,
{
    match node {
        SpecNode::Text(t) => {
            lemma_total_len_push(parts, decoded_units_of(t));
            lemma_spans_ok_weaken(
                spans,
                total_len(parts),
                total_len(parts.push(decoded_units_of(t))),
            );
        }
        SpecNode::Element(e) => {
            let k = spec_handler_kind(e);
            lemma_pre_sound(k, ctx, e, parts, spans);
            let (fully, p1, s1) = spec_pre_of(k, ctx, e, parts, spans);
            if !fully {
                lemma_flatten_nodes_sound(e.children, ctx, p1, s1);
                lemma_flatten_nodes_extends(e.children, ctx, p1, s1);
                lemma_pre_extends(k, ctx, e, parts, spans);
                let (p2, s2) = spec_flatten_nodes(e.children, ctx, p1, s1);
                lemma_extends_trans(parts, p1, p2);
                lemma_post_sound(k, ctx, e, parts.len() as int, spans.len() as int, p2, s2);
            }
        }
    }
}

pub proof fn lemma_flatten_nodes_sound(
    nodes: Seq<SpecNode>,
    ctx: PostParserContext,
    parts: Seq<Seq<u16>>,
    spans: Seq<Spannable>,
)
    requires
        spans_ok(spans, total_len(parts)),
    ensures
        ({
            let (p2, s2) = spec_flatten_nodes(nodes, ctx, parts, spans);
            spans_ok(s2, total_len(p2))
        }),
    decreases nodes,
{
    if nodes.len() > 0 {
        lemma_flatten_node_sound(nodes[0], ctx, parts, spans);
        let (p1, s1) = spec_flatten_node(nodes[0], ctx, parts, spans);
        lemma_flatten_nodes_sound(nodes.drop_first(), ctx, p1, s1);
    }
}

/// Flattens one node into the shared accumulators.
pub fn flatten_node(
    node: &Node,
    post_parser_context: &PostParserContext,
    out_text_parts: &mut Vec<TextPart>,
    out_spannables: &mut Vec<Spannable>,
)
    requires
        parts_wf(old(out_text_parts)@),
    ensures
        ({
            let (p2, s2) = spec_flatten_node(
                node_view(*node),
                *post_parser_context,
                parts_of(old(out_text_parts)@),
                old(out_spannables)@,
            );
            &&& parts_of(final(out_text_parts)@) == p2
            &&& final(out_spannables)@ == s2
            &&& parts_wf(final(out_text_parts)@)
        }),
    decreases node,
{
    match node {
        Node::Text(text) => {
            let decoded = decode_entities(text);
            let part = TextPart::new(decoded);
            proof {
                lemma_parts_of_push(out_text_parts@, part);
            }
            out_text_parts.push(part);
        }
        Node::Element(element) => {
            let prev_out_text_parts_index: usize = out_text_parts.len();
            let prev_out_spannables_index: usize = out_spannables.len();
            let kind = select_handler(element);
            let fully_handled: bool = match kind {
                HandlerKind::Span => {
                    let handler = SpanHandler::new();
                    handler.pre_handle(
                        post_parser_context,
                        element,
                        out_text_parts,
                        out_spannables,
                    )
                }
                HandlerKind::Spoiler => {
                    let handler = SpoilerHandler::new();
                    handler.pre_handle(
                        post_parser_context,
                        element,
                        out_text_parts,
                        out_spannables,
                    )
                }
                HandlerKind::NoOp => false,
            };
            if !fully_handled {
                flatten_nodes(
                    &element.children,
                    post_parser_context,
                    out_text_parts,
                    out_spannables,
                );
                proof {
                    lemma_flatten_nodes_extends(
                        nodes_view(element.children@),
                        *post_parser_context,
                        spec_pre_of(
                            kind,
                            *post_parser_context,
                            elem_view(*element),
                            parts_of(old(out_text_parts)@),
                            old(out_spannables)@,
                        ).1,
                        spec_pre_of(
                            kind,
                            *post_parser_context,
                            elem_view(*element),
                            parts_of(old(out_text_parts)@),
                            old(out_spannables)@,
                        ).2,
                    );
                }
                match kind {
                    HandlerKind::Span => {
                        let handler = SpanHandler::new();
                        handler.post_handle(
                            post_parser_context,
                            element,
                            prev_out_text_parts_index,
                            out_text_parts,
                            prev_out_spannables_index,
                            out_spannables,
                        );
                    }
                    HandlerKind::Spoiler => {
                        let handler = SpoilerHandler::new();
                        handler.post_handle(
                            post_parser_context,
                            element,
                            prev_out_text_parts_index,
                            out_text_parts,
                            prev_out_spannables_index,
                            out_spannables,
                        );
                    }
                    HandlerKind::NoOp => {}
                }
            }
        }
    }
}

/// Flattens a sequence of sibling nodes, left to right.
#[verifier::loop_isolation(false)]
pub fn flatten_nodes(
    nodes: &Vec<Node>,
    post_parser_context: &PostParserContext,
    out_text_parts: &mut Vec<TextPart>,
    out_spannables: &mut Vec<Spannable>,
)
    requires
        parts_wf(old(out_text_parts)@),
    ensures
        ({
            let (p2, s2) = spec_flatten_nodes(
                nodes_view(nodes@),
                *post_parser_context,
                parts_of(old(out_text_parts)@),
                old(out_spannables)@,
            );
            &&& parts_of(final(out_text_parts)@) == p2
            &&& final(out_spannables)@ == s2
            &&& parts_wf(final(out_text_parts)@)
        }),
    decreases nodes@,
{
    let ghost full = nodes_view(nodes@);
    let ghost p0 = parts_of(out_text_parts@);
    let ghost s0 = out_spannables@;
    proof {
        lemma_nodes_view_len(nodes@);
        assert(full.subrange(0, full.len() as int) =~= full);
    }
    let mut i: usize = 0;
    while i < nodes.len()
        invariant
            0 <= i <= nodes@.len(),
            parts_wf(out_text_parts@),
            spec_flatten_nodes(full, *post_parser_context, p0, s0) == spec_flatten_nodes(
                full.subrange(i as int, full.len() as int),
                *post_parser_context,
                parts_of(out_text_parts@),
                out_spannables@,
            ),
        decreases nodes@.len() - i,
    {
        proof {
            assert(full.subrange(i as int, full.len() as int)[0] == full[i as int]);
            assert(full[i as int] == node_view(nodes@[i as int]));
        }
        flatten_node(&nodes[i], post_parser_context, out_text_parts, out_spannables);
        proof {
            assert(full.subrange(i as int, full.len() as int).drop_first() =~= full.subrange(
                i + 1,
                full.len() as int,
            ));
        }
        i += 1;
    }
    proof {
        assert(full.subrange(i as int, full.len() as int) =~= Seq::<SpecNode>::empty());
    }
}

/// Flattens parsed node trees into the flat text fragments and the
/// spannables over the final flattened text.
pub fn flatten(nodes: &Vec<Node>, post_parser_context: &PostParserContext) -> (r: (
    Vec<TextPart>,
    Vec<Spannable>,
))
    ensures
        ({
            let (p2, s2) = spec_flatten_nodes(
                nodes_view(nodes@),
                *post_parser_context,
                Seq::empty(),
                Seq::empty(),
            );
            &&& parts_of(r.0@) == p2
            &&& r.1@ == s2
            &&& parts_wf(r.0@)
            &&& spans_ok(r.1@, total_len(parts_of(r.0@)))
        }),
{
    let mut out_text_parts: Vec<TextPart> = Vec::new();
    let mut out_spannables: Vec<Spannable> = Vec::new();
    proof {
        assert(parts_of(out_text_parts@) =~= Seq::<Seq<u16>>::empty());
        lemma_flatten_nodes_sound(
            nodes_view(nodes@),
            *post_parser_context,
            Seq::empty(),
            Seq::empty(),
        );
    }
    flatten_nodes(nodes, post_parser_context, &mut out_text_parts, &mut out_spannables);
    (out_text_parts, out_spannables)
}

/// Parses a raw post body and flattens it into the final flat text and its
/// spannables; every spannable has positive length and ends within the text.
pub fn post_parse(html: &Vec<u16>, post_parser_context: &PostParserContext) -> (r: Result<
    (Vec<u16>, Vec<Spannable>),
    ParseError,
>)
    ensures
        match spec_parse(html@) {
            Err(e) => r == Result::<(Vec<u16>, Vec<Spannable>), ParseError>::Err(e),
            Ok(ns) => r is Ok && ({
                let (p2, s2) = spec_flatten_nodes(
                    ns,
                    *post_parser_context,
                    Seq::empty(),
                    Seq::empty(),
                );
                &&& r->Ok_0.0@ == flat_of(p2)
                &&& r->Ok_0.1@ == s2
                &&& spans_ok(s2, r->Ok_0.0@.len() as int)
            }),
        },
{
    let parser = HtmlParser::new();
    let nodes = match parser.parse(html) {
        Ok(nodes) => nodes,
        Err(e) => {
            return Err(e);
        }
    };
    let (out_text_parts, out_spannables) = flatten(&nodes, post_parser_context);
    let flat = concat_text_parts(&out_text_parts);
    proof {
        lemma_flat_len(parts_of(out_text_parts@));
    }
    Ok((flat, out_spannables))
}

} // verus!
