//! The span handler: inline quote references (`quotelink`/`deadlink` classes,
//! handled before recursion) and greentext (`quote` class, measured after the
//! children are flattened).

use vstd::prelude::*;
use crate::context::PostParserContext;
use crate::decode::{decode_entities, decoded_units_of};
use crate::digits::{parse_u64_digits, spec_parse_u64};
use crate::node::{
    elem_view, lemma_nodes_view_len, node_view, spec_has_class, Element, Node, SpecElement,
    SpecNode, UNIT_GT,
};
use crate::rule_handler::{push_range_span, spec_range_span, RuleHandler};
use crate::tag::subvec;
use crate::text_part::{
    lemma_parts_of_push, lemma_total_len_nonneg, parts_of, parts_wf, sum_characters, total_len,
    TextPart,
};
use crate::{PostLink, Spannable, SpannableData};

verus! {

/// The code units of the class name `quote`.
pub open spec fn quote_class() -> Seq<u16> {
    seq![113u16, 117u16, 111u16, 116u16, 101u16]
}

pub fn quote_class_vec() -> (r: Vec<u16>)
    ensures
        r@ == quote_class(),
{
    let r: Vec<u16> = vec![113u16, 117u16, 111u16, 116u16, 101u16];
    proof {
        assert(r@ =~= quote_class());
    }
    r
}

/// The code units of the class name `quotelink`.
pub open spec fn quotelink_class() -> Seq<u16> {
    seq![113u16, 117u16, 111u16, 116u16, 101u16, 108u16, 105u16, 110u16, 107u16]
}

pub fn quotelink_class_vec() -> (r: Vec<u16>)
    ensures
        r@ == quotelink_class(),
{
    let r: Vec<u16> = vec![113u16, 117u16, 111u16, 116u16, 101u16, 108u16, 105u16, 110u16, 107u16];
    proof {
        assert(r@ =~= quotelink_class());
    }
    r
}

/// The code units of the class name `deadlink`.
pub open spec fn deadlink_class() -> Seq<u16> {
    seq![100u16, 101u16, 97u16, 100u16, 108u16, 105u16, 110u16, 107u16]
}

pub fn deadlink_class_vec() -> (r: Vec<u16>)
    ensures
        r@ == deadlink_class(),
{
    let r: Vec<u16> = vec![100u16, 101u16, 97u16, 100u16, 108u16, 105u16, 110u16, 107u16];
    proof {
        assert(r@ =~= deadlink_class());
    }
    r
}

/// The effect of one decoded quote label `d`: when it reads `>>` followed by
/// a post number, the label is appended as a text part and the resolved link
/// (quote when the number is in the thread, dead otherwise) is recorded over
/// exactly that range; any other shape leaves both accumulators unchanged.
pub open spec fn spec_quote_text_effect(
    ctx: PostParserContext,
    d: Seq<u16>,
    parts: Seq<Seq<u16>>,
    spans: Seq<Spannable>,
) -> (Seq<Seq<u16>>, Seq<Spannable>) {
    if d.len() >= 2 && d[0] == UNIT_GT && d[1] == UNIT_GT {
        match spec_parse_u64(d.subrange(2, d.len() as int)) {
            Some(no) => {
                let link = if ctx.spec_is_internal(no) {
                    PostLink::Quote { post_no: no }
                } else {
                    PostLink::Dead { post_no: no }
                };
                let start = total_len(parts);
                (
                    parts.push(d),
                    if d.len() > 0 && 0 <= start && start + d.len() <= usize::MAX {
                        spans.push(
                            Spannable {
                                start: start as usize,
                                len: d.len() as usize,
                                spannable_data: SpannableData::Link(link),
                            },
                        )
                    } else {
                        spans
                    },
                )
            }
            None => (parts, spans),
        }
    } else {
        (parts, spans)
    }
}

/// The effect of the quote-link pre-handler on a marked element: a single
/// text child is treated as a quote label and fully handled; a single element
/// child is left to normal recursion (the nested node carries the label); any
/// other child count is a non-fatal skip that still suppresses recursion.
pub open spec fn spec_deadlink_effect(
    ctx: PostParserContext,
    e: SpecElement,
    parts: Seq<Seq<u16>>,
    spans: Seq<Spannable>,
) -> (bool, Seq<Seq<u16>>, Seq<Spannable>) {
    if e.children.len() != 1 {
        (true, parts, spans)
    } else {
        match e.children[0] {
            SpecNode::Text(t) => {
                let eff = spec_quote_text_effect(ctx, decoded_units_of(t), parts, spans);
                (true, eff.0, eff.1)
            }
            SpecNode::Element(_) => (false, parts, spans),
        }
    }
}

/// Appends the quote label text and its resolved link spannable, the range
/// starting at the pre-existing total text length.
pub fn handle_single_post_quote(
    post_link: PostLink,
    quote_text: &Vec<u16>,
    out_text_parts: &mut Vec<TextPart>,
    out_spannables: &mut Vec<Spannable>,
)
    requires
        parts_wf(old(out_text_parts)@),
    ensures
        parts_of(final(out_text_parts)@) == parts_of(old(out_text_parts)@).push(quote_text@),
        parts_wf(final(out_text_parts)@),
        final(out_spannables)@ == ({
            let start = total_len(parts_of(old(out_text_parts)@));
            if quote_text@.len() > 0 && 0 <= start && start + quote_text@.len() <= usize::MAX {
                old(out_spannables)@.push(
                    Spannable {
                        start: start as usize,
                        len: quote_text@.len() as usize,
                        spannable_data: SpannableData::Link(post_link),
                    },
                )
            } else {
                old(out_spannables)@
            }
        }),
{
    let ghost pv = parts_of(out_text_parts@);
    let total_opt = sum_characters(out_text_parts, 0, out_text_parts.len());
    proof {
        assert(pv.subrange(0, pv.len() as int) =~= pv);
        lemma_total_len_nonneg(pv);
    }
    let label = subvec(quote_text, 0, quote_text.len());
    proof {
        assert(label@ =~= quote_text@);
    }
    let part = TextPart::new(label);
    proof {
        lemma_parts_of_push(out_text_parts@, part);
    }
    out_text_parts.push(part);
    match total_opt {
        Some(start) => {
            let len = quote_text.len();
            match start.checked_add(len) {
                Some(_) => {
                    let spannable = Spannable {
                        start,
                        len,
                        spannable_data: SpannableData::Link(post_link),
                    };
                    if spannable.is_valid() {
                        out_spannables.push(spannable);
                    }
                }
                None => {}
            }
        }
        None => {}
    }
}

pub struct SpanHandler {}

impl SpanHandler {
    pub fn new() -> (r: SpanHandler) {
        SpanHandler {  }
    }

    /// Handles a quote-link element: decodes its single text child, parses
    /// the `>>`-prefixed post number, resolves it against the thread, and
    /// emits the label with its link spannable; returns whether recursion
    /// into the children is suppressed.
    fn handle_deadlink_class(
        &self,
        post_parser_context: &PostParserContext,
        element: &Element,
        out_text_parts: &mut Vec<TextPart>,
        out_spannables: &mut Vec<Spannable>,
    ) -> (r: bool)
        requires
            parts_wf(old(out_text_parts)@),
        ensures
            ({
                let (f, p2, s2) = spec_deadlink_effect(
                    *post_parser_context,
                    elem_view(*element),
                    parts_of(old(out_text_parts)@),
                    old(out_spannables)@,
                );
                &&& r == f
                &&& parts_of(final(out_text_parts)@) == p2
                &&& final(out_spannables)@ == s2
                &&& parts_wf(final(out_text_parts)@)
            }),
    {
        proof {
            lemma_nodes_view_len(element.children@);
        }
        if element.children.len() != 1 {
            return true;
        }
        match &element.children[0] {
            Node::Element(_) => false,
            Node::Text(text) => {
                proof {
                    assert(node_view(element.children@[0]) == SpecNode::Text(text@));
                }
                let decoded = decode_entities(text);
                if decoded.len() >= 2 && decoded[0] == UNIT_GT && decoded[1] == UNIT_GT {
                    let digits = subvec(&decoded, 2, decoded.len());
                    match parse_u64_digits(&digits) {
                        Some(no) => {
                            let link = if post_parser_context.is_internal_thread_post(no) {
                                PostLink::Quote { post_no: no }
                            } else {
                                PostLink::Dead { post_no: no }
                            };
                            handle_single_post_quote(
                                link,
                                &decoded,
                                out_text_parts,
                                out_spannables,
                            );
                            true
                        }
                        None => true,
                    }
                } else {
                    true
                }
            }
        }
    }

    /// Emits the greentext spannable over everything the element's subtree
    /// contributed.
    pub fn handle_quote_class(
        &self,
        prev_out_text_parts_index: usize,
        out_text_parts: &mut Vec<TextPart>,
        out_spannables: &mut Vec<Spannable>,
    )
        requires
            parts_wf(old(out_text_parts)@),
            prev_out_text_parts_index <= old(out_text_parts)@.len(),
        ensures
            final(out_text_parts)@ == old(out_text_parts)@,
            final(out_spannables)@ == spec_range_span(
                prev_out_text_parts_index as int,
                parts_of(old(out_text_parts)@),
                old(out_spannables)@,
                SpannableData::GreenText,
            ),
    {
        push_range_span(
            prev_out_text_parts_index,
            out_text_parts,
            out_spannables,
            SpannableData::GreenText,
        );
    }
}

impl RuleHandler for SpanHandler {
    open spec fn spec_pre(
        self,
        ctx: PostParserContext,
        e: SpecElement,
        parts: Seq<Seq<u16>>,
        spans: Seq<Spannable>,
    ) -> (bool, Seq<Seq<u16>>, Seq<Spannable>) {
        if spec_has_class(e, deadlink_class()) || spec_has_class(e, quotelink_class()) {
            spec_deadlink_effect(ctx, e, parts, spans)
        } else {
            (false, parts, spans)
        }
    }

    open spec fn spec_post(
        self,
        ctx: PostParserContext,
        e: SpecElement,
        prev_parts: int,
        prev_spans: int,
        parts: Seq<Seq<u16>>,
        spans: Seq<Spannable>,
    ) -> (Seq<Seq<u16>>, Seq<Spannable>) {
        if parts.len() == prev_parts {
            (parts, spans)
        } else if spec_has_class(e, quote_class()) {
            (parts, spec_range_span(prev_parts, parts, spans, SpannableData::GreenText))
        } else {
            (parts, spans)
        }
    }

    fn pre_handle(
        &self,
        post_parser_context: &PostParserContext,
        element: &Element,
        out_text_parts: &mut Vec<TextPart>,
        out_spannables: &mut Vec<Spannable>,
    ) -> (fully_handled: bool) {
        let dl = deadlink_class_vec();
        let ql = quotelink_class_vec();
        if element.has_class(&dl) || element.has_class(&ql) {
            self.handle_deadlink_class(
                post_parser_context,
                element,
                out_text_parts,
                out_spannables,
            )
        } else {
            false
        }
    }

    fn post_handle(
        &self,
        post_parser_context: &PostParserContext,
        element: &Element,
        prev_out_text_parts_index: usize,
        out_text_parts: &mut Vec<TextPart>,
        prev_out_spannables_index: usize,
        out_spannables: &mut Vec<Spannable>,
    ) {
        if prev_out_text_parts_index == out_text_parts.len() {
            // Nothing was added since the snapshot: the tag has an empty body
            // and carries no annotatable range.
            return;
        }
        let qc = quote_class_vec();
        if element.has_class(&qc) {
            self.handle_quote_class(
                prev_out_text_parts_index,
                out_text_parts,
                out_spannables,
            );
        }
    }
}

} // verus!
