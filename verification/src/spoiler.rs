//! The spoiler handler: a dedicated strike tag whose whole flattened
//! descendant range is marked as a spoiler, measured after the children.

use vstd::prelude::*;
use crate::context::PostParserContext;
use crate::node::{Element, SpecElement};
use crate::rule_handler::{push_range_span, spec_range_span, RuleHandler};
use crate::text_part::TextPart;
use crate::{Spannable, SpannableData};

verus! {

pub struct SpoilerHandler {}

impl SpoilerHandler {
    pub fn new() -> (r: SpoilerHandler) {
        SpoilerHandler {  }
    }
}

impl RuleHandler for SpoilerHandler {
    open spec fn spec_pre(
        self,
        ctx: PostParserContext,
        e: SpecElement,
        parts: Seq<Seq<u16>>,
        spans: Seq<Spannable>,
    ) -> (bool, Seq<Seq<u16>>, Seq<Spannable>) {
        (false, parts, spans)
    }

    open spec fn spec_post(
        self,
        ctx: PostParserContext,
        e: SpecElement,
        prev_parts: int,
        prev_spans: int,
        parts: Seq<Seq<u16>>,
        spans: Seq<Spannable>,
    ) -> (Seq<Seq<u16>>, Seq<Spannable>) {
        if parts.len() == prev_parts {
            (parts, spans)
        } else {
            (parts, spec_range_span(prev_parts, parts, spans, SpannableData::Spoiler))
        }
    }

    fn pre_handle(
        &self,
        post_parser_context: &PostParserContext,
        element: &Element,
        out_text_parts: &mut Vec<TextPart>,
        out_spannables: &mut Vec<Spannable>,
    ) -> (fully_handled: bool) {
        // The spoiler range can only be measured once the children's total
        // text size is known, so nothing happens before them.
        false
    }

    fn post_handle(
        &self,
        post_parser_context: &PostParserContext,
        element: &Element,
        prev_out_text_parts_index: usize,
        out_text_parts: &mut Vec<TextPart>,
        prev_out_spannables_index: usize,
        out_spannables: &mut Vec<Spannable>,
    ) {
        if prev_out_text_parts_index == out_text_parts.len() {
            // Nothing was added since the snapshot: the tag has an empty body
            // and carries no annotatable range.
            return;
        }
        push_range_span(
            prev_out_text_parts_index,
            out_text_parts,
            out_spannables,
            SpannableData::Spoiler,
        );
    }
}

} // verus!
