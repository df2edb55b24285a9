//! The two-phase hook protocol every rule handler follows, and the shared
//! range-span bookkeeping.
//!
//! `pre_handle` runs before an element's children are flattened and may fully
//! own the element (suppressing recursion and `post_handle`); `post_handle`
//! runs afterwards and measures exactly what the element's subtree added.

use vstd::prelude::*;
use crate::context::PostParserContext;
use crate::node::{elem_view, Element, SpecElement};
use crate::text_part::{
    concat_range, flat_of, lemma_total_len_mono, lemma_total_len_nonneg, parts_of, parts_wf,
    sum_characters, total_len, TextPart,
};
use crate::{Spannable, SpannableData};

verus! {

pub trait RuleHandler: Sized {
    /// What this handler does to the accumulators on seeing the element
    /// before its children, and whether it fully owns the element.
    spec fn spec_pre(
        self,
        ctx: PostParserContext,
        e: SpecElement,
        parts: Seq<Seq<u16>>,
        spans: Seq<Spannable>,
    ) -> (bool, Seq<Seq<u16>>, Seq<Spannable>);

    /// What this handler does to the accumulators after the element's
    /// children were flattened, `prev_parts` and `prev_spans` being the
    /// accumulator lengths snapshotted before the element.
    spec fn spec_post(
        self,
        ctx: PostParserContext,
        e: SpecElement,
        prev_parts: int,
        prev_spans: int,
        parts: Seq<Seq<u16>>,
        spans: Seq<Spannable>,
    ) -> (Seq<Seq<u16>>, Seq<Spannable>);

    fn pre_handle(
        &self,
        post_parser_context: &PostParserContext,
        element: &Element,
        out_text_parts: &mut Vec<TextPart>,
        out_spannables: &mut Vec<Spannable>,
    ) -> (fully_handled: bool)
        requires
            parts_wf(old(out_text_parts)@),
        ensures
            ({
                let (f, p2, s2) = self.spec_pre(
                    *post_parser_context,
                    elem_view(*element),
                    parts_of(old(out_text_parts)@),
                    old(out_spannables)@,
                );
                &&& fully_handled == f
                &&& parts_of(final(out_text_parts)@) == p2
                &&& final(out_spannables)@ == s2
                &&& parts_wf(final(out_text_parts)@)
            }),
    ;

    fn post_handle(
        &self,
        post_parser_context: &PostParserContext,
        element: &Element,
        prev_out_text_parts_index: usize,
        out_text_parts: &mut Vec<TextPart>,
        prev_out_spannables_index: usize,
        out_spannables: &mut Vec<Spannable>,
    )
        requires
            parts_wf(old(out_text_parts)@),
            prev_out_text_parts_index <= old(out_text_parts)@.len(),
            prev_out_spannables_index <= old(out_spannables)@.len(),
        ensures
            ({
                let (p2, s2) = self.spec_post(
                    *post_parser_context,
                    elem_view(*element),
                    prev_out_text_parts_index as int,
                    prev_out_spannables_index as int,
                    parts_of(old(out_text_parts)@),
                    old(out_spannables)@,
                );
                &&& parts_of(final(out_text_parts)@) == p2
                &&& final(out_spannables)@ == s2
                &&& parts_wf(final(out_text_parts)@)
            }),
    ;
}

/// Measuring helpers over the shared text-part accumulator.
pub trait RuleHandlerPostHandleMeta {
    /// The text the element's subtree contributed, concatenated.
    fn get_out_text_parts_diff_text(
        &self,
        prev_out_text_parts_index: usize,
        out_text_parts: &Vec<TextPart>,
    ) -> (r: Vec<u16>)
        requires
            prev_out_text_parts_index <= out_text_parts@.len(),
        ensures
            r@ == flat_of(
                parts_of(out_text_parts@).subrange(
                    prev_out_text_parts_index as int,
                    out_text_parts@.len() as int,
                ),
            ),
    ;

    /// The summed length of everything emitted before the snapshot: the
    /// start offset of the element's range.
    fn get_out_text_parts_diff_len(
        &self,
        prev_out_text_parts_index: usize,
        out_text_parts: &Vec<TextPart>,
    ) -> (r: Option<usize>)
        requires
            prev_out_text_parts_index <= out_text_parts@.len(),
            parts_wf(out_text_parts@),
        ensures
            match r {
                Some(n) => n == total_len(
                    parts_of(out_text_parts@).subrange(0, prev_out_text_parts_index as int),
                ),
                None => total_len(
                    parts_of(out_text_parts@).subrange(0, prev_out_text_parts_index as int),
                ) > usize::MAX,
            },
    ;

    /// The summed length of everything the element's subtree contributed:
    /// the length of the element's range.
    fn get_out_text_parts_new_len(
        &self,
        prev_out_text_parts_index: usize,
        out_text_parts: &Vec<TextPart>,
    ) -> (r: Option<usize>)
        requires
            prev_out_text_parts_index <= out_text_parts@.len(),
            parts_wf(out_text_parts@),
        ensures
            match r {
                Some(n) => n == total_len(
                    parts_of(out_text_parts@).subrange(
                        prev_out_text_parts_index as int,
                        out_text_parts@.len() as int,
                    ),
                ),
                None => total_len(
                    parts_of(out_text_parts@).subrange(
                        prev_out_text_parts_index as int,
                        out_text_parts@.len() as int,
                    ),
                ) > usize::MAX,
            },
    ;
}

impl<T: RuleHandler> RuleHandlerPostHandleMeta for T {
    fn get_out_text_parts_diff_text(
        &self,
        prev_out_text_parts_index: usize,
        out_text_parts: &Vec<TextPart>,
    ) -> (r: Vec<u16>) {
        concat_range(out_text_parts, prev_out_text_parts_index, out_text_parts.len())
    }

    fn get_out_text_parts_diff_len(
        &self,
        prev_out_text_parts_index: usize,
        out_text_parts: &Vec<TextPart>,
    ) -> (r: Option<usize>) {
        sum_characters(out_text_parts, 0, prev_out_text_parts_index)
    }

    fn get_out_text_parts_new_len(
        &self,
        prev_out_text_parts_index: usize,
        out_text_parts: &Vec<TextPart>,
    ) -> (r: Option<usize>) {
        sum_characters(out_text_parts, prev_out_text_parts_index, out_text_parts.len())
    }
}

/// The spannable a range-measuring handler appends: it covers everything the
/// element's subtree contributed, and is kept only when that range is
/// non-empty and its end fits the offset type.
pub open spec fn spec_range_span(
    prev: int,
    parts: Seq<Seq<u16>>,
    spans: Seq<Spannable>,
    data: SpannableData,
) -> Seq<Spannable> {
    let start = total_len(parts.subrange(0, prev));
    let slen = total_len(parts.subrange(prev, parts.len() as int));
    if slen > 0 && 0 <= start && start + slen <= usize::MAX {
        spans.push(
            Spannable { start: start as usize, len: slen as usize, spannable_data: data },
        )
    } else {
        spans
    }
}

/// Appends the range spannable described by `spec_range_span`.
pub fn push_range_span(
    prev: usize,
    out_text_parts: &Vec<TextPart>,
    out_spannables: &mut Vec<Spannable>,
    data: SpannableData,
)
    requires
        parts_wf(out_text_parts@),
        prev <= out_text_parts@.len(),
    ensures
        final(out_spannables)@ == spec_range_span(
            prev as int,
            parts_of(out_text_parts@),
            old(out_spannables)@,
            data,
        ),
{
    let ghost pv = parts_of(out_text_parts@);
    let start_opt = sum_characters(out_text_parts, 0, prev);
    let len_opt = sum_characters(out_text_parts, prev, out_text_parts.len());
    proof {
        lemma_total_len_nonneg(pv.subrange(0, prev as int));
        lemma_total_len_nonneg(pv.subrange(prev as int, pv.len() as int));
    }
    match (start_opt, len_opt) {
        (Some(start), Some(len)) => {
            match start.checked_add(len) {
                Some(_) => {
                    let spannable = Spannable { start, len, spannable_data: data };
                    if spannable.is_valid() {
                        out_spannables.push(spannable);
                    }
                }
                None => {}
            }
        }
        _ => {}
    }
}

} // verus!
