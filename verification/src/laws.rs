//! Properties of the library stated and proved in one place: parsed trees
//! are structurally well-formed, empty-bodied elements never annotate,
//! quote resolution is determined by the thread classification, and empty
//! attributes are dropped.

use vstd::prelude::*;
use crate::attrs::remove_key;
use crate::context::PostParserContext;
use crate::digits::spec_parse_u64;
use crate::engine::{spec_post_of, HandlerKind};
use crate::node::{spec_elem_wf, spec_node_wf, spec_nodes_wf, SpecElement, SpecNode, UNIT_GT};
use crate::parser::{spec_parse, spec_parse_internal, spec_parse_tag, ParseError};
use crate::span::spec_quote_text_effect;
use crate::tag::{spec_build_tag, spec_create_tag};
use crate::text_part::{lemma_total_len_nonneg, total_len};
use crate::{PostLink, Spannable, SpannableData};

verus! {

proof fn lemma_nodes_wf_push(nodes: Seq<SpecNode>, n: SpecNode)
    requires
        spec_nodes_wf(nodes),
        spec_node_wf(n),
    ensures
        spec_nodes_wf(nodes.push(n)),
{
    assert forall|i: int| 0 <= i < nodes.push(n).len() implies spec_node_wf(
        #[trigger] nodes.push(n)[i],
    ) by {
        if i < nodes.len() {
            assert(nodes.push(n)[i] == nodes[i]);
        } else {
            assert(nodes.push(n)[i] == n);
        }
    }
}

proof fn lemma_parse_internal_wf(html: Seq<u16>, i: int, buf: Seq<u16>, acc: Seq<SpecNode>)
    requires
        spec_nodes_wf(acc),
    ensures
        match spec_parse_internal(html, i, buf, acc) {
            Ok((ns, _, _)) => spec_nodes_wf(ns),
            Err(_) => true,
        },
    decreases html.len() - i,
{
    let flushed = crate::parser::flush_buf(acc, buf);
    assert(spec_nodes_wf(flushed)) by {
        if buf.len() > 0 {
            assert(spec_node_wf(SpecNode::Text(buf)));
            lemma_nodes_wf_push(acc, SpecNode::Text(buf));
        }
    }
    if 0 <= i < html.len() {
        let c = html[i];
        if c == crate::node::UNIT_LT {
            if !(i + 1 < html.len() && html[i + 1] == crate::node::UNIT_SLASH) {
                match spec_parse_tag(html, i + 1) {
                    Err(_) => {}
                    Ok((se, off)) => {
                        lemma_parse_tag_wf(html, i + 1);
                        lemma_nodes_wf_push(flushed, SpecNode::Element(se));
                        let i2 = if i < off && off <= html.len() {
                            off
                        } else {
                            i + 1
                        };
                        lemma_parse_internal_wf(
                            html,
                            i2,
                            Seq::empty(),
                            flushed.push(SpecNode::Element(se)),
                        );
                    }
                }
            }
        } else {
            lemma_parse_internal_wf(html, i + 1, buf.push(c), acc);
        }
    }
}

proof fn lemma_parse_tag_wf(html: Seq<u16>, i: int)
    ensures
        match spec_parse_tag(html, i) {
            Ok((se, _)) => spec_elem_wf(se),
            Err(_) => true,
        },
    decreases html.len() - i,
{
    if 0 <= i < html.len() {
        let found = crate::tag::spec_find(html, UNIT_GT, i);
        let rawend = match found {
            Some(k) => if i <= k && k <= html.len() {
                k
            } else {
                i
            },
            None => html.len() as int,
        };
        let raw = html.subrange(i, rawend);
        let after = match found {
            Some(_) => rawend + 1,
            None => html.len() as int,
        };
        match spec_create_tag(raw) {
            Err(_) => {}
            Ok(se) => {
                if se.is_void_element {
                } else {
                    let after2 = if i < after && after <= html.len() {
                        after
                    } else {
                        i + 1
                    };
                    lemma_parse_internal_wf(html, after2, Seq::empty(), Seq::empty());
                }
            }
        }
    }
}

/// Round-trip of structure: in any tree the parser returns, every element's
/// void flag agrees with the fixed void-element table, and a void element
/// has an empty child sequence — so a post of N top-level void elements
/// parses to N childless element nodes.
pub proof fn lemma_parse_well_formed(html: Seq<u16>)
    ensures
        match spec_parse(html) {
            Ok(ns) => spec_nodes_wf(ns),
            Err(_) => true,
        },
{
    lemma_parse_internal_wf(html, 0, Seq::empty(), Seq::empty());
}

/// Empty-body suppression: when the element's subtree contributed no text
/// units since the snapshot, no handler's post hook emits a spannable.
pub proof fn lemma_empty_body_suppression(
    k: HandlerKind,
    ctx: PostParserContext,
    e: SpecElement,
    prev_parts: int,
    prev_spans: int,
    parts: Seq<Seq<u16>>,
    spans: Seq<Spannable>,
)
    requires
        0 <= prev_parts <= parts.len(),
        total_len(parts.subrange(prev_parts, parts.len() as int)) == 0,
    ensures
        spec_post_of(k, ctx, e, prev_parts, prev_spans, parts, spans).1 == spans,
        spec_post_of(k, ctx, e, prev_parts, prev_spans, parts, spans).0 == parts,
{
}

/// Quote resolution determinism: a well-formed `>>`-label whose number the
/// context classifies as internal yields a `Quote` link, any other number a
/// `Dead` link, and the label itself is appended to the flat text either way.
pub proof fn lemma_quote_resolution(
    ctx: PostParserContext,
    d: Seq<u16>,
    parts: Seq<Seq<u16>>,
    spans: Seq<Spannable>,
)
    requires
        d.len() >= 2,
        d[0] == UNIT_GT,
        d[1] == UNIT_GT,
        spec_parse_u64(d.subrange(2, d.len() as int)) is Some,
        total_len(parts) + d.len() <= usize::MAX,
    ensures
        ({
            let no = spec_parse_u64(d.subrange(2, d.len() as int))->0;
            let link = if ctx.spec_is_internal(no) {
                PostLink::Quote { post_no: no }
            } else {
                PostLink::Dead { post_no: no }
            };
            let (p2, s2) = spec_quote_text_effect(ctx, d, parts, spans);
            p2 == parts.push(d) && s2 == spans.push(
                Spannable {
                    start: total_len(parts) as usize,
                    len: d.len() as usize,
                    spannable_data: SpannableData::Link(link),
                },
            )
        }),
{
    lemma_total_len_nonneg(parts);
}

proof fn lemma_remove_key_keeps(
    attrs: Seq<(Seq<u16>, Seq<u16>)>,
    k: Seq<u16>,
)
    requires
        forall|j: int| 0 <= j < attrs.len() ==> (#[trigger] attrs[j]).0.len() > 0
            && attrs[j].1.len() > 0,
    ensures
        forall|j: int| 0 <= j < remove_key(attrs, k).len() ==> (#[trigger] remove_key(
            attrs,
            k,
        )[j]).0.len() > 0 && remove_key(attrs, k)[j].1.len() > 0,
    decreases attrs.len(),
{
    reveal(Seq::filter);
    if attrs.len() > 0 {
        let prefix = attrs.drop_last();
        assert(forall|j: int| 0 <= j < prefix.len() ==> prefix[j] == attrs[j]);
        lemma_remove_key_keeps(prefix, k);
        let sub = remove_key(prefix, k);
        let whole = remove_key(attrs, k);
        if attrs.last().0 != k {
            assert(whole == sub.push(attrs.last()));
            assert forall|j: int| 0 <= j < whole.len() implies (#[trigger] whole[j]).0.len() > 0
                && whole[j].1.len() > 0 by {
                if j < sub.len() {
                    assert(whole[j] == sub[j]);
                } else {
                    assert(whole[j] == attrs.last());
                    assert(attrs.last() == attrs[attrs.len() - 1]);
                }
            }
        } else {
            assert(whole == sub);
        }
    }
}

proof fn lemma_build_tag_no_empty_attrs(
    parts: Seq<Seq<u16>>,
    i: int,
    name: Option<Seq<u16>>,
    attrs: Seq<(Seq<u16>, Seq<u16>)>,
)
    requires
        forall|j: int| 0 <= j < attrs.len() ==> (#[trigger] attrs[j]).0.len() > 0
            && attrs[j].1.len() > 0,
    ensures
        match spec_build_tag(parts, i, name, attrs) {
            Some((_, out)) => forall|j: int| 0 <= j < out.len() ==> (#[trigger] out[j]).0.len() > 0
                && out[j].1.len() > 0,
            None => true,
        },
    decreases parts.len() - i,
{
    if 0 <= i < parts.len() {
        let p = parts[i];
        match crate::tag::spec_find(p, crate::node::UNIT_EQ, 0) {
            None => {
                let name2 = if name is None && p.len() > 0 {
                    Some(p)
                } else {
                    name
                };
                lemma_build_tag_no_empty_attrs(parts, i + 1, name2, attrs);
            }
            Some(j) => {
                let an = p.subrange(0, j);
                let av = crate::tag::spec_strip_quotes(p.subrange(j + 1, p.len() as int));
                if an.len() > 0 && av.len() > 0 {
                    lemma_remove_key_keeps(attrs, an);
                    let attrs2 = remove_key(attrs, an).push((an, av));
                    assert forall|jj: int| 0 <= jj < attrs2.len() implies (
                    #[trigger] attrs2[jj]).0.len() > 0 && attrs2[jj].1.len() > 0 by {
                        if jj < remove_key(attrs, an).len() {
                            assert(attrs2[jj] == remove_key(attrs, an)[jj]);
                        } else {
                            assert(attrs2[jj] == (an, av));
                        }
                    }
                    lemma_build_tag_no_empty_attrs(parts, i + 1, name, attrs2);
                } else {
                    lemma_build_tag_no_empty_attrs(parts, i + 1, name, attrs);
                }
            }
        }
    }
}

/// Attribute dropping: an attribute whose name or unquoted value is empty is
/// never stored, so every attribute of a parsed tag has a non-empty name and
/// a non-empty value.
pub proof fn lemma_create_tag_no_empty_attrs(raw: Seq<u16>)
    ensures
        match spec_create_tag(raw) {
            Ok(se) => forall|j: int| 0 <= j < se.attributes.len() ==> (
            #[trigger] se.attributes[j]).0.len() > 0 && se.attributes[j].1.len() > 0,
            Err(_) => true,
        },
{
    lemma_build_tag_no_empty_attrs(
        crate::tag::spec_split_parts(raw, crate::node::UNIT_SPACE),
        0,
        None,
        Seq::empty(),
    );
}

} // verus!
