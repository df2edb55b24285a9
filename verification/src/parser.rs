//! The markup parser: a recursive, offset-driven tokenizer/tree-builder.
//!
//! Malformed input degrades to a best-effort tree, with two fatal exceptions:
//! a closing tag with no terminating `>` anywhere after it, and an opening
//! tag in which no part names the tag. Close tags are never matched against
//! the open tag's name: any closing sequence ends the innermost open element.

use vstd::prelude::*;
use crate::node::{elem_view, node_view, nodes_view, Element, Node, SpecElement, SpecNode};
use crate::node::{UNIT_GT, UNIT_LT, UNIT_SLASH};
use crate::node::{lemma_nodes_view_push};
use crate::tag::{spec_create_tag, spec_find, find_unit};

verus! {

/// The two unrecoverable parse outcomes: truncated input is reported rather
/// than returned as a corrupt tree.
#[derive(Clone, Copy, Debug, PartialEq, Eq, Structural)]
pub enum ParseError {
    UnterminatedClosingTag,
    TagWithoutName,
}

pub struct HtmlParser {}

/// The pending text buffer flushed as a `Text` node, skipped when empty.
pub open spec fn flush_buf(acc: Seq<SpecNode>, buf: Seq<u16>) -> Seq<SpecNode> {
    if buf.len() > 0 {
        acc.push(SpecNode::Text(buf))
    } else {
        acc
    }
}

/// Parsing node by node from position `i`, with `buf` the pending text run
/// and `acc` the nodes finished so far. Returns the nodes, the position just
/// past the consumed input, and whether a closing tag ended the run.
pub open spec fn spec_parse_internal(
    html: Seq<u16>,
    i: int,
    buf: Seq<u16>,
    acc: Seq<SpecNode>,
) -> Result<(Seq<SpecNode>, int, bool), ParseError>
    decreases html.len() - i,
{
    if i < 0 || i >= html.len() {
        Ok((flush_buf(acc, buf), i, false))
    } else {
        let c = html[i];
        if c == UNIT_LT {
            let acc2 = flush_buf(acc, buf);
            if i + 1 < html.len() && html[i + 1] == UNIT_SLASH {
                match spec_find(html, UNIT_GT, i + 1) {
                    None => Err(ParseError::UnterminatedClosingTag),
                    Some(k) => Ok((acc2, k + 1, true)),
                }
            } else {
                match spec_parse_tag(html, i + 1) {
                    Err(e) => Err(e),
                    Ok((se, off)) => {
                        let i2 = if i < off && off <= html.len() {
                            off
                        } else {
                            i + 1
                        };
                        spec_parse_internal(html, i2, Seq::empty(), acc2.push(SpecNode::Element(se)))
                    }
                }
            }
        } else {
            spec_parse_internal(html, i + 1, buf.push(c), acc)
        }
    }
}

/// Parsing one opening tag whose text starts at `i`: the raw tag text runs to
/// the first `>` (or the end of input); a non-void element then consumes its
/// children up to a closing tag, whose absence is fatal.
pub open spec fn spec_parse_tag(html: Seq<u16>, i: int) -> Result<(SpecElement, int), ParseError>
    decreases html.len() - i,
{
    if i < 0 || i >= html.len() {
        Err(ParseError::TagWithoutName)
    } else {
        let found = spec_find(html, UNIT_GT, i);
        let rawend = match found {
            Some(k) => if i <= k && k <= html.len() {
                k
            } else {
                i
            },
            None => html.len() as int,
        };
        let raw = html.subrange(i, rawend);
        let after = match found {
            Some(_) => rawend + 1,
            None => html.len() as int,
        };
        match spec_create_tag(raw) {
            Err(e) => Err(e),
            Ok(se) => {
                if se.is_void_element {
                    Ok((se, after))
                } else {
                    let after2 = if i < after && after <= html.len() {
                        after
                    } else {
                        i + 1
                    };
                    match spec_parse_internal(html, after2, Seq::empty(), Seq::empty()) {
                        Err(e) => Err(e),
                        Ok((children, end, closed)) => {
                            if closed {
                                Ok((
                                    SpecElement {
                                        tag_name: se.tag_name,
                                        attributes: se.attributes,
                                        children,
                                        is_void_element: false,
                                    },
                                    end,
                                ))
                            } else {
                                Err(ParseError::UnterminatedClosingTag)
                            }
                        }
                    }
                }
            }
        }
    }
}

/// The node sequence a whole input parses to, or the fatal error.
pub open spec fn spec_parse(html: Seq<u16>) -> Result<Seq<SpecNode>, ParseError> {
    match spec_parse_internal(html, 0, Seq::empty(), Seq::empty()) {
        Ok((ns, _, _)) => Ok(ns),
        Err(e) => Err(e),
    }
}

impl HtmlParser {
    pub fn new() -> (r: HtmlParser) {
        HtmlParser {  }
    }

    /// Parses a whole post body into its node trees, every one of them
    /// structurally well-formed.
    pub fn parse(&self, html: &Vec<u16>) -> (r: Result<Vec<Node>, ParseError>)
        ensures
            match spec_parse(html@) {
                Ok(ns) => r is Ok && nodes_view(r->Ok_0@) == ns,
                Err(e) => r == Result::<Vec<Node>, ParseError>::Err(e),
            },
            r is Ok ==> crate::node::spec_nodes_wf(nodes_view(r->Ok_0@)),
    {
        proof {
            crate::laws::lemma_parse_well_formed(html@);
        }
        match self.parse_internal(html, 0) {
            Ok((nodes, _, _)) => Ok(nodes),
            Err(e) => Err(e),
        }
    }

    #[verifier::loop_isolation(false)]
    fn parse_internal(&self, html: &Vec<u16>, start: usize) -> (r: Result<
        (Vec<Node>, usize, bool),
        ParseError,
    >)
        requires
            start <= html@.len(),
        ensures
            match spec_parse_internal(html@, start as int, Seq::empty(), Seq::empty()) {
                Ok((ns, off, closed)) => r is Ok && nodes_view(r->Ok_0.0@) == ns && r->Ok_0.1
                    == off && r->Ok_0.2 == closed && start <= r->Ok_0.1 <= html@.len(),
                Err(e) => r == Result::<(Vec<Node>, usize, bool), ParseError>::Err(e),
            },
        decreases html@.len() - start,
    {
        let mut out_nodes: Vec<Node> = Vec::new();
        let mut current_buffer: Vec<u16> = Vec::new();
        let mut offset: usize = start;

        while offset < html.len()
            invariant
                start <= offset <= html@.len(),
                spec_parse_internal(html@, start as int, Seq::empty(), Seq::empty())
                    == spec_parse_internal(
                    html@,
                    offset as int,
                    current_buffer@,
                    nodes_view(out_nodes@),
                ),
            decreases html@.len() - offset,
        {
            let curr_char = html[offset];
            if curr_char == UNIT_LT {
                if current_buffer.len() > 0 {
                    proof {
                        lemma_nodes_view_push(out_nodes@, Node::Text(current_buffer));
                    }
                    out_nodes.push(Node::Text(current_buffer));
                    current_buffer = Vec::new();
                }
                if offset + 1 < html.len() && html[offset + 1] == UNIT_SLASH {
                    match self.skip_tag_end(html, offset + 1) {
                        Ok(end) => {
                            return Ok((out_nodes, end, true));
                        }
                        Err(e) => {
                            return Err(e);
                        }
                    }
                } else {
                    match self.parse_tag(html, offset + 1) {
                        Ok((element, off)) => {
                            proof {
                                lemma_nodes_view_push(out_nodes@, Node::Element(element));
                                assert(current_buffer@ =~= Seq::<u16>::empty());
                            }
                            out_nodes.push(Node::Element(element));
                            offset = off;
                        }
                        Err(e) => {
                            return Err(e);
                        }
                    }
                }
            } else {
                current_buffer.push(curr_char);
                offset += 1;
            }
        }

        if current_buffer.len() > 0 {
            proof {
                lemma_nodes_view_push(out_nodes@, Node::Text(current_buffer));
            }
            out_nodes.push(Node::Text(current_buffer));
        }
        Ok((out_nodes, offset, false))
    }

    #[verifier::loop_isolation(false)]
    fn parse_tag(&self, html: &Vec<u16>, start: usize) -> (r: Result<(Element, usize), ParseError>)
        requires
            start <= html@.len(),
        ensures
            match spec_parse_tag(html@, start as int) {
                Ok((se, off)) => r is Ok && elem_view(r->Ok_0.0) == se && r->Ok_0.1 == off && start
                    < r->Ok_0.1 <= html@.len(),
                Err(e) => r == Result::<(Element, usize), ParseError>::Err(e),
            },
        decreases html@.len() - start,
    {
        let raw_end: usize;
        let after: usize;
        match find_unit(html, UNIT_GT, start) {
            Some(k) => {
                assert(k < html.len());
                raw_end = k;
                after = k + 1;
            }
            None => {
                raw_end = html.len();
                after = html.len();
            }
        }
        let raw = crate::tag::subvec(html, start, raw_end);
        let element = match self.create_tag(&raw) {
            Ok(el) => el,
            Err(e) => {
                return Err(e);
            }
        };
        if element.is_void_element {
            return Ok((element, after));
        }
        match self.parse_internal(html, after) {
            Err(e) => Err(e),
            Ok((child_nodes, end, closed)) => {
                if closed {
                    let updated = Element {
                        tag_name: element.tag_name,
                        attributes: element.attributes,
                        children: child_nodes,
                        is_void_element: false,
                    };
                    Ok((updated, end))
                } else {
                    Err(ParseError::UnterminatedClosingTag)
                }
            }
        }
    }

    /// Scans past the `>` that ends a closing tag; not finding one is the
    /// fatal truncation.
    fn skip_tag_end(&self, html: &Vec<u16>, start: usize) -> (r: Result<usize, ParseError>)
        requires
            start <= html@.len(),
        ensures
            match spec_find(html@, UNIT_GT, start as int) {
                Some(k) => r is Ok && r->Ok_0 == k + 1 && start < r->Ok_0 <= html@.len(),
                None => r == Result::<usize, ParseError>::Err(ParseError::UnterminatedClosingTag),
            },
    {
        match find_unit(html, UNIT_GT, start) {
            Some(k) => {
                assert(k < html.len());
                Ok(k + 1)
            }
            None => Err(ParseError::UnterminatedClosingTag),
        }
    }
}

} // verus!
