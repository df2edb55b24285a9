//! Debug rendering of a parsed tree back into one string of units: each text
//! run or opening tag on a line of its own, attributes listed in order.

use vstd::prelude::*;
use linked_hash_map::LinkedHashMap;
use crate::attrs::{lhm_entries, lhm_entries_vec};
use crate::node::{
    node_view, nodes_view, lemma_nodes_view_len, Node, SpecNode,
    UNIT_COMMA, UNIT_EQ, UNIT_GT, UNIT_LT, UNIT_NL, UNIT_SPACE,
};
use crate::parser::HtmlParser;

verus! {

/// `, name=value` for each attribute, in insertion order.
pub open spec fn spec_debug_attrs(entries: Seq<(Seq<u16>, Seq<u16>)>) -> Seq<u16>
    decreases entries.len(),
{
    if entries.len() == 0 {
        Seq::empty()
    } else {
        seq![UNIT_COMMA, UNIT_SPACE] + entries[0].0 + seq![UNIT_EQ] + entries[0].1
            + spec_debug_attrs(entries.drop_first())
    }
}

/// A text run becomes its own line; an element becomes `<name, attrs...>` on
/// a line followed by the lines of its children.
pub open spec fn spec_debug_node(n: SpecNode) -> Seq<u16>
    decreases n,
{
    match n {
        SpecNode::Text(t) => t + seq![UNIT_NL],
        SpecNode::Element(e) => seq![UNIT_LT] + e.tag_name + spec_debug_attrs(e.attributes) + seq![
            UNIT_GT,
            UNIT_NL,
        ] + spec_debug_nodes(e.children),
    }
}

pub open spec fn spec_debug_nodes(nodes: Seq<SpecNode>) -> Seq<u16>
    decreases nodes,
{
    if nodes.len() == 0 {
        Seq::empty()
    } else {
        spec_debug_node(nodes[0]) + spec_debug_nodes(nodes.drop_first())
    }
}

/// Appends a copy of `s` to `out`.
#[verifier::loop_isolation(false)]
pub fn append_units(out: &mut Vec<u16>, s: &Vec<u16>)
    ensures
        final(out)@ == old(out)@ + s@,
{
    let mut i: usize = 0;
    proof {
        assert(out@ =~= old(out)@ + s@.subrange(0, 0));
    }
    while i < s.len()
        invariant
            0 <= i <= s@.len(),
            out@ == old(out)@ + s@.subrange(0, i as int),
        decreases s@.len() - i,
    {
        out.push(s[i]);
        proof {
            assert(out@ =~= old(out)@ + s@.subrange(0, i + 1));
        }
        i += 1;
    }
    proof {
        assert(s@.subrange(0, i as int) =~= s@);
    }
}

impl HtmlParser {
    #[verifier::loop_isolation(false)]
    fn debug_format_attributes(&self, attributes: &LinkedHashMap<Vec<u16>, Vec<u16>>) -> (r: Vec<
        u16,
    >)
        ensures
            r@ == spec_debug_attrs(lhm_entries(*attributes)),
    {
        let ghost entries = lhm_entries(*attributes);
        let entries_vec = lhm_entries_vec(attributes);
        let mut out: Vec<u16> = Vec::new();
        let mut i: usize = 0;
        proof {
            assert(entries.subrange(0, entries.len() as int) =~= entries);
            assert(spec_debug_attrs(entries) =~= out@ + spec_debug_attrs(entries));
        }
        while i < entries_vec.len()
            invariant
                0 <= i <= entries.len(),
                entries_vec@.len() == entries.len(),
                forall|j: int| 0 <= j < entries.len() ==> (#[trigger] entries_vec@[j]).0@
                    == entries[j].0 && entries_vec@[j].1@ == entries[j].1,
                spec_debug_attrs(entries) == out@ + spec_debug_attrs(
                    entries.subrange(i as int, entries.len() as int),
                ),
            decreases entries_vec@.len() - i,
        {
            let ghost rest = entries.subrange(i as int, entries.len() as int);
            proof {
                assert(rest[0] == entries[i as int]);
                assert(rest.drop_first() =~= entries.subrange(i + 1, entries.len() as int));
            }
            out.push(UNIT_COMMA);
            out.push(UNIT_SPACE);
            append_units(&mut out, &entries_vec[i].0);
            out.push(UNIT_EQ);
            append_units(&mut out, &entries_vec[i].1);
            proof {
                assert(spec_debug_attrs(entries) =~= out@ + spec_debug_attrs(
                    entries.subrange(i + 1, entries.len() as int),
                ));
            }
            i += 1;
        }
        proof {
            assert(entries.subrange(i as int, entries.len() as int) =~= Seq::<
                (Seq<u16>, Seq<u16>),
            >::empty());
            assert(out@ =~= spec_debug_attrs(entries));
        }
        out
    }

    /// Appends the debug rendering of the nodes to `out`.
    #[verifier::loop_isolation(false)]
    pub fn debug_concat_into_string_internal(&self, nodes: &Vec<Node>, out: &mut Vec<u16>)
        ensures
            final(out)@ == old(out)@ + spec_debug_nodes(nodes_view(nodes@)),
        decreases nodes@,
    {
        let ghost full = nodes_view(nodes@);
        proof {
            lemma_nodes_view_len(nodes@);
            assert(full.subrange(0, full.len() as int) =~= full);
            assert(out@ =~= old(out)@ + Seq::<u16>::empty());
            assert(old(out)@ + spec_debug_nodes(full) =~= out@ + spec_debug_nodes(full));
        }
        let mut i: usize = 0;
        while i < nodes.len()
            invariant
                0 <= i <= nodes@.len(),
                old(out)@ + spec_debug_nodes(full) == out@ + spec_debug_nodes(
                    full.subrange(i as int, full.len() as int),
                ),
            decreases nodes@.len() - i,
        {
            let ghost rest = full.subrange(i as int, full.len() as int);
            let ghost out0 = out@;
            proof {
                assert(rest[0] == full[i as int]);
                assert(full[i as int] == node_view(nodes@[i as int]));
                assert(rest.drop_first() =~= full.subrange(i + 1, full.len() as int));
                assert(spec_debug_nodes(rest) == spec_debug_node(rest[0]) + spec_debug_nodes(
                    rest.drop_first(),
                ));
            }
            match &nodes[i] {
                Node::Text(text) => {
                    proof {
                        assert(rest[0] == SpecNode::Text(text@));
                        assert(spec_debug_node(rest[0]) == text@ + seq![UNIT_NL]);
                    }
                    append_units(out, text);
                    out.push(UNIT_NL);
                    proof {
                        assert(out@ =~= out0 + spec_debug_node(rest[0]));
                        assert(out0 + spec_debug_nodes(rest) =~= out@ + spec_debug_nodes(
                            rest.drop_first(),
                        ));
                    }
                }
                Node::Element(element) => {
                    proof {
                        assert(rest[0] == SpecNode::Element(crate::node::elem_view(*element)));
                    }
                    out.push(UNIT_LT);
                    append_units(out, &element.tag_name);
                    let attrs = self.debug_format_attributes(&element.attributes);
                    append_units(out, &attrs);
                    out.push(UNIT_GT);
                    out.push(UNIT_NL);
                    let ghost out1 = out@;
                    proof {
                        assert(out1 =~= out0 + (seq![UNIT_LT] + element.tag_name@
                            + spec_debug_attrs(lhm_entries(element.attributes)) + seq![
                            UNIT_GT,
                            UNIT_NL,
                        ]));
                    }
                    self.debug_concat_into_string_internal(&element.children, out);
                    proof {
                        assert(out@ == out1 + spec_debug_nodes(nodes_view(element.children@)));
                        assert(out@ =~= out0 + spec_debug_node(rest[0]));
                        assert(out0 + spec_debug_nodes(rest) =~= out@ + spec_debug_nodes(
                            rest.drop_first(),
                        ));
                    }
                }
            }
            i += 1;
        }
        proof {
            assert(full.subrange(i as int, full.len() as int) =~= Seq::<SpecNode>::empty());
            assert(out@ =~= old(out)@ + spec_debug_nodes(full));
        }
    }

    /// The debug rendering of the nodes as one string of units.
    pub fn debug_concat_into_string(&self, nodes: &Vec<Node>) -> (r: Vec<u16>)
        ensures
            r@ == spec_debug_nodes(nodes_view(nodes@)),
    {
        let mut out: Vec<u16> = Vec::new();
        self.debug_concat_into_string_internal(nodes, &mut out);
        proof {
            assert(Seq::<u16>::empty() + spec_debug_nodes(nodes_view(nodes@)) =~= spec_debug_nodes(
                nodes_view(nodes@),
            ));
        }
        out
    }
}

} // verus!
