//! The node tree produced by the markup parser, and its mathematical model.
//!
//! `Node` and `Element` are the executable tree; `SpecNode` and `SpecElement`
//! are the ghost image the contracts speak about, with attribute maps replaced
//! by their ordered entry sequences.

use vstd::prelude::*;
use linked_hash_map::LinkedHashMap;
use crate::attrs::{lhm_entries, lhm_get, spec_lookup};
use crate::tag::spec_split_parts;

verus! {

// Code units (UTF-16, which for these delimiters equals ASCII).
pub const UNIT_LT: u16 = 60; // '<'
pub const UNIT_GT: u16 = 62; // '>'
pub const UNIT_SLASH: u16 = 47; // '/'
pub const UNIT_QUOTE: u16 = 34; // '"'
pub const UNIT_SPACE: u16 = 32; // ' '
pub const UNIT_EQ: u16 = 61; // '='
pub const UNIT_COMMA: u16 = 44; // ','
pub const UNIT_NL: u16 = 10; // '\n'

/// One element of the parsed tree: a tag name, its attributes in insertion
/// order, its child nodes, and whether the tag is a void element.
pub struct Element {
    pub tag_name: Vec<u16>,
    pub attributes: LinkedHashMap<Vec<u16>, Vec<u16>>,
    pub children: Vec<Node>,
    pub is_void_element: bool,
}

/// A parsed node: a literal text run or an element with children.
pub enum Node {
    Text(Vec<u16>),
    Element(Element),
}

/// Ghost image of an `Element`.
pub ghost struct SpecElement {
    pub tag_name: Seq<u16>,
    pub attributes: Seq<(Seq<u16>, Seq<u16>)>,
    pub children: Seq<SpecNode>,
    pub is_void_element: bool,
}

/// Ghost image of a `Node`.
pub ghost enum SpecNode {
    Text(Seq<u16>),
    Element(SpecElement),
}

pub open spec fn node_view(n: Node) -> SpecNode
    decreases n,
{
    match n {
        Node::Text(t) => SpecNode::Text(t@),
        Node::Element(e) => SpecNode::Element(elem_view(e)),
    }
}

pub open spec fn elem_view(e: Element) -> SpecElement
    decreases e,
{
    SpecElement {
        tag_name: e.tag_name@,
        attributes: lhm_entries(e.attributes),
        children: nodes_view(e.children@),
        is_void_element: e.is_void_element,
    }
}

pub open spec fn nodes_view(nodes: Seq<Node>) -> Seq<SpecNode>
    decreases nodes,
{
    if nodes.len() == 0 {
        Seq::empty()
    } else {
        seq![node_view(nodes[0])] + nodes_view(nodes.drop_first())
    }
}

/// `nodes_view` maps the view over the sequence element by element.
pub proof fn lemma_nodes_view_len(nodes: Seq<Node>)
    ensures
        nodes_view(nodes).len() == nodes.len(),
        forall|i: int| 0 <= i < nodes.len() ==> nodes_view(nodes)[i] == node_view(nodes[i]),
    decreases nodes,
{
    if nodes.len() > 0 {
        lemma_nodes_view_len(nodes.drop_first());
    }
}

/// Appending a node to a sequence appends its view.
pub proof fn lemma_nodes_view_push(nodes: Seq<Node>, n: Node)
    ensures
        nodes_view(nodes.push(n)) == nodes_view(nodes).push(node_view(n)),
    decreases nodes,
{
    lemma_nodes_view_len(nodes);
    lemma_nodes_view_len(nodes.push(n));
    assert(nodes_view(nodes.push(n)) =~= nodes_view(nodes).push(node_view(n)));
}

/// Structural well-formedness of a parsed node: a void element never has
/// children, and the void flag agrees with the fixed void-element table.
pub open spec fn spec_node_wf(n: SpecNode) -> bool
    decreases n,
{
    match n {
        SpecNode::Text(_) => true,
        SpecNode::Element(e) => spec_elem_wf(e),
    }
}

pub open spec fn spec_elem_wf(e: SpecElement) -> bool
    decreases e,
{
    &&& e.is_void_element == crate::tag::is_void_name(e.tag_name)
    &&& (e.is_void_element ==> e.children.len() == 0)
    &&& forall|i: int| 0 <= i < e.children.len() ==> spec_node_wf(#[trigger] e.children[i])
}

pub open spec fn spec_nodes_wf(nodes: Seq<SpecNode>) -> bool {
    forall|i: int| 0 <= i < nodes.len() ==> spec_node_wf(#[trigger] nodes[i])
}

/// The sequence of code units of the attribute name `class`.
pub open spec fn class_key() -> Seq<u16> {
    seq![99u16, 108u16, 97u16, 115u16, 115u16]
}

pub fn class_key_vec() -> (r: Vec<u16>)
    ensures
        r@ == class_key(),
{
    let r: Vec<u16> = vec![99u16, 108u16, 97u16, 115u16, 115u16];
    proof {
        assert(r@ =~= class_key());
    }
    r
}

/// Whether the element's `class` attribute, split at spaces, contains `cls`.
pub open spec fn spec_has_class(e: SpecElement, cls: Seq<u16>) -> bool {
    match spec_lookup(e.attributes, class_key()) {
        Some(v) => spec_split_parts(v, UNIT_SPACE).contains(cls),
        None => false,
    }
}

impl Element {
    /// True when `cls` occurs in the space-separated `class` attribute value.
    #[verifier::loop_isolation(false)]
    pub fn has_class(&self, cls: &Vec<u16>) -> (r: bool)
        ensures
            r == spec_has_class(elem_view(*self), cls@),
    {
        let key = class_key_vec();
        match lhm_get(&self.attributes, &key) {
            None => false,
            Some(v) => {
                let parts = crate::tag::split_into_parts_by_separator(&v, UNIT_SPACE);
                let ghost spec_parts = spec_split_parts(v@, UNIT_SPACE);
                let mut i: usize = 0;
                while i < parts.len()
                    invariant
                        i <= parts.len(),
                        crate::tag::parts_views(parts@) == spec_parts,
                        forall|j: int| 0 <= j < i ==> parts@[j]@ != cls@,
                    decreases parts.len() - i,
                {
                    if crate::tag::units_eq(&parts[i], cls) {
                        proof {
                            assert(spec_parts[i as int] == cls@);
                            assert(spec_parts.contains(cls@));
                        }
                        return true;
                    }
                    i += 1;
                }
                proof {
                    assert forall|j: int| 0 <= j < spec_parts.len() implies spec_parts[j]
                        != cls@ by {
                        assert(spec_parts[j] == parts@[j]@);
                    }
                    assert(!spec_parts.contains(cls@));
                }
                false
            }
        }
    }
}

} // verus!
