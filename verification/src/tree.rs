//! The generic, order-preserving key/value tree.
//!
//! `Node` is both the structured form of an input document (after the YAML
//! text has been parsed) and the canonical tree handed to the transport
//! layer. `NodeV` is its mathematical model.

use vstd::prelude::*;

verus! {

broadcast use vstd::std_specs::vec::axiom_vec_index_decreases, vstd::std_specs::vec::axiom_vec_decreases_to_view, vstd::seq::axiom_seq_index_decreases, vstd::seq::axiom_seq_subrange_decreases;

/// Mathematical model of a document tree node.
#[verifier::ext_equal]
pub enum NodeV {
    /// An explicit null scalar.
    Null,
    /// A boolean scalar.
    Bool(bool),
    /// A numeric scalar: `Some(n)` when the source number is representable as
    /// an unsigned 64-bit integer, `None` otherwise (negative or fractional).
    Num(Option<u64>),
    /// A string scalar.
    Str(Seq<char>),
    /// An ordered sequence of nodes.
    List(Seq<NodeV>),
    /// An order-preserving mapping; keys are themselves nodes.
    Mapping(Seq<(NodeV, NodeV)>),
    /// A node of a form the workload schema never accepts (e.g. a tagged value).
    Other,
}

/// A document tree node.
#[derive(Debug, PartialEq)]
pub enum Node {
    /// An explicit null scalar.
    Null,
    /// A boolean scalar.
    Bool(bool),
    /// A numeric scalar: `Some(n)` when the source number is representable as
    /// an unsigned 64-bit integer, `None` otherwise (negative or fractional).
    Num(Option<u64>),
    /// A string scalar.
    Str(String),
    /// An ordered sequence of nodes.
    List(Vec<Node>),
    /// An order-preserving mapping; keys are themselves nodes.
    Mapping(Vec<(Node, Node)>),
    /// A node of a form the workload schema never accepts (e.g. a tagged value).
    Other,
}

/// Model of one node.
pub open spec fn node_view(n: Node) -> NodeV
    decreases n,
{
    match n {
        Node::Null => NodeV::Null,
        Node::Bool(b) => NodeV::Bool(b),
        Node::Num(v) => NodeV::Num(v),
        Node::Str(s) => NodeV::Str(s@),
        Node::List(items) => NodeV::List(nodes_view(items@)),
        Node::Mapping(pairs) => NodeV::Mapping(pairs_view(pairs@)),
        Node::Other => NodeV::Other,
    }
}

/// Model of a sequence of nodes, element by element.
pub open spec fn nodes_view(items: Seq<Node>) -> Seq<NodeV>
    decreases items,
{
    if items.len() == 0 {
        Seq::empty()
    } else {
        seq![node_view(items[0])] + nodes_view(items.drop_first())
    }
}

/// Model of a sequence of key/value pairs, pair by pair.
pub open spec fn pairs_view(pairs: Seq<(Node, Node)>) -> Seq<(NodeV, NodeV)>
    decreases pairs,
{
    if pairs.len() == 0 {
        Seq::empty()
    } else {
        seq![(node_view(pairs[0].0), node_view(pairs[0].1))] + pairs_view(pairs.drop_first())
    }
}

impl View for Node {
    type V = NodeV;

    open spec fn view(&self) -> NodeV {
        node_view(*self)
    }
}

/// `nodes_view` maps `node_view` over the sequence.
pub proof fn lemma_nodes_view(items: Seq<Node>)
    ensures
        nodes_view(items).len() == items.len(),
        forall|i: int| 0 <= i < items.len() ==> nodes_view(items)[i] == node_view(items[i]),
    decreases items.len(),
{
    if items.len() > 0 {
        lemma_nodes_view(items.drop_first());
    }
}

/// `pairs_view` maps `node_view` over both components of every pair.
pub proof fn lemma_pairs_view(pairs: Seq<(Node, Node)>)
    ensures
        pairs_view(pairs).len() == pairs.len(),
        forall|i: int| 0 <= i < pairs.len() ==> pairs_view(pairs)[i] == (
            node_view(pairs[i].0),
            node_view(pairs[i].1),
        ),
    decreases pairs.len(),
{
    if pairs.len() > 0 {
        lemma_pairs_view(pairs.drop_first());
    }
}

} // verus!
