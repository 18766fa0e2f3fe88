//! Canonical re-encoding: projecting a validated workload back into the
//! generic, order-preserving key/value tree handed to the transport layer.
//! Every field appears under its canonical name; the `kind` discriminator is
//! re-emitted in its capitalized output spelling.

use vstd::prelude::*;
use crate::model::{entries_view, entry_view, ContainerV, IpAdress, IpAdressV, NetworkV, Registry,
    Workload, WorkloadKind, WorkloadKindV, WorkloadV};
use crate::tree::{lemma_nodes_view, lemma_pairs_view, nodes_view, pairs_view, Node, NodeV};

verus! {

/// A string list as tree nodes.
pub open spec fn encode_string_list(l: Seq<Seq<char>>) -> Seq<NodeV> {
    l.map_values(|s: Seq<char>| NodeV::Str(s))
}

/// One rule as a tree node: its mask and its ports.
pub open spec fn encode_ip_rule(r: IpAdressV) -> NodeV {
    NodeV::Mapping(
        seq![
            (NodeV::Str("mask"@), NodeV::Num(Some(r.mask as u64))),
            (NodeV::Str("ports"@), NodeV::List(encode_string_list(r.ports))),
        ],
    )
}

/// One entry as a tree node: each IP-literal key over its encoded rule.
pub open spec fn encode_entry(e: Seq<(Seq<char>, IpAdressV)>) -> NodeV {
    NodeV::Mapping(
        e.map_values(|p: (Seq<char>, IpAdressV)| (NodeV::Str(p.0), encode_ip_rule(p.1))),
    )
}

/// One direction's entries as a tree node.
pub open spec fn encode_entries(es: Seq<Seq<(Seq<char>, IpAdressV)>>) -> NodeV {
    NodeV::List(es.map_values(|e: Seq<(Seq<char>, IpAdressV)>| encode_entry(e)))
}

/// The output spelling of a registry.
pub open spec fn registry_name(r: Registry) -> Seq<char> {
    match r {
        Registry::Docker => "Docker"@,
        Registry::Ghcr => "Ghcr"@,
    }
}

/// A container workload's canonical pairs, in serialization order.
pub open spec fn encode_container(c: ContainerV) -> Seq<(NodeV, NodeV)> {
    seq![
        (NodeV::Str("kind"@), NodeV::Str("Container"@)),
        (NodeV::Str("port"@), NodeV::Str(c.port)),
        (NodeV::Str("name"@), NodeV::Str(c.name)),
        (NodeV::Str("environment"@), NodeV::List(encode_string_list(c.environment))),
        (NodeV::Str("network"@), NodeV::List(encode_string_list(c.network))),
        (NodeV::Str("registry"@), NodeV::Str(registry_name(c.registry))),
        (NodeV::Str("image"@), NodeV::Str(c.image)),
    ]
}

/// A network workload's canonical pairs, in serialization order.
pub open spec fn encode_network(n: NetworkV) -> Seq<(NodeV, NodeV)> {
    seq![
        (NodeV::Str("kind"@), NodeV::Str("Network"@)),
        (NodeV::Str("name"@), NodeV::Str(n.name)),
        (NodeV::Str("allowService"@), NodeV::List(encode_string_list(n.allowservice))),
        (NodeV::Str("egress"@), encode_entries(n.egress)),
        (NodeV::Str("ingress"@), encode_entries(n.ingress)),
    ]
}

/// The canonical pairs of either workload variant.
pub open spec fn encode_kind_pairs(k: WorkloadKindV) -> Seq<(NodeV, NodeV)> {
    match k {
        WorkloadKindV::Container(c) => encode_container(c),
        WorkloadKindV::Network(n) => encode_network(n),
    }
}

/// The canonical tree of a whole validated document.
pub open spec fn spec_encode_workload(w: WorkloadV) -> NodeV {
    NodeV::Mapping(
        seq![
            (NodeV::Str("version"@), NodeV::Str(w.version)),
            (NodeV::Str("workload"@), NodeV::Mapping(encode_kind_pairs(w.workload))),
        ],
    )
}

/// Builds the tree node of a string list.
#[verifier::loop_isolation(false)]
fn build_string_list(l: &Vec<String>) -> (r: Node)
    ensures
        r@ == NodeV::List(encode_string_list(l.deep_view())),
{
    let mut out: Vec<Node> = Vec::new();
    let mut i: usize = 0;
    while i < l.len()
        invariant
            i <= l.len(),
            out@.len() == i,
            forall|k: int|
                0 <= k < i ==> crate::tree::node_view(#[trigger] out@[k]) == NodeV::Str(
                    l.deep_view()[k],
                ),
        decreases l.len() - i,
    {
        out.push(Node::Str(l[i].clone()));
        i = i + 1;
    }
    proof {
        lemma_nodes_view(out@);
        assert(nodes_view(out@) =~= encode_string_list(l.deep_view()));
    }
    Node::List(out)
}

/// Builds the tree node of one rule.
fn build_ip_rule(rule: &IpAdress) -> (r: Node)
    ensures
        r@ == encode_ip_rule(rule@),
{
    let mut pairs: Vec<(Node, Node)> = Vec::new();
    pairs.push((Node::Str("mask".to_owned()), Node::Num(Some(rule.mask as u64))));
    pairs.push((Node::Str("ports".to_owned()), build_string_list(&rule.ports)));
    proof {
        lemma_pairs_view(pairs@);
        assert(pairs_view(pairs@) =~= seq![
            (NodeV::Str("mask"@), NodeV::Num(Some(rule.mask as u64))),
            (NodeV::Str("ports"@), NodeV::List(encode_string_list(rule.ports.deep_view()))),
        ]);
    }
    Node::Mapping(pairs)
}

/// Builds the tree node of one entry.
#[verifier::loop_isolation(false)]
fn build_entry(e: &Vec<(String, IpAdress)>) -> (r: Node)
    ensures
        r@ == encode_entry(entry_view(e@)),
{
    let mut pairs: Vec<(Node, Node)> = Vec::new();
    let mut i: usize = 0;
    while i < e.len()
        invariant
            i <= e.len(),
            pairs@.len() == i,
            forall|k: int|
                0 <= k < i ==> (
                crate::tree::node_view(#[trigger] pairs@[k].0),
                crate::tree::node_view(pairs@[k].1),
                ) == (NodeV::Str(e@[k].0@), encode_ip_rule(e@[k].1@)),
        decreases e.len() - i,
    {
        let key = e[i].0.clone();
        let rule = build_ip_rule(&e[i].1);
        pairs.push((Node::Str(key), rule));
        i = i + 1;
    }
    proof {
        lemma_pairs_view(pairs@);
        assert(pairs_view(pairs@) =~= entry_view(e@).map_values(
            |p: (Seq<char>, IpAdressV)| (NodeV::Str(p.0), encode_ip_rule(p.1)),
        ));
    }
    Node::Mapping(pairs)
}

/// Builds the tree node of one direction's entries.
#[verifier::loop_isolation(false)]
fn build_entries(es: &Vec<Vec<(String, IpAdress)>>) -> (r: Node)
    ensures
        r@ == encode_entries(entries_view(es@)),
{
    let mut out: Vec<Node> = Vec::new();
    let mut i: usize = 0;
    while i < es.len()
        invariant
            i <= es.len(),
            out@.len() == i,
            forall|k: int|
                0 <= k < i ==> crate::tree::node_view(#[trigger] out@[k]) == encode_entry(
                    entries_view(es@)[k],
                ),
        decreases es.len() - i,
    {
        let entry = build_entry(&es[i]);
        out.push(entry);
        i = i + 1;
    }
    proof {
        lemma_nodes_view(out@);
        assert(nodes_view(out@) =~= entries_view(es@).map_values(
            |e: Seq<(Seq<char>, IpAdressV)>| encode_entry(e),
        ));
    }
    Node::List(out)
}

/// Builds the canonical top-level mapping around a workload's pairs.
fn build_top(version: &String, inner: Vec<(Node, Node)>) -> (r: Node)
    ensures
        r@ == NodeV::Mapping(
            seq![
                (NodeV::Str("version"@), NodeV::Str(version@)),
                (NodeV::Str("workload"@), NodeV::Mapping(pairs_view(inner@))),
            ],
        ),
{
    let ghost inner_pv = pairs_view(inner@);
    let mut top: Vec<(Node, Node)> = Vec::new();
    top.push((Node::Str("version".to_owned()), Node::Str(version.clone())));
    top.push((Node::Str("workload".to_owned()), Node::Mapping(inner)));
    let ghost top_pv = top@;
    proof {
        lemma_pairs_view(top_pv);
        assert(pairs_view(top_pv) =~= seq![
            (NodeV::Str("version"@), NodeV::Str(version@)),
            (NodeV::Str("workload"@), NodeV::Mapping(inner_pv)),
        ]);
    }
    Node::Mapping(top)
}

/// Re-encodes a validated workload into its canonical tree.
pub fn encode_workload(w: &Workload) -> (r: Node)
    ensures
        r@ == spec_encode_workload(w@),
{
    let mut inner: Vec<(Node, Node)> = Vec::new();
    match &w.workload {
        WorkloadKind::Container(c) => {
            inner.push((Node::Str("kind".to_owned()), Node::Str("Container".to_owned())));
            inner.push((Node::Str("port".to_owned()), Node::Str(c.port.clone())));
            inner.push((Node::Str("name".to_owned()), Node::Str(c.name.clone())));
            inner.push((Node::Str("environment".to_owned()), build_string_list(&c.environment)));
            inner.push((Node::Str("network".to_owned()), build_string_list(&c.network)));
            let reg = match c.registry {
                Registry::Docker => "Docker".to_owned(),
                Registry::Ghcr => "Ghcr".to_owned(),
            };
            inner.push((Node::Str("registry".to_owned()), Node::Str(reg)));
            inner.push((Node::Str("image".to_owned()), Node::Str(c.image.clone())));
            proof {
                lemma_pairs_view(inner@);
                assert(pairs_view(inner@) =~= encode_container(c@));
            }
            let ghost inner_pv = pairs_view(inner@);
            let r = build_top(&w.version, inner);
            proof {
                assert(r@ == NodeV::Mapping(seq![
                    (NodeV::Str("version"@), NodeV::Str(w.version@)),
                    (NodeV::Str("workload"@), NodeV::Mapping(inner_pv)),
                ]));
                assert(w@.workload == WorkloadKindV::Container(c@));
                assert(inner_pv == encode_kind_pairs(w@.workload));
                assert(w@.version == w.version@);
                assert(r@ == spec_encode_workload(w@));
            }
            r
        },
        WorkloadKind::Network(n) => {
            inner.push((Node::Str("kind".to_owned()), Node::Str("Network".to_owned())));
            inner.push((Node::Str("name".to_owned()), Node::Str(n.name.clone())));
            inner.push(
                (Node::Str("allowService".to_owned()), build_string_list(&n.allowservice)),
            );
            inner.push((Node::Str("egress".to_owned()), build_entries(&n.egress)));
            inner.push((Node::Str("ingress".to_owned()), build_entries(&n.ingress)));
            proof {
                lemma_pairs_view(inner@);
                assert(pairs_view(inner@) =~= encode_network(n@));
            }
            let ghost inner_pv = pairs_view(inner@);
            let r = build_top(&w.version, inner);
            proof {
                assert(w@.workload == WorkloadKindV::Network(n@));
                assert(inner_pv == encode_kind_pairs(w@.workload));
                assert(w@.version == w.version@);
                assert(r@ == spec_encode_workload(w@));
            }
            r
        },
    }
}

} // verus!
