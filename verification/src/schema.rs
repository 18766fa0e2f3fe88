//! Structural parsing: checking a generic document tree against the workload
//! schema and building the typed model, applying the deserialization
//! normalizers (numeric port to string, list deduplication) and defaults
//! (registry, mask) on the way.

use vstd::prelude::*;
use vstd::string::StrSliceExecFns;
use crate::model::{Container, ContainerV, IpAdress, IpAdressV, Network, NetworkV, Registry,
    Workload, WorkloadKind, WorkloadKindV, WorkloadV};
use crate::normalize::{normalize_list, remove_duplicates_array};
use crate::strings::{dec_chars, str_eq, u32_to_string};
use crate::tree::{lemma_nodes_view, lemma_pairs_view, nodes_view, pairs_view, Node, NodeV};

verus! {

/// The value under the first pair whose key is the string `key`, if any.
pub open spec fn lookup(pairs: Seq<(NodeV, NodeV)>, key: Seq<char>) -> Option<NodeV>
    decreases pairs.len(),
{
    if pairs.len() == 0 {
        None
    } else if pairs[0].0 == NodeV::Str(key) {
        Some(pairs[0].1)
    } else {
        lookup(pairs.drop_first(), key)
    }
}

/// The model of an optional field's node.
pub open spec fn ov(n: Option<&Node>) -> Option<NodeV> {
    match n {
        Some(x) => Some(x@),
        None => None,
    }
}

/// The strings of a list node; `None` when an element is not a string.
pub open spec fn str_items(items: Seq<NodeV>) -> Option<Seq<Seq<char>>>
    decreases items.len(),
{
    if items.len() == 0 {
        Some(Seq::empty())
    } else {
        match items[0] {
            NodeV::Str(s) => match str_items(items.drop_first()) {
                Some(rest) => Some(seq![s] + rest),
                None => None,
            },
            _ => None,
        }
    }
}

/// The `port` field: a numeric literal representable as an unsigned 32-bit
/// integer, coerced to its decimal string form.
pub open spec fn spec_port_field(n: Option<NodeV>) -> Option<Seq<char>> {
    match n {
        Some(NodeV::Num(Some(p))) => if p <= u32::MAX as u64 {
            Some(dec_chars(p as nat))
        } else {
            None
        },
        _ => None,
    }
}

/// A required string field of any length.
pub open spec fn spec_string_field(n: Option<NodeV>) -> Option<Seq<char>> {
    match n {
        Some(NodeV::Str(s)) => Some(s),
        _ => None,
    }
}

/// A required string field that must not be empty; emptiness is checked on
/// the raw value, with no trimming.
pub open spec fn spec_nonempty_field(n: Option<NodeV>) -> Option<Seq<char>> {
    match n {
        Some(NodeV::Str(s)) => if s.len() >= 1 {
            Some(s)
        } else {
            None
        },
        _ => None,
    }
}

/// An optional list of strings; a missing field is the empty list.
pub open spec fn spec_string_list_field(n: Option<NodeV>) -> Option<Seq<Seq<char>>> {
    match n {
        None => Some(Seq::empty()),
        Some(NodeV::List(items)) => str_items(items),
        _ => None,
    }
}

/// A required list of strings.
pub open spec fn spec_required_list_field(n: Option<NodeV>) -> Option<Seq<Seq<char>>> {
    match n {
        Some(NodeV::List(items)) => str_items(items),
        _ => None,
    }
}

/// The `registry` field: `docker` or `ghcr`, defaulting to Docker.
pub open spec fn spec_registry_field(n: Option<NodeV>) -> Option<Registry> {
    match n {
        None => Some(Registry::Docker),
        Some(NodeV::Str(s)) => if s == "docker"@ {
            Some(Registry::Docker)
        } else if s == "ghcr"@ {
            Some(Registry::Ghcr)
        } else {
            None
        },
        _ => None,
    }
}

/// The `mask` field: an integer in `[0, 32]`, defaulting to 32; anything
/// else fails structural parsing.
pub open spec fn spec_mask_field(n: Option<NodeV>) -> Option<u32> {
    match n {
        None => Some(32u32),
        Some(NodeV::Num(Some(m))) => if m <= 32 {
            Some(m as u32)
        } else {
            None
        },
        _ => None,
    }
}

/// One egress/ingress rule node.
pub open spec fn spec_ip_rule(n: NodeV) -> Option<IpAdressV> {
    match n {
        NodeV::Mapping(pairs) => match (
            spec_mask_field(lookup(pairs, "mask"@)),
            spec_string_list_field(lookup(pairs, "ports"@)),
        ) {
            (Some(mask), Some(ports)) => Some(IpAdressV { mask, ports }),
            _ => None,
        },
        _ => None,
    }
}

/// One egress/ingress entry's pairs: every key a string, every value a rule.
pub open spec fn spec_entry_pairs(pairs: Seq<(NodeV, NodeV)>) -> Option<
    Seq<(Seq<char>, IpAdressV)>,
>
    decreases pairs.len(),
{
    if pairs.len() == 0 {
        Some(Seq::empty())
    } else {
        match pairs[0].0 {
            NodeV::Str(key) => match spec_ip_rule(pairs[0].1) {
                Some(rule) => match spec_entry_pairs(pairs.drop_first()) {
                    Some(rest) => Some(seq![(key, rule)] + rest),
                    None => None,
                },
                None => None,
            },
            _ => None,
        }
    }
}

/// The entries of one direction's list node.
pub open spec fn spec_entry_items(items: Seq<NodeV>) -> Option<Seq<Seq<(Seq<char>, IpAdressV)>>>
    decreases items.len(),
{
    if items.len() == 0 {
        Some(Seq::empty())
    } else {
        match items[0] {
            NodeV::Mapping(pairs) => match spec_entry_pairs(pairs) {
                Some(entry) => match spec_entry_items(items.drop_first()) {
                    Some(rest) => Some(seq![entry] + rest),
                    None => None,
                },
                None => None,
            },
            _ => None,
        }
    }
}

/// An optional egress/ingress field; a missing field is the empty list.
pub open spec fn spec_entries_field(n: Option<NodeV>) -> Option<Seq<Seq<(Seq<char>, IpAdressV)>>> {
    match n {
        None => Some(Seq::empty()),
        Some(NodeV::List(items)) => spec_entry_items(items),
        _ => None,
    }
}

/// A container workload's fields, read from the workload mapping.
pub open spec fn spec_parse_container(pairs: Seq<(NodeV, NodeV)>) -> Option<ContainerV> {
    match (
        spec_port_field(lookup(pairs, "port"@)),
        spec_nonempty_field(lookup(pairs, "name"@)),
        spec_string_list_field(lookup(pairs, "environment"@)),
        spec_string_list_field(lookup(pairs, "network"@)),
        spec_registry_field(lookup(pairs, "registry"@)),
        spec_nonempty_field(lookup(pairs, "image"@)),
    ) {
        (Some(port), Some(name), Some(env), Some(net), Some(registry), Some(image)) => Some(
            ContainerV {
                port,
                name,
                environment: normalize_list(env),
                network: normalize_list(net),
                registry,
                image,
            },
        ),
        _ => None,
    }
}

/// A network workload's fields, read from the workload mapping.
pub open spec fn spec_parse_network(pairs: Seq<(NodeV, NodeV)>) -> Option<NetworkV> {
    match (
        spec_string_field(lookup(pairs, "name"@)),
        spec_required_list_field(lookup(pairs, "allowService"@)),
        spec_entries_field(lookup(pairs, "egress"@)),
        spec_entries_field(lookup(pairs, "ingress"@)),
    ) {
        (Some(name), Some(als), Some(egress), Some(ingress)) => Some(
            NetworkV { name, allowservice: normalize_list(als), egress, ingress },
        ),
        _ => None,
    }
}

/// The whole document: a mapping with a `version` string and a `workload`
/// mapping whose explicit `kind` discriminator selects the variant; any
/// other discriminator fails, never defaulting to a variant.
pub open spec fn spec_parse_document(v: NodeV) -> Option<WorkloadV> {
    match v {
        NodeV::Mapping(top) => match (
            spec_string_field(lookup(top, "version"@)),
            lookup(top, "workload"@),
        ) {
            (Some(version), Some(NodeV::Mapping(wp))) => match lookup(wp, "kind"@) {
                Some(NodeV::Str(k)) => if k == "container"@ {
                    match spec_parse_container(wp) {
                        Some(c) => Some(
                            WorkloadV { version, workload: WorkloadKindV::Container(c) },
                        ),
                        None => None,
                    }
                } else if k == "network"@ {
                    match spec_parse_network(wp) {
                        Some(n) => Some(WorkloadV { version, workload: WorkloadKindV::Network(n) }),
                        None => None,
                    }
                } else {
                    None
                },
                _ => None,
            },
            _ => None,
        },
        _ => None,
    }
}

/// Finds the value under the first pair whose key is the string `key`.
#[verifier::loop_isolation(false)]
pub(crate) fn lookup_key<'a>(pairs: &'a Vec<(Node, Node)>, key: &str) -> (r: Option<&'a Node>)
    ensures
        match r {
            Some(n) => lookup(pairs_view(pairs@), key@) == Some(n@),
            None => lookup(pairs_view(pairs@), key@) is None,
        },
{
    let ghost pv = pairs_view(pairs@);
    proof {
        lemma_pairs_view(pairs@);
        assert(pv.skip(0) =~= pv);
    }
    let mut i: usize = 0;
    while i < pairs.len()
        invariant
            i <= pairs.len(),
            lookup(pv, key@) == lookup(pv.skip(i as int), key@),
        decreases pairs.len() - i,
    {
        proof {
            assert(pv.skip(i as int)[0] == pv[i as int]);
            assert(pv.skip(i as int).drop_first() =~= pv.skip(i as int + 1));
        }
        let hit = match &pairs[i].0 {
            Node::Str(s) => str_eq(s.as_str(), key),
            _ => false,
        };
        if hit {
            return Some(&pairs[i].1);
        }
        proof {
            assert(pv[i as int].0 != NodeV::Str(key@));
        }
        i = i + 1;
    }
    proof {
        assert(pv.skip(pairs.len() as int) =~= Seq::<(NodeV, NodeV)>::empty());
    }
    None
}

/// Collects the strings of a list node's elements.
#[verifier::loop_isolation(false)]
fn parse_string_items(items: &Vec<Node>) -> (r: Option<Vec<String>>)
    ensures
        match str_items(nodes_view(items@)) {
            Some(ss) => r matches Some(v) && v.deep_view() == ss,
            None => r is None,
        },
{
    let ghost iv = nodes_view(items@);
    proof {
        lemma_nodes_view(items@);
        assert(iv.skip(0) =~= iv);
    }
    let mut out: Vec<String> = Vec::new();
    let mut i: usize = 0;
    while i < items.len()
        invariant
            i <= items.len(),
            match str_items(iv.skip(i as int)) {
                Some(rest) => str_items(iv) == Some(out.deep_view() + rest),
                None => str_items(iv) is None,
            },
        decreases items.len() - i,
    {
        proof {
            assert(iv.skip(i as int)[0] == iv[i as int]);
            assert(iv.skip(i as int).drop_first() =~= iv.skip(i as int + 1));
        }
        let ghost prev_dv = out.deep_view();
        match &items[i] {
            Node::Str(s) => {
                out.push(s.clone());
                proof {
                    assert(out.deep_view() =~= prev_dv.push(s@));
                    if str_items(iv.skip(i as int + 1)) is Some {
                        let rest = str_items(iv.skip(i as int + 1)).unwrap();
                        assert(prev_dv + (seq![s@] + rest) =~= out.deep_view() + rest);
                    }
                }
            },
            _ => {
                return None;
            },
        }
        i = i + 1;
    }
    proof {
        assert(iv.skip(items.len() as int) =~= Seq::<NodeV>::empty());
        assert(out.deep_view() + Seq::<Seq<char>>::empty() =~= out.deep_view());
    }
    Some(out)
}

/// Reads the `port` field, coercing the number to its decimal string.
fn field_port(n: Option<&Node>) -> (r: Option<String>)
    ensures
        match spec_port_field(ov(n)) {
            Some(p) => r matches Some(s) && s@ == p,
            None => r is None,
        },
{
    match n {
        Some(Node::Num(Some(p))) => {
            if *p <= u32::MAX as u64 {
                Some(u32_to_string(*p as u32))
            } else {
                None
            }
        },
        _ => None,
    }
}

/// Reads a required string field.
fn field_string(n: Option<&Node>) -> (r: Option<String>)
    ensures
        match spec_string_field(ov(n)) {
            Some(p) => r matches Some(s) && s@ == p,
            None => r is None,
        },
{
    match n {
        Some(Node::Str(s)) => Some(s.clone()),
        _ => None,
    }
}

/// Reads a required nonempty string field.
fn field_nonempty(n: Option<&Node>) -> (r: Option<String>)
    ensures
        match spec_nonempty_field(ov(n)) {
            Some(p) => r matches Some(s) && s@ == p,
            None => r is None,
        },
{
    match n {
        Some(Node::Str(s)) => {
            if s.as_str().unicode_len() >= 1 {
                Some(s.clone())
            } else {
                None
            }
        },
        _ => None,
    }
}

/// Reads an optional list-of-strings field; missing means empty.
fn field_string_list(n: Option<&Node>) -> (r: Option<Vec<String>>)
    ensures
        match spec_string_list_field(ov(n)) {
            Some(ss) => r matches Some(v) && v.deep_view() == ss,
            None => r is None,
        },
{
    match n {
        None => {
            let out: Vec<String> = Vec::new();
            proof {
                assert(out.deep_view() =~= Seq::<Seq<char>>::empty());
            }
            Some(out)
        },
        Some(Node::List(items)) => parse_string_items(items),
        _ => None,
    }
}

/// Reads a required list-of-strings field.
fn field_required_list(n: Option<&Node>) -> (r: Option<Vec<String>>)
    ensures
        match spec_required_list_field(ov(n)) {
            Some(ss) => r matches Some(v) && v.deep_view() == ss,
            None => r is None,
        },
{
    match n {
        Some(Node::List(items)) => parse_string_items(items),
        _ => None,
    }
}

/// Reads the `registry` field, defaulting to Docker.
fn field_registry(n: Option<&Node>) -> (r: Option<Registry>)
    ensures
        r == spec_registry_field(ov(n)),
{
    match n {
        None => Some(Registry::default()),
        Some(Node::Str(s)) => {
            if str_eq(s.as_str(), "docker") {
                Some(Registry::Docker)
            } else if str_eq(s.as_str(), "ghcr") {
                Some(Registry::Ghcr)
            } else {
                None
            }
        },
        _ => None,
    }
}

/// Reads the `mask` field, defaulting to 32 and rejecting values above 32.
fn field_mask(n: Option<&Node>) -> (r: Option<u32>)
    ensures
        r == spec_mask_field(ov(n)),
{
    match n {
        None => Some(crate::validate::max_mask()),
        Some(Node::Num(Some(m))) => {
            if *m <= 32 {
                Some(*m as u32)
            } else {
                None
            }
        },
        _ => None,
    }
}

/// Reads one egress/ingress rule node.
fn parse_ip_rule(n: &Node) -> (r: Option<IpAdress>)
    ensures
        match spec_ip_rule(n@) {
            Some(rv) => r matches Some(rule) && rule@ == rv,
            None => r is None,
        },
{
    match n {
        Node::Mapping(pairs) => {
            let mask = match field_mask(lookup_key(pairs, "mask")) {
                Some(m) => m,
                None => {
                    return None;
                },
            };
            let ports = match field_string_list(lookup_key(pairs, "ports")) {
                Some(p) => p,
                None => {
                    return None;
                },
            };
            Some(IpAdress { mask, ports })
        },
        _ => None,
    }
}

/// Reads one egress/ingress entry: a mapping from IP-literal keys to rules.
#[verifier::loop_isolation(false)]
fn parse_entry(pairs: &Vec<(Node, Node)>) -> (r: Option<Vec<(String, IpAdress)>>)
    ensures
        match spec_entry_pairs(pairs_view(pairs@)) {
            Some(ev) => r matches Some(v) && crate::model::entry_view(v@) == ev,
            None => r is None,
        },
{
    let ghost pv = pairs_view(pairs@);
    proof {
        lemma_pairs_view(pairs@);
        assert(pv.skip(0) =~= pv);
    }
    let mut out: Vec<(String, IpAdress)> = Vec::new();
    let mut i: usize = 0;
    while i < pairs.len()
        invariant
            i <= pairs.len(),
            match spec_entry_pairs(pv.skip(i as int)) {
                Some(rest) => spec_entry_pairs(pv) == Some(crate::model::entry_view(out@) + rest),
                None => spec_entry_pairs(pv) is None,
            },
        decreases pairs.len() - i,
    {
        proof {
            assert(pv.skip(i as int)[0] == pv[i as int]);
            assert(pv.skip(i as int).drop_first() =~= pv.skip(i as int + 1));
        }
        let ghost prev_ev = crate::model::entry_view(out@);
        let key = match &pairs[i].0 {
            Node::Str(s) => s.clone(),
            _ => {
                return None;
            },
        };
        let rule = match parse_ip_rule(&pairs[i].1) {
            Some(rule) => rule,
            None => {
                return None;
            },
        };
        let ghost rule_v = rule@;
        out.push((key, rule));
        proof {
            assert(crate::model::entry_view(out@) =~= prev_ev.push((key@, rule_v)));
            if spec_entry_pairs(pv.skip(i as int + 1)) is Some {
                let rest = spec_entry_pairs(pv.skip(i as int + 1)).unwrap();
                assert(prev_ev + (seq![(key@, rule_v)] + rest) =~= crate::model::entry_view(out@)
                    + rest);
            }
        }
        i = i + 1;
    }
    proof {
        assert(pv.skip(pairs.len() as int) =~= Seq::<(NodeV, NodeV)>::empty());
        assert(crate::model::entry_view(out@) + Seq::<(Seq<char>, IpAdressV)>::empty()
            =~= crate::model::entry_view(out@));
    }
    Some(out)
}

/// Reads an optional egress/ingress field; missing means no entries.
#[verifier::loop_isolation(false)]
fn field_entries(n: Option<&Node>) -> (r: Option<Vec<Vec<(String, IpAdress)>>>)
    ensures
        match spec_entries_field(ov(n)) {
            Some(ev) => r matches Some(v) && crate::model::entries_view(v@) == ev,
            None => r is None,
        },
{
    let items = match n {
        None => {
            let out: Vec<Vec<(String, IpAdress)>> = Vec::new();
            proof {
                assert(crate::model::entries_view(out@) =~= Seq::<
                    Seq<(Seq<char>, IpAdressV)>,
                >::empty());
            }
            return Some(out);
        },
        Some(Node::List(items)) => items,
        _ => {
            return None;
        },
    };
    let ghost iv = nodes_view(items@);
    proof {
        lemma_nodes_view(items@);
        assert(iv.skip(0) =~= iv);
    }
    let mut out: Vec<Vec<(String, IpAdress)>> = Vec::new();
    let mut i: usize = 0;
    while i < items.len()
        invariant
            i <= items.len(),
            match spec_entry_items(iv.skip(i as int)) {
                Some(rest) => spec_entry_items(iv) == Some(
                    crate::model::entries_view(out@) + rest,
                ),
                None => spec_entry_items(iv) is None,
            },
        decreases items.len() - i,
    {
        proof {
            assert(iv.skip(i as int)[0] == iv[i as int]);
            assert(iv.skip(i as int).drop_first() =~= iv.skip(i as int + 1));
        }
        let ghost prev_ev = crate::model::entries_view(out@);
        let entry = match &items[i] {
            Node::Mapping(pairs) => {
                match parse_entry(pairs) {
                    Some(e) => e,
                    None => {
                        return None;
                    },
                }
            },
            _ => {
                return None;
            },
        };
        let ghost entry_v = crate::model::entry_view(entry@);
        out.push(entry);
        proof {
            assert(crate::model::entries_view(out@) =~= prev_ev.push(entry_v));
            if spec_entry_items(iv.skip(i as int + 1)) is Some {
                let rest = spec_entry_items(iv.skip(i as int + 1)).unwrap();
                assert(prev_ev + (seq![entry_v] + rest) =~= crate::model::entries_view(out@)
                    + rest);
            }
        }
        i = i + 1;
    }
    proof {
        assert(iv.skip(items.len() as int) =~= Seq::<NodeV>::empty());
        assert(crate::model::entries_view(out@) + Seq::<Seq<(Seq<char>, IpAdressV)>>::empty()
            =~= crate::model::entries_view(out@));
    }
    Some(out)
}

/// Reads a container workload from the workload mapping.
fn parse_container(pairs: &Vec<(Node, Node)>) -> (r: Option<Container>)
    ensures
        match spec_parse_container(pairs_view(pairs@)) {
            Some(cv) => r matches Some(c) && c@ == cv,
            None => r is None,
        },
{
    let port = match field_port(lookup_key(pairs, "port")) {
        Some(p) => p,
        None => {
            return None;
        },
    };
    let name = match field_nonempty(lookup_key(pairs, "name")) {
        Some(s) => s,
        None => {
            return None;
        },
    };
    let environment = match field_string_list(lookup_key(pairs, "environment")) {
        Some(v) => v,
        None => {
            return None;
        },
    };
    let network = match field_string_list(lookup_key(pairs, "network")) {
        Some(v) => v,
        None => {
            return None;
        },
    };
    let registry = match field_registry(lookup_key(pairs, "registry")) {
        Some(v) => v,
        None => {
            return None;
        },
    };
    let image = match field_nonempty(lookup_key(pairs, "image")) {
        Some(s) => s,
        None => {
            return None;
        },
    };
    Some(
        Container {
            port,
            name,
            environment: remove_duplicates_array(environment),
            network: remove_duplicates_array(network),
            registry,
            image,
        },
    )
}

/// Reads a network workload from the workload mapping.
fn parse_network(pairs: &Vec<(Node, Node)>) -> (r: Option<Network>)
    ensures
        match spec_parse_network(pairs_view(pairs@)) {
            Some(nv) => r matches Some(n) && n@ == nv,
            None => r is None,
        },
{
    let name = match field_string(lookup_key(pairs, "name")) {
        Some(s) => s,
        None => {
            return None;
        },
    };
    let allowservice = match field_required_list(lookup_key(pairs, "allowService")) {
        Some(v) => v,
        None => {
            return None;
        },
    };
    let egress = match field_entries(lookup_key(pairs, "egress")) {
        Some(v) => v,
        None => {
            return None;
        },
    };
    let ingress = match field_entries(lookup_key(pairs, "ingress")) {
        Some(v) => v,
        None => {
            return None;
        },
    };
    Some(Network { name, allowservice: remove_duplicates_array(allowservice), egress, ingress })
}

/// Parses a document tree against the workload schema: `None` is a
/// structural failure (missing or mistyped field, unknown discriminator,
/// port not an unsigned 32-bit number, mask outside `[0, 32]`, empty name
/// or image).
pub fn parse_document(doc: &Node) -> (r: Option<Workload>)
    ensures
        match spec_parse_document(doc@) {
            Some(wv) => r matches Some(w) && w@ == wv,
            None => r is None,
        },
{
    let top = match doc {
        Node::Mapping(pairs) => pairs,
        _ => {
            return None;
        },
    };
    let version = match field_string(lookup_key(top, "version")) {
        Some(s) => s,
        None => {
            return None;
        },
    };
    let wp = match lookup_key(top, "workload") {
        Some(Node::Mapping(pairs)) => pairs,
        _ => {
            return None;
        },
    };
    let kind = match lookup_key(wp, "kind") {
        Some(Node::Str(s)) => s,
        _ => {
            return None;
        },
    };
    if str_eq(kind.as_str(), "container") {
        match parse_container(wp) {
            Some(c) => Some(Workload { version, workload: WorkloadKind::Container(c) }),
            None => None,
        }
    } else if str_eq(kind.as_str(), "network") {
        match parse_network(wp) {
            Some(n) => Some(Workload { version, workload: WorkloadKind::Network(n) }),
            None => None,
        }
    } else {
        None
    }
}

} // verus!
