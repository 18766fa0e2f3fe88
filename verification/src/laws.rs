//! Laws the engine obeys across its functions, stated and proved over the
//! same models its contracts use. The idempotence of list normalization is
//! proved beside the normalizer itself.

use vstd::prelude::*;
use crate::model::{CustomErrorV, NetworkV, WorkloadKindV, WorkloadV};
use crate::schema::{lookup, spec_mask_field, spec_parse_document, spec_port_field};
use crate::strings::dec_chars;
use crate::tree::NodeV;
use crate::validate::is_ip_literal;
use crate::encode::{encode_kind_pairs, spec_encode_workload};
use crate::pipeline::spec_verify_workload;

verus! {

/// Numeric coercion is total on unsigned 32-bit integers: the `port` field
/// is accepted exactly for numbers representable in 32 unsigned bits, and
/// the accepted number coerces to its exact decimal string. Everything else
/// fails structural parsing.
pub proof fn lemma_numeric_coercion(n: Option<NodeV>)
    ensures
        (spec_port_field(n) is Some) <==> (n matches Some(NodeV::Num(Some(p))) && p <= u32::MAX
            as u64),
        n matches Some(NodeV::Num(Some(p))) ==> (p <= u32::MAX as u64 ==> spec_port_field(n)
            == Some(dec_chars(p as nat))),
{
}

/// Discriminator dispatch: when a document parses, its `kind` was exactly
/// `container` or `network`; `container` always yields the container
/// variant and `network` the network variant; and the canonical output
/// re-emits the discriminator in its capitalized spelling.
pub proof fn lemma_discriminator_dispatch(
    top: Seq<(NodeV, NodeV)>,
    wp: Seq<(NodeV, NodeV)>,
    w: WorkloadV,
)
    requires
        lookup(top, "workload"@) == Some(NodeV::Mapping(wp)),
        spec_parse_document(NodeV::Mapping(top)) == Some(w),
    ensures
        lookup(wp, "kind"@) matches Some(NodeV::Str(k)) && (k == "container"@ || k
            == "network"@),
        lookup(wp, "kind"@) == Some(NodeV::Str("container"@)) ==> w.workload is Container,
        lookup(wp, "kind"@) == Some(NodeV::Str("network"@)) ==> w.workload is Network,
        w.workload is Container ==> lookup(encode_kind_pairs(w.workload), "kind"@) == Some(
            NodeV::Str("Container"@),
        ),
        w.workload is Network ==> lookup(encode_kind_pairs(w.workload), "kind"@) == Some(
            NodeV::Str("Network"@),
        ),
        spec_encode_workload(w) matches NodeV::Mapping(out) && lookup(out, "workload"@) == Some(
            NodeV::Mapping(encode_kind_pairs(w.workload)),
        ),
{
    reveal_strlit("container");
    reveal_strlit("network");
    reveal_strlit("version");
    reveal_strlit("workload");
    let out = seq![
        (NodeV::Str("version"@), NodeV::Str(w.version)),
        (NodeV::Str("workload"@), NodeV::Mapping(encode_kind_pairs(w.workload))),
    ];
    assert(spec_encode_workload(w) == NodeV::Mapping(out));
    assert("version"@ != "workload"@);
    assert(lookup(out, "workload"@) == lookup(out.drop_first(), "workload"@));
    assert(out.drop_first()[0] == out[1]);
    assert(lookup(out.drop_first(), "workload"@) == Some(out[1].1));
}

/// Any other discriminator value fails structural parsing: the parser never
/// silently defaults to a variant.
pub proof fn lemma_unknown_discriminator(
    top: Seq<(NodeV, NodeV)>,
    wp: Seq<(NodeV, NodeV)>,
    k: Seq<char>,
)
    requires
        lookup(top, "workload"@) == Some(NodeV::Mapping(wp)),
        lookup(wp, "kind"@) == Some(NodeV::Str(k)),
        k != "container"@,
        k != "network"@,
    ensures
        spec_parse_document(NodeV::Mapping(top)) is None,
{
}

/// The mask rule: a missing mask defaults to 32, and a present mask is
/// accepted exactly for integers in `[0, 32]` — anything larger, negative,
/// or non-numeric fails structural parsing.
pub proof fn lemma_mask_rule(n: Option<NodeV>)
    ensures
        spec_mask_field(None) == Some(32u32),
        (spec_mask_field(n) is Some) <==> (n is None || (n matches Some(NodeV::Num(Some(m))) && m
            <= 32)),
        n matches Some(NodeV::Num(Some(m))) ==> (m <= 32 ==> spec_mask_field(n) == Some(
            m as u32,
        )),
{
}

/// Fail-fast ordering: when a network workload's first egress entry starts
/// with an invalid IP literal, that is the violation reported — before any
/// port of that entry and before anything in `ingress`, whatever they hold.
pub proof fn lemma_fail_fast(w: WorkloadV, n: NetworkV)
    requires
        w.workload == WorkloadKindV::Network(n),
        n.egress.len() > 0,
        n.egress[0].len() > 0,
        !is_ip_literal(n.egress[0][0].0),
    ensures
        spec_verify_workload(w) == Some(CustomErrorV::InvalidIpAddress(n.egress[0][0].0)),
{
}

} // verus!
