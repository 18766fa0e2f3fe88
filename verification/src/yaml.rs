//! The trusted boundary to the YAML parser: raw text is turned into the
//! library's generic tree here, and nowhere else.

use vstd::prelude::*;
use crate::tree::{Node, NodeV};

verus! {

/// serde_yaml's generic value type; it appears only inside the trusted
/// parsing wrappers below.
#[verifier::external_type_specification]
#[verifier::external_body]
pub struct ExYamlValue(serde_yaml::Value);

/// The tree that the YAML parser yields for a text, or `None` when the text
/// is rejected. Parsing depends on the text alone, so its outcome can be
/// given a name.
pub uninterp spec fn yaml_doc_of(s: Seq<char>) -> Option<NodeV>;

/// Relies on serde_yaml::Value's public variants: each arm moves one level
/// of the parsed value into the library's tree, recursing into sequence and
/// mapping children; numbers are read through serde_yaml::Number::as_u64,
/// which is `Some` exactly for nonnegative integers that fit 64 bits.
#[verifier::external_body]
fn node_of_value(v: serde_yaml::Value) -> Node {
    match v {
        serde_yaml::Value::Null => Node::Null,
        serde_yaml::Value::Bool(b) => Node::Bool(b),
        serde_yaml::Value::Number(n) => Node::Num(n.as_u64()),
        serde_yaml::Value::String(s) => Node::Str(s),
        serde_yaml::Value::Sequence(items) => Node::List(
            items.into_iter().map(node_of_value).collect(),
        ),
        serde_yaml::Value::Mapping(m) => Node::Mapping(
            m.into_iter().map(|(k, w)| (node_of_value(k), node_of_value(w))).collect(),
        ),
        serde_yaml::Value::Tagged(_) => Node::Other,
    }
}

/// Relies on serde_yaml::from_str::<serde_yaml::Value>: parses one YAML
/// document, deterministically in the text (mappings keep their source
/// order); the parsed value is converted one-for-one into the library's
/// tree, and a rejection is returned as the parser's message.
#[verifier::external_body]
pub(crate) fn parse_yaml_text(s: &str) -> (r: Result<Node, String>)
    ensures
        r matches Ok(n) ==> yaml_doc_of(s@) == Some(n@),
        r matches Err(_) ==> yaml_doc_of(s@) is None,
{
    match serde_yaml::from_str::<serde_yaml::Value>(s) {
        Ok(v) => Ok(node_of_value(v)),
        Err(e) => Err(e.to_string()),
    }
}

} // verus!
