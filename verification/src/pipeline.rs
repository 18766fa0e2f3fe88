//! The validation pipeline: raw text is parsed into the variant model,
//! dispatched to the variant's validators, and re-encoded into the canonical
//! tree. Any failure is terminal and reported as a single typed error, the
//! first problem found.

use vstd::prelude::*;
use vstd::string::StringExecFns;
use crate::encode::{encode_workload, spec_encode_workload};
use crate::model::{CustomError, CustomErrorV, WorkloadKindV, WorkloadKind, WorkloadV};
use crate::schema::{parse_document, spec_parse_document};
use crate::tree::{Node, NodeV};
use crate::validate::{first_entry_error, verify_network};
use crate::yaml::{parse_yaml_text, yaml_doc_of};

verus! {

/// The first semantic violation of a structurally valid workload: a
/// container needs no pass beyond structural checks; a network's egress
/// entries are checked before its ingress entries.
pub open spec fn spec_verify_workload(w: WorkloadV) -> Option<CustomErrorV> {
    match w.workload {
        WorkloadKindV::Container(_) => None,
        WorkloadKindV::Network(n) => if first_entry_error(n.egress) is Some {
            first_entry_error(n.egress)
        } else {
            first_entry_error(n.ingress)
        },
    }
}

/// What the pipeline owes for a structured document `v`: a structural
/// failure is a `FileContentError`; otherwise the first semantic violation,
/// if any, is returned exactly; otherwise the canonical tree of the parsed
/// workload.
pub open spec fn pipeline_result_ok(v: NodeV, r: Result<Node, CustomError>) -> bool {
    match spec_parse_document(v) {
        None => r matches Err(e) && e@ matches CustomErrorV::FileContentError(_),
        Some(w) => match spec_verify_workload(w) {
            Some(err) => r matches Err(e) && e@ == err,
            None => r matches Ok(t) && t@ == spec_encode_workload(w),
        },
    }
}

/// Runs a structured document through the pipeline: structural parse,
/// variant-dispatched semantic validation, canonical re-encoding.
pub fn process_document(doc: &Node) -> (r: Result<Node, CustomError>)
    ensures
        pipeline_result_ok(doc@, r),
{
    let w = match parse_document(doc) {
        Some(w) => w,
        None => {
            return Err(
                CustomError::FileContentError(
                    "the document does not fit the workload schema".to_owned(),
                ),
            );
        },
    };
    match &w.workload {
        WorkloadKind::Container(_) => {},
        WorkloadKind::Network(n) => {
            let checked = verify_network(&n.egress);
            if let Some(e) = checked {
                return Err(e);
            }
            let checked = verify_network(&n.ingress);
            if let Some(e) = checked {
                return Err(e);
            }
        },
    }
    Ok(encode_workload(&w))
}

/// The single entry point: validates and normalizes one raw document text.
/// An unparseable text is a `FileContentError` carrying the parser's
/// message; a parseable one is handed to the pipeline.
pub fn validate_and_normalize(text: &str) -> (r: Result<Node, CustomError>)
    ensures
        yaml_doc_of(text@) matches Some(v) ==> pipeline_result_ok(v, r),
        yaml_doc_of(text@) is None ==> (r matches Err(e) && e@ matches
            CustomErrorV::FileContentError(_)),
{
    match parse_yaml_text(text) {
        Ok(doc) => process_document(&doc),
        Err(msg) => Err(CustomError::FileContentError(msg)),
    }
}

} // verus!
