//! Validation and normalization engine for workload-definition documents.
//!
//! A document describes either a container workload or a network workload.
//! The library parses the document's generic tree form against the workload
//! schema, normalizes ambiguous representations (numeric ports become strings,
//! string lists become sorted duplicate-free lists), validates domain rules
//! (IP-literal syntax, port ranges, netmask bounds), and re-encodes the result
//! into a canonical, order-preserving key/value tree for the transport layer.

pub mod config;
pub mod encode;
pub mod laws;
pub mod model;
pub mod normalize;
pub mod pipeline;
pub mod schema;
pub mod strings;
pub mod tree;
pub mod validate;
pub mod yaml;

pub use config::Config;
pub use model::Container;
pub use model::CustomError;
pub use model::IpAdress;
pub use model::Network;
pub use model::Registry;
pub use model::Workload;
pub use model::WorkloadKind;
pub use normalize::remove_duplicates_array;
pub use pipeline::validate_and_normalize;
pub use strings::u32_to_string;
pub use tree::Node;
pub use tree::NodeV;
pub use validate::max_mask;
pub use validate::verify_network;
