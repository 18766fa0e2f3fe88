//! The engine configuration: the URL under which the engine is reached,
//! read from a configuration document and always carried with the engine's
//! port set. Reading and writing the document on disk belong to the caller.

use vstd::prelude::*;
use std::sync::Arc;
use std::sync::Mutex;
use crate::model::{CustomError, CustomErrorV};
use crate::schema::lookup;
use crate::tree::{Node, NodeV};
use crate::yaml::{parse_yaml_text, yaml_doc_of};

verus! {

/// The engine configuration.
#[derive(Debug)]
pub struct Config {
    pub orka_url: String,
}

/// std's lock type; a configuration is shared behind it.
#[verifier::external_type_specification]
#[verifier::external_body]
#[verifier::reject_recursive_types(T)]
pub struct ExMutex<T: ?Sized>(Mutex<T>);

/// What the URL library makes of a text once the given port is set on it:
/// `None` when the text is not an absolute URL or accepts no port. The
/// outcome is a function of the arguments alone.
pub uninterp spec fn url_with_port(s: Seq<char>, port: u16) -> Option<Seq<char>>;

/// Relies on url::Url::parse, url::Url::set_port and the URL-to-String
/// conversion: parses the text, sets the port on it, and renders the result;
/// set_port refuses a URL without a host (reported as the empty-host parse
/// error, as before). All three depend on their arguments alone.
#[verifier::external_body]
fn add_port_to_url(input_url: &str, port: u16) -> (r: Result<String, String>)
    ensures
        r matches Ok(u) ==> url_with_port(input_url@, port) == Some(u@),
        r matches Err(_) ==> url_with_port(input_url@, port) is None,
{
    let mut url = match url::Url::parse(input_url) {
        Ok(url) => url,
        Err(e) => return Err(e.to_string()),
    };
    if url.set_port(Some(port)).is_err() {
        return Err(url::ParseError::EmptyHost.to_string());
    }
    Ok(String::from(url))
}

/// Relies on std::sync::Mutex::new: wraps the configuration in a lock.
#[verifier::external_body]
fn lock_config(c: Config) -> Mutex<Config> {
    Mutex::new(c)
}

/// The engine URL a configuration document text yields: its `orkaUrl` string
/// with the engine's port set, or `None` when the text is rejected, the
/// field is missing or not a string, or the URL takes no port.
pub open spec fn spec_config_url(s: Seq<char>) -> Option<Seq<char>> {
    match yaml_doc_of(s) {
        None => None,
        Some(v) => match v {
            NodeV::Mapping(pairs) => match lookup(pairs, "orkaUrl"@) {
                Some(NodeV::Str(u)) => url_with_port(u, 3000),
                _ => None,
            },
            _ => None,
        },
    }
}

/// The port under which the engine listens.
const ENGINE_PORT: u16 = 3000;

impl Config {
    /// Reads the configuration from the text of the configuration document:
    /// the `orkaUrl` field, with the engine's port set on it.
    pub fn from_document(contents: &str) -> (r: Result<Config, CustomError>)
        ensures
            r matches Ok(c) ==> spec_config_url(contents@) == Some(c.orka_url@),
            r matches Err(e) ==> spec_config_url(contents@) is None && e@ matches
                CustomErrorV::FileContentError(_),
    {
        let doc = match parse_yaml_text(contents) {
            Ok(n) => n,
            Err(m) => {
                return Err(CustomError::FileContentError(m));
            },
        };
        let url_text = match &doc {
            Node::Mapping(pairs) => match crate::schema::lookup_key(pairs, "orkaUrl") {
                Some(Node::Str(u)) => u,
                _ => {
                    return Err(
                        CustomError::FileContentError(
                            "the configuration document has no orkaUrl string".to_owned(),
                        ),
                    );
                },
            },
            _ => {
                return Err(
                    CustomError::FileContentError(
                        "the configuration document is not a mapping".to_owned(),
                    ),
                );
            },
        };
        match add_port_to_url(url_text.as_str(), ENGINE_PORT) {
            Ok(u) => Ok(Config { orka_url: u }),
            Err(m) => Err(CustomError::FileContentError(m)),
        }
    }

    /// Reads the configuration from the document text and wraps it for
    /// shared use.
    pub fn new_wrapped(contents: &str) -> (r: Result<Arc<Mutex<Config>>, CustomError>)
        ensures
            (r is Ok) == (spec_config_url(contents@) is Some),
    {
        match Config::from_document(contents) {
            Ok(c) => Ok(Arc::new(lock_config(c))),
            Err(e) => Err(e),
        }
    }

    /// Replaces the engine URL with the given one, with the engine's port
    /// set; on failure the configuration is unchanged.
    pub fn set_orka_url(&mut self, new_url: &str) -> (r: Result<(), CustomError>)
        ensures
            url_with_port(new_url@, 3000) matches Some(u) ==> r is Ok && final(self).orka_url@
                == u,
            url_with_port(new_url@, 3000) is None ==> r is Err && *final(self) == *old(self),
    {
        match add_port_to_url(new_url, ENGINE_PORT) {
            Ok(u) => {
                self.orka_url = u;
                Ok(())
            },
            Err(m) => Err(CustomError::FileContentError(m)),
        }
    }
}

} // verus!
