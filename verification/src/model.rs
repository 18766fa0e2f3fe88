//! The workload variant model: the typed form a document takes between
//! structural parsing and canonical re-encoding, and the error taxonomy.

use vstd::prelude::*;

verus! {

/// Where a container image is pulled from.
#[derive(Clone, Copy, PartialEq, Eq, Structural, Debug)]
pub enum Registry {
    Ghcr,
    Docker,
}

impl Registry {
    /// The registry assumed when a document names none.
    pub fn default() -> (r: Registry)
        ensures
            r == Registry::Docker,
    {
        Registry::Docker
    }
}

/// Model of a container workload.
pub struct ContainerV {
    pub port: Seq<char>,
    pub name: Seq<char>,
    pub environment: Seq<Seq<char>>,
    pub network: Seq<Seq<char>>,
    pub registry: Registry,
    pub image: Seq<char>,
}

/// A container workload: a named image exposing one port, with normalized
/// `environment` and `network` lists. The `port` is kept in its string form,
/// as the transport expects.
#[derive(Debug, PartialEq)]
pub struct Container {
    pub port: String,
    pub name: String,
    pub environment: Vec<String>,
    pub network: Vec<String>,
    pub registry: Registry,
    pub image: String,
}

impl View for Container {
    type V = ContainerV;

    open spec fn view(&self) -> ContainerV {
        ContainerV {
            port: self.port@,
            name: self.name@,
            environment: self.environment.deep_view(),
            network: self.network.deep_view(),
            registry: self.registry,
            image: self.image@,
        }
    }
}

/// Model of one egress/ingress rule.
pub struct IpAdressV {
    pub mask: u32,
    pub ports: Seq<Seq<char>>,
}

/// One egress/ingress rule: a netmask within `[0, 32]` and the port
/// specifications allowed through it.
#[derive(Debug, PartialEq)]
pub struct IpAdress {
    pub mask: u32,
    pub ports: Vec<String>,
}

impl View for IpAdress {
    type V = IpAdressV;

    open spec fn view(&self) -> IpAdressV {
        IpAdressV { mask: self.mask, ports: self.ports.deep_view() }
    }
}

/// Model of one egress/ingress entry: IP-literal keys with their rules, in
/// stored order.
pub open spec fn entry_view(m: Seq<(String, IpAdress)>) -> Seq<(Seq<char>, IpAdressV)> {
    m.map_values(|p: (String, IpAdress)| (p.0@, p.1@))
}

/// Model of a direction's entries, in stored order.
pub open spec fn entries_view(e: Seq<Vec<(String, IpAdress)>>) -> Seq<Seq<(Seq<char>, IpAdressV)>> {
    e.map_values(|m: Vec<(String, IpAdress)>| entry_view(m@))
}

/// Model of a network workload.
pub struct NetworkV {
    pub name: Seq<char>,
    pub allowservice: Seq<Seq<char>>,
    pub egress: Seq<Seq<(Seq<char>, IpAdressV)>>,
    pub ingress: Seq<Seq<(Seq<char>, IpAdressV)>>,
}

/// A network workload: a normalized `allowService` list and ordered egress
/// and ingress entries, each mapping an IP literal to its rule.
#[derive(Debug, PartialEq)]
pub struct Network {
    pub name: String,
    pub allowservice: Vec<String>,
    pub egress: Vec<Vec<(String, IpAdress)>>,
    pub ingress: Vec<Vec<(String, IpAdress)>>,
}

impl View for Network {
    type V = NetworkV;

    open spec fn view(&self) -> NetworkV {
        NetworkV {
            name: self.name@,
            allowservice: self.allowservice.deep_view(),
            egress: entries_view(self.egress@),
            ingress: entries_view(self.ingress@),
        }
    }
}

/// Model of the workload variant.
pub enum WorkloadKindV {
    Container(ContainerV),
    Network(NetworkV),
}

/// The workload variant, selected by the document's `kind` discriminator.
#[derive(Debug, PartialEq)]
pub enum WorkloadKind {
    Container(Container),
    Network(Network),
}

impl View for WorkloadKind {
    type V = WorkloadKindV;

    open spec fn view(&self) -> WorkloadKindV {
        match self {
            WorkloadKind::Container(c) => WorkloadKindV::Container(c@),
            WorkloadKind::Network(n) => WorkloadKindV::Network(n@),
        }
    }
}

/// Model of a whole document.
pub struct WorkloadV {
    pub version: Seq<char>,
    pub workload: WorkloadKindV,
}

/// A whole document: an opaque version string and exactly one workload
/// variant.
#[derive(Debug, PartialEq)]
pub struct Workload {
    pub version: String,
    pub workload: WorkloadKind,
}

impl View for Workload {
    type V = WorkloadV;

    open spec fn view(&self) -> WorkloadV {
        WorkloadV { version: self.version@, workload: self.workload@ }
    }
}

/// Model of a validation error.
pub enum CustomErrorV {
    FileContentError(Seq<char>),
    FileNotFound(Seq<char>),
    FileCouldNotBeRead,
    InvalidIpAddress(Seq<char>),
    OutsidePortRange(u32),
    InvalidPortFormat(Seq<char>),
}

/// The error taxonomy. `FileNotFound` and `FileCouldNotBeRead` are reserved
/// for the file-reading collaborator; validation itself reports a structural
/// failure (`FileContentError`, carrying the parser's message), an IP literal
/// that fails the syntax check, a port outside `[0, 65535]`, or a port token
/// that is not a number at all.
#[derive(Debug, PartialEq)]
pub enum CustomError {
    FileContentError(String),
    FileNotFound(String),
    FileCouldNotBeRead,
    InvalidIpAddress(String),
    OutsidePortRange(u32),
    InvalidPortFormat(String),
}

impl CustomError {
    /// Maps the file-reading collaborator's failure signal into the
    /// taxonomy: a source that could not be located is `FileNotFound` with
    /// its path, any other read fault is `FileCouldNotBeRead`.
    pub fn from_read_failure(not_found: bool, path: String) -> (r: CustomError)
        ensures
            not_found ==> r@ == CustomErrorV::FileNotFound(path@),
            !not_found ==> r@ == CustomErrorV::FileCouldNotBeRead,
    {
        if not_found {
            CustomError::FileNotFound(path)
        } else {
            CustomError::FileCouldNotBeRead
        }
    }
}

impl View for CustomError {
    type V = CustomErrorV;

    open spec fn view(&self) -> CustomErrorV {
        match self {
            CustomError::FileContentError(s) => CustomErrorV::FileContentError(s@),
            CustomError::FileNotFound(s) => CustomErrorV::FileNotFound(s@),
            CustomError::FileCouldNotBeRead => CustomErrorV::FileCouldNotBeRead,
            CustomError::InvalidIpAddress(s) => CustomErrorV::InvalidIpAddress(s@),
            CustomError::OutsidePortRange(v) => CustomErrorV::OutsidePortRange(*v),
            CustomError::InvalidPortFormat(s) => CustomErrorV::InvalidPortFormat(s@),
        }
    }
}

} // verus!
