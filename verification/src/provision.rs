//! Provisioning services through a manifest-driven catalog: what may be
//! requested, who decides, what is recorded and how recorded work is driven to
//! its end.
use vstd::prelude::*;

use crate::registry::{RegistryError, RegistryFault};

pub mod connectors;
pub mod context;
pub mod cost;
pub mod grants;
pub mod lifecycle;
pub mod manifest;
pub mod outputs;
pub mod repo;
pub mod runlog;
pub mod seal;
pub mod secrets;
pub mod service;
pub mod stub;
pub mod tfstate;
pub mod work;

verus! {

/// Why provisioning refused or failed.
#[derive(Debug)]
pub enum ProvisionError {
    Unsupported(String),
    InvalidSpec(String),
    RefNotFound(String),
    Backend(String),
    Conflict(String),
    NotPermitted(String),
    NotFound(String),
    Registry(RegistryError),
    Workflow(String),
    Sqlx(String),
}

/// What a provisioning error says.
pub enum ProvisionFault {
    Unsupported(Seq<char>),
    InvalidSpec(Seq<char>),
    RefNotFound(Seq<char>),
    Backend(Seq<char>),
    Conflict(Seq<char>),
    NotPermitted(Seq<char>),
    NotFound(Seq<char>),
    Registry(RegistryFault),
    Workflow(Seq<char>),
    Sqlx(Seq<char>),
}

impl View for ProvisionError {
    type V = ProvisionFault;

    open spec fn view(&self) -> ProvisionFault {
        match self {
            ProvisionError::Unsupported(m) => ProvisionFault::Unsupported(m@),
            ProvisionError::InvalidSpec(m) => ProvisionFault::InvalidSpec(m@),
            ProvisionError::RefNotFound(m) => ProvisionFault::RefNotFound(m@),
            ProvisionError::Backend(m) => ProvisionFault::Backend(m@),
            ProvisionError::Conflict(m) => ProvisionFault::Conflict(m@),
            ProvisionError::NotPermitted(m) => ProvisionFault::NotPermitted(m@),
            ProvisionError::NotFound(m) => ProvisionFault::NotFound(m@),
            ProvisionError::Registry(e) => ProvisionFault::Registry(e@),
            ProvisionError::Workflow(m) => ProvisionFault::Workflow(m@),
            ProvisionError::Sqlx(m) => ProvisionFault::Sqlx(m@),
        }
    }
}

impl ProvisionFault {
    /// The line shown to a caller.
    pub open spec fn line(self) -> Seq<char> {
        match self {
            ProvisionFault::Unsupported(m) => "unsupported resource type: "@ + m,
            ProvisionFault::InvalidSpec(m) => "invalid spec: "@ + m,
            ProvisionFault::RefNotFound(m) => "unresolved reference: "@ + m,
            ProvisionFault::Backend(m) => "backend error: "@ + m,
            ProvisionFault::Conflict(m) => "state conflict: "@ + m,
            ProvisionFault::NotPermitted(m) => "not permitted: "@ + m,
            ProvisionFault::NotFound(m) => "request not found: "@ + m,
            ProvisionFault::Registry(f) => f.line(),
            ProvisionFault::Workflow(m) => "workflow: "@ + m,
            ProvisionFault::Sqlx(m) => "db: "@ + m,
        }
    }
}

fn prefixed(prefix: &str, m: &str) -> (r: String)
    ensures
        r@ == prefix@ + m@,
{
    let mut out = prefix.to_owned();
    out.append(m);
    out
}

impl ProvisionError {
    /// An invalid-spec error with the given message.
    pub fn invalid(m: &str) -> (r: ProvisionError)
        ensures
            r@ == ProvisionFault::InvalidSpec(m@),
    {
        ProvisionError::InvalidSpec(m.to_owned())
    }

    /// The line shown to a caller.
    pub fn message(&self) -> (r: String)
        ensures
            r@ == self@.line(),
    {
        match self {
            ProvisionError::Unsupported(m) => prefixed("unsupported resource type: ", m.as_str()),
            ProvisionError::InvalidSpec(m) => prefixed("invalid spec: ", m.as_str()),
            ProvisionError::RefNotFound(m) => prefixed("unresolved reference: ", m.as_str()),
            ProvisionError::Backend(m) => prefixed("backend error: ", m.as_str()),
            ProvisionError::Conflict(m) => prefixed("state conflict: ", m.as_str()),
            ProvisionError::NotPermitted(m) => prefixed("not permitted: ", m.as_str()),
            ProvisionError::NotFound(m) => prefixed("request not found: ", m.as_str()),
            ProvisionError::Registry(e) => e.message(),
            ProvisionError::Workflow(m) => prefixed("workflow: ", m.as_str()),
            ProvisionError::Sqlx(m) => prefixed("db: ", m.as_str()),
        }
    }
}

/// Every fault is shown under its own heading, with what it says behind it.
pub proof fn law_faults_have_their_headings(m: Seq<char>, f: RegistryFault)
    ensures
        ProvisionFault::Unsupported(m).line() == "unsupported resource type: "@ + m,
        ProvisionFault::InvalidSpec(m).line() == "invalid spec: "@ + m,
        ProvisionFault::RefNotFound(m).line() == "unresolved reference: "@ + m,
        ProvisionFault::Backend(m).line() == "backend error: "@ + m,
        ProvisionFault::Conflict(m).line() == "state conflict: "@ + m,
        ProvisionFault::NotPermitted(m).line() == "not permitted: "@ + m,
        ProvisionFault::NotFound(m).line() == "request not found: "@ + m,
        ProvisionFault::Workflow(m).line() == "workflow: "@ + m,
        ProvisionFault::Sqlx(m).line() == "db: "@ + m,
        ProvisionFault::Registry(f).line() == f.line(),
{
}

} // verus!
