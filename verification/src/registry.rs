//! Project registration and classification governance: who owns a project, what
//! it may roll up to, which tier it stands in and what evidence a tier asks for.
use vstd::prelude::*;

use crate::registry::evidence::Evidence;
use crate::text::texts;
use crate::usd::Usd;

pub mod approvals;
pub mod cost;
pub mod evidence;
pub mod governance;
pub mod groups;
pub mod guidance;
pub mod mcp_servers;
pub mod promotion;
pub mod recipes;
pub mod register;
pub mod review;
pub mod service;
pub mod review_jobs;
pub mod skills;
pub mod standards;
pub mod versions;
pub mod workflow;

verus! {

/// Why the registry refused a request.
#[derive(Debug)]
pub enum RegistryError {
    Validation(String),
    NotRegistered(String),
    Inactive(String),
    Gateway(String),
    Workflow(String),
    Catalog(String),
    Sqlx(String),
}

/// What a registry error says.
pub enum RegistryFault {
    Validation(Seq<char>),
    NotRegistered(Seq<char>),
    Inactive(Seq<char>),
    Gateway(Seq<char>),
    Workflow(Seq<char>),
    Catalog(Seq<char>),
    Sqlx(Seq<char>),
}

impl View for RegistryError {
    type V = RegistryFault;

    open spec fn view(&self) -> RegistryFault {
        match self {
            RegistryError::Validation(m) => RegistryFault::Validation(m@),
            RegistryError::NotRegistered(m) => RegistryFault::NotRegistered(m@),
            RegistryError::Inactive(m) => RegistryFault::Inactive(m@),
            RegistryError::Gateway(m) => RegistryFault::Gateway(m@),
            RegistryError::Workflow(m) => RegistryFault::Workflow(m@),
            RegistryError::Catalog(m) => RegistryFault::Catalog(m@),
            RegistryError::Sqlx(m) => RegistryFault::Sqlx(m@),
        }
    }
}

impl RegistryFault {
    /// The line shown to a caller.
    pub open spec fn line(self) -> Seq<char> {
        match self {
            RegistryFault::Validation(m) => "invalid registration: "@ + m,
            RegistryFault::NotRegistered(p) => "project '"@ + p
                + "' is not registered — register it before requesting resources"@,
            RegistryFault::Inactive(p) => "project '"@ + p
                + "' is not active (it has been decommissioned)"@,
            RegistryFault::Gateway(m) => "gateway: "@ + m,
            RegistryFault::Workflow(m) => "workflow: "@ + m,
            RegistryFault::Catalog(m) => "catalog: "@ + m,
            RegistryFault::Sqlx(m) => "db: "@ + m,
        }
    }
}

impl RegistryError {
    /// A validation error with the given message.
    pub fn validation(m: &str) -> (r: RegistryError)
        ensures
            r@ == RegistryFault::Validation(m@),
    {
        RegistryError::Validation(m.to_owned())
    }

    /// The line shown to a caller.
    pub fn message(&self) -> (r: String)
        ensures
            r@ == self@.line(),
    {
        let mut out = String::new();
        match self {
            RegistryError::Validation(m) => {
                out.append("invalid registration: ");
                out.append(m.as_str());
            },
            RegistryError::NotRegistered(p) => {
                out.append("project '");
                out.append(p.as_str());
                out.append("' is not registered — register it before requesting resources");
            },
            RegistryError::Inactive(p) => {
                out.append("project '");
                out.append(p.as_str());
                out.append("' is not active (it has been decommissioned)");
            },
            RegistryError::Gateway(m) => {
                out.append("gateway: ");
                out.append(m.as_str());
            },
            RegistryError::Workflow(m) => {
                out.append("workflow: ");
                out.append(m.as_str());
            },
            RegistryError::Catalog(m) => {
                out.append("catalog: ");
                out.append(m.as_str());
            },
            RegistryError::Sqlx(m) => {
                out.append("db: ");
                out.append(m.as_str());
            },
        }
        assert(out@ =~= self@.line());
        out
    }
}

/// The tiers a project moves through, lowest first.
pub open spec fn classification_names() -> Seq<Seq<char>> {
    seq!["poc"@, "light-operational"@, "wide-operational"@, "critical-path"@]
}

/// The tiers a project moves through, lowest first.
pub fn classifications() -> (r: Vec<String>)
    ensures
        texts(r@) == classification_names(),
{
    let v = vec![
        "poc".to_owned(),
        "light-operational".to_owned(),
        "wide-operational".to_owned(),
        "critical-path".to_owned(),
    ];
    assert(texts(v@) =~= classification_names());
    v
}

/// The sensitivity classes of a project's data.
pub open spec fn data_class_names() -> Seq<Seq<char>> {
    seq!["public"@, "internal"@, "confidential"@, "restricted"@]
}

/// The sensitivity classes of a project's data.
pub fn data_classes() -> (r: Vec<String>)
    ensures
        texts(r@) == data_class_names(),
{
    let v = vec![
        "public".to_owned(),
        "internal".to_owned(),
        "confidential".to_owned(),
        "restricted".to_owned(),
    ];
    assert(texts(v@) =~= data_class_names());
    v
}

/// A registered project.
#[derive(Debug)]
pub struct Registration {
    pub project_id: String,
    pub name: String,
    pub owner: String,
    pub manager: String,
    pub group: String,
    pub cost_center: String,
    pub classification: String,
    pub data_class: String,
    pub budget_usd: Usd,
    pub spent_usd: Usd,
    pub lifecycle: String,
    pub registered: bool,
    pub killed: bool,
    pub description: String,
    pub created_at: String,
    /// The next review deadline, blank for none.
    pub review_date: String,
    /// `ok` or `expired`.
    pub review_state: String,
    pub review_extensions: i64,
    pub stack_exception_renewal_date: String,
    pub evidence: Evidence,
}

/// Every fault is shown under its own heading, with what it says behind it; an unknown
/// and an inactive project are told apart and named.
pub proof fn law_faults_have_their_headings(m: Seq<char>)
    ensures
        RegistryFault::Validation(m).line() == "invalid registration: "@ + m,
        RegistryFault::NotRegistered(m).line() == "project '"@ + m
            + "' is not registered — register it before requesting resources"@,
        RegistryFault::Inactive(m).line() == "project '"@ + m
            + "' is not active (it has been decommissioned)"@,
        RegistryFault::Gateway(m).line() == "gateway: "@ + m,
        RegistryFault::Workflow(m).line() == "workflow: "@ + m,
        RegistryFault::Catalog(m).line() == "catalog: "@ + m,
        RegistryFault::Sqlx(m).line() == "db: "@ + m,
{
}

} // verus!
