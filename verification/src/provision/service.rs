//! The provisioning service: what an operator has set up, and what becomes of a
//! request for a resource.
use vstd::prelude::*;

use crate::json::{json_text, Json, JsonView};
use crate::provision::context::CloudTarget;
use crate::provision::manifest::{
    config_of, either, law_spec_fills_what_is_required, law_tiers_between_floor_and_ceiling,
    resolution, spec_fault, tier_objection, Resolved, ResolvedView, ServiceCatalog,
    ServiceManifest,
};
use crate::provision::work::carried_spec;
use crate::provision::{ProvisionError, ProvisionFault};
use crate::registry::promotion::lemma_tiers_differ;
use crate::registry::workflow::{NewRequest, State, WEEK_SECS};
use crate::registry::Registration;
use crate::sorted_map::{increasing, SortedMap};
use crate::text::{blank, contents_ref, is_blank, text_eq, texts};
use crate::usd::Usd;

verus! {

/// A claim whose holder gave no sign of life for this long is abandoned.
pub const STALE_SECS: i64 = 900;

/// How often a worker gives a sign of life.
pub const HEARTBEAT_SECS: u64 = 60;

/// Attempts at a piece of work, unless the operator or the service says otherwise.
pub const MAX_RETRIES: u32 = 5;

/// The wait before the first retry, unless the service says otherwise.
pub const RETRY_BASE_SECS: u64 = 60;

/// The longest wait before a retry, unless the service says otherwise.
pub const RETRY_CAP_SECS: u64 = 3600;

// ---------------------------------------------------------------------------
// The self-service envelope
// ---------------------------------------------------------------------------

/// How much a project may commit per month without asking, by its tier. A tier
/// without a ceiling always asks.
#[derive(Debug)]
pub struct AutoApprovePolicy {
    pub ceilings: SortedMap<Usd>,
}

/// The ceilings unless the operator sets others: 500, 2500, 10000 and 25000.
pub open spec fn default_ceilings() -> Map<Seq<char>, Usd> {
    Map::empty().insert("poc"@, Usd { bits: 0x407f_4000_0000_0000 }).insert(
        "light-operational"@,
        Usd { bits: 0x40a3_8800_0000_0000 },
    ).insert("wide-operational"@, Usd { bits: 0x40c3_8800_0000_0000 }).insert(
        "critical-path"@,
        Usd { bits: 0x40d8_6a00_0000_0000 },
    )
}

/// The ceiling of a tier.
pub open spec fn ceiling_of(ceilings: Map<Seq<char>, Usd>, classification: Seq<char>) -> Option<
    Usd,
> {
    if ceilings.contains_key(classification) {
        Some(ceilings[classification])
    } else {
        None
    }
}

impl Default for AutoApprovePolicy {
    fn default() -> (r: AutoApprovePolicy)
        ensures
            r.ceilings@ == default_ceilings(),
    {
        let mut c: SortedMap<Usd> = SortedMap::new();
        c.insert("poc", Usd { bits: 0x407f_4000_0000_0000 });
        c.insert("light-operational", Usd { bits: 0x40a3_8800_0000_0000 });
        c.insert("wide-operational", Usd { bits: 0x40c3_8800_0000_0000 });
        c.insert("critical-path", Usd { bits: 0x40d8_6a00_0000_0000 });
        AutoApprovePolicy { ceilings: c }
    }
}

impl AutoApprovePolicy {
    /// The ceiling of a tier, if it has one.
    pub fn ceiling(&self, classification: &str) -> (r: Option<Usd>)
        ensures
            r == ceiling_of(self.ceilings@, classification@),
    {
        match self.ceilings.get(classification) {
            Some(c) => Some(*c),
            None => None,
        }
    }
}

// ---------------------------------------------------------------------------
// The service
// ---------------------------------------------------------------------------

/// What the service knows of a connector: the name it goes by on a record, and
/// whether it only pretends.
#[derive(Debug)]
pub struct Backend {
    pub name: String,
    pub dry_run: bool,
}

/// The provisioning service as the operator has set it up.
#[derive(Debug)]
pub struct ProvisionService {
    pub backends: SortedMap<Backend>,
    pub catalog: ServiceCatalog,
    pub default_cloud: String,
    pub default_account: String,
    pub allowed: Vec<CloudTarget>,
    pub auto: AutoApprovePolicy,
    pub forecast_window_days: i64,
    pub wait_budget_secs: u64,
    pub max_retries: u32,
}

/// The connector that a name stands for: the one registered under it, or the
/// dry-run one.
pub open spec fn backend_for(s: ProvisionService, connector: Seq<char>) -> Backend {
    if s.backends@.contains_key(connector) {
        s.backends@[connector]
    } else {
        s.backends@["stub"@]
    }
}

/// The manifest of a service, if the catalog has it.
pub open spec fn manifest_of(s: ProvisionService, rtype: Seq<char>) -> Option<ServiceManifest> {
    if s.catalog@.contains_key(rtype) {
        Some(s.catalog@[rtype])
    } else {
        None
    }
}

/// The connector that provisions a service, the dry-run one for a service that is
/// gone from the catalog.
pub open spec fn connector_of(s: ProvisionService, rtype: Seq<char>) -> Seq<char> {
    match manifest_of(s, rtype) {
        Some(m) => m.provisioner.connector@,
        None => "stub"@,
    }
}

/// What that connector is told.
pub open spec fn config_for(s: ProvisionService, rtype: Seq<char>) -> JsonView {
    match manifest_of(s, rtype) {
        Some(m) => config_of(m),
        None => JsonView::Object(Map::empty()),
    }
}

/// How long a request for a service waits: not at all for one that is known to
/// run long.
pub open spec fn budget_of(s: ProvisionService, rtype: Seq<char>) -> u64 {
    match manifest_of(s, rtype) {
        Some(m) => if m.long_running {
            0
        } else {
            s.wait_budget_secs
        },
        None => s.wait_budget_secs,
    }
}

/// Whether a list of targets has a cloud and an account.
pub open spec fn allows(
    allowed: Seq<CloudTarget>,
    cloud: Seq<char>,
    account: Seq<char>,
) -> bool {
    exists|i: int|
        0 <= i < allowed.len() && (#[trigger] allowed[i]).cloud@ == cloud && allowed[i].account@
            == account
}

fn is_allowed(allowed: &Vec<CloudTarget>, cloud: &str, account: &str) -> (r: bool)
    ensures
        r == allows(allowed@, cloud@, account@),
{
    let mut i: usize = 0;
    while i < allowed.len()
        invariant
            i <= allowed@.len(),
            forall|k: int|
                0 <= k < i ==> !((#[trigger] allowed@[k]).cloud@ == cloud@ && allowed@[k].account@
                    == account@),
        decreases allowed.len() - i,
    {
        if text_eq(allowed[i].cloud.as_str(), cloud) && text_eq(
            allowed[i].account.as_str(),
            account,
        ) {
            return true;
        }
        i = i + 1;
    }
    false
}

/// An optional text, or another where it is missing.
pub open spec fn or_else(s: Option<Seq<char>>, other: Seq<char>) -> Seq<char> {
    match s {
        Some(t) => t,
        None => other,
    }
}

/// The text of the member `key`, or `other`.
pub fn get_str_or(j: &Json, key: &str, other: &str) -> (r: String)
    ensures
        r@ == or_else(j@.text_at(key@), other@),
{
    match j.get_str(key) {
        Some(s) => s.to_owned(),
        None => other.to_owned(),
    }
}

impl ProvisionService {
    /// The dry-run connector is always there to fall back on.
    pub open spec fn wf(self) -> bool {
        self.backends@.contains_key("stub"@)
    }

    /// A service over a catalog, with the dry-run connector and nothing else set
    /// up: requests go to the local stub target.
    pub fn new(catalog: ServiceCatalog) -> (r: ProvisionService)
        ensures
            r.wf(),
            forall|k: Seq<char>| #[trigger] r.backends@.contains_key(k) <==> k == "stub"@,
            r.backends@["stub"@].name@ == "stub"@,
            r.backends@["stub"@].dry_run,
            r.catalog == catalog,
            r.default_cloud@ == "stub"@,
            r.default_account@ == "local"@,
            r.allowed@.len() == 1,
            r.allowed@[0].cloud@ == "stub"@,
            r.allowed@[0].account@ == "local"@,
            r.auto.ceilings@ == default_ceilings(),
            r.forecast_window_days == 60,
            r.wait_budget_secs == 5,
            r.max_retries == MAX_RETRIES,
    {
        let mut backends: SortedMap<Backend> = SortedMap::new();
        backends.insert("stub", Backend { name: "stub".to_owned(), dry_run: true });
        let mut allowed: Vec<CloudTarget> = Vec::new();
        allowed.push(CloudTarget { cloud: "stub".to_owned(), account: "local".to_owned() });
        ProvisionService {
            backends,
            catalog,
            default_cloud: "stub".to_owned(),
            default_account: "local".to_owned(),
            allowed,
            auto: AutoApprovePolicy::default(),
            forecast_window_days: 60,
            wait_budget_secs: 5,
            max_retries: MAX_RETRIES,
        }
    }

    /// Sets how long a request waits for its work before the caller is left to
    /// ask again.
    pub fn set_wait_budget_secs(&mut self, secs: u64)
        ensures
            *final(self) == (ProvisionService { wait_budget_secs: secs, ..*old(self) }),
    {
        self.wait_budget_secs = secs;
    }

    /// Sets the number of attempts for services that do not say; none at all
    /// switches retries off.
    pub fn set_max_retries(&mut self, n: u32)
        ensures
            *final(self) == (ProvisionService { max_retries: n, ..*old(self) }),
    {
        self.max_retries = n;
    }

    /// Registers a connector under a name, in place of one that is there already.
    pub fn register_backend(&mut self, connector: &str, backend: Backend)
        ensures
            final(self).backends@ == old(self).backends@.insert(connector@, backend),
            *final(self) == (ProvisionService { backends: final(self).backends, ..*old(self) }),
            old(self).wf() ==> final(self).wf(),
    {
        self.backends.insert(connector, backend);
    }

    /// Puts another catalog in place.
    pub fn set_catalog(&mut self, catalog: ServiceCatalog)
        ensures
            *final(self) == (ProvisionService { catalog, ..*old(self) }),
    {
        self.catalog = catalog;
    }

    /// The catalog.
    pub fn catalog(&self) -> (r: &ServiceCatalog)
        ensures
            *r == self.catalog,
    {
        &self.catalog
    }

    /// Sets the target of requests that name none.
    pub fn set_default_target(&mut self, cloud: &str, account: &str)
        ensures
            final(self).default_cloud@ == cloud@,
            final(self).default_account@ == account@,
            *final(self) == (ProvisionService {
                default_cloud: final(self).default_cloud,
                default_account: final(self).default_account,
                ..*old(self)
            }),
    {
        self.default_cloud = cloud.to_owned();
        self.default_account = account.to_owned();
    }

    /// Sets the targets that requests may go to.
    pub fn set_allowed(&mut self, allowed: Vec<CloudTarget>)
        ensures
            *final(self) == (ProvisionService { allowed, ..*old(self) }),
    {
        self.allowed = allowed;
    }

    /// Sets the self-service envelope.
    pub fn set_auto_approve(&mut self, auto: AutoApprovePolicy)
        ensures
            *final(self) == (ProvisionService { auto, ..*old(self) }),
    {
        self.auto = auto;
    }

    /// Sets the days a forecast looks back on; a number that is not positive
    /// changes nothing.
    pub fn set_rollup_config(&mut self, forecast_window_days: i64)
        ensures
            *final(self) == if forecast_window_days > 0 {
                ProvisionService { forecast_window_days, ..*old(self) }
            } else {
                *old(self)
            },
    {
        if forecast_window_days > 0 {
            self.forecast_window_days = forecast_window_days;
        }
    }

    /// The self-service ceiling of a tier, if it has one.
    pub fn auto_approve_ceiling(&self, classification: &str) -> (r: Option<Usd>)
        ensures
            r == ceiling_of(self.auto.ceilings@, classification@),
    {
        self.auto.ceiling(classification)
    }

    /// The names of the connectors, in order.
    pub fn connectors(&self) -> (r: Vec<String>)
        ensures
            increasing(texts(r@)),
            forall|k: Seq<char>|
                self.backends@.contains_key(k) <==> #[trigger] texts(r@).contains(k),
    {
        self.backends.keys()
    }

    /// The connector that a name stands for.
    pub fn connector_backend(&self, connector: &str) -> (r: &Backend)
        requires
            self.wf(),
        ensures
            *r == backend_for(*self, connector@),
    {
        match self.backends.get(connector) {
            Some(b) => b,
            None => match self.backends.get("stub") {
                Some(b) => b,
                None => {
                    assert(false);
                    self.backends.value_at(0)
                },
            },
        }
    }

    /// The connector that provisions a service, and what it is told.
    pub fn connector_and_config(&self, resource_type: &str) -> (r: (String, Json))
        ensures
            r.0@ == connector_of(*self, resource_type@),
            r.1@ == config_for(*self, resource_type@),
    {
        match self.catalog.get(resource_type) {
            Some(m) => (m.connector().to_owned(), m.connector_config()),
            None => ("stub".to_owned(), Json::object()),
        }
    }

    /// How long a request for a service waits: not at all for one that is known
    /// to run long.
    pub fn budget_for(&self, resource_type: &str) -> (r: u64)
        ensures
            r == budget_of(*self, resource_type@),
    {
        match self.catalog.get(resource_type) {
            Some(m) => if m.long_running {
                0
            } else {
                self.wait_budget_secs
            },
            None => self.wait_budget_secs,
        }
    }
}

// ---------------------------------------------------------------------------
// Requests
// ---------------------------------------------------------------------------

/// Why a request is refused before anybody is asked: the service is unknown, the
/// spec misses a field, there is no name, the target is not allowed, or the
/// project's tier is out of the service's range. The first of these counts.
pub open spec fn request_fault(
    s: ProvisionService,
    classification: Seq<char>,
    rtype: Seq<char>,
    name: Seq<char>,
    spec: JsonView,
) -> Option<ProvisionFault> {
    let cloud = or_else(spec.text_at("cloud"@), s.default_cloud@);
    let account = or_else(spec.text_at("account"@), s.default_account@);
    if spec_fault(s.catalog@, rtype, spec) is Some {
        spec_fault(s.catalog@, rtype, spec)
    } else if blank(name) {
        Some(ProvisionFault::InvalidSpec("resource name is required"@))
    } else if !allows(s.allowed@, cloud, account) {
        Some(
            ProvisionFault::NotPermitted(
                "target "@ + cloud + "/"@ + account + " is not an allowed provisioning target"@,
            ),
        )
    } else {
        let m = s.catalog@[rtype];
        match tier_objection(m, classification, resolution(m, spec)) {
            Some(why) => Some(ProvisionFault::NotPermitted(why)),
            None => None,
        }
    }
}

/// The cloud that goes on record: the one the spec names, else the service's own,
/// else the default.
pub open spec fn recorded_cloud(s: ProvisionService, rtype: Seq<char>, spec: JsonView) -> Seq<
    char,
> {
    or_else(
        either(spec.text_at("cloud"@), config_of(s.catalog@[rtype]).text_at("cloud"@)),
        s.default_cloud@,
    )
}

/// What a request that was not refused comes to.
#[derive(Debug)]
pub struct Checked {
    pub cloud: String,
    pub account: String,
    pub resolved: Resolved,
    /// The service lets requests through without asking.
    pub auto_approvable: bool,
}

/// What a request that was not refused comes to, by its contents.
pub struct CheckedView {
    pub cloud: Seq<char>,
    pub account: Seq<char>,
    pub resolved: ResolvedView,
    pub auto_approvable: bool,
}

impl View for Checked {
    type V = CheckedView;

    open spec fn view(&self) -> CheckedView {
        CheckedView {
            cloud: self.cloud@,
            account: self.account@,
            resolved: self.resolved@,
            auto_approvable: self.auto_approvable,
        }
    }
}

/// What a request comes to where nothing speaks against it.
pub open spec fn checked(s: ProvisionService, rtype: Seq<char>, spec: JsonView) -> CheckedView {
    CheckedView {
        cloud: recorded_cloud(s, rtype, spec),
        account: or_else(spec.text_at("account"@), s.default_account@),
        resolved: resolution(s.catalog@[rtype], spec),
        auto_approvable: s.catalog@[rtype].auto_approvable,
    }
}

/// Whether a request goes through without asking: the service lets it, the
/// variant asks for no review, and what the project then commits stays within the
/// ceiling of its tier.
pub open spec fn self_service(
    s: ProvisionService,
    classification: Seq<char>,
    rtype: Seq<char>,
    spec: JsonView,
    committed: Usd,
) -> bool {
    let c = checked(s, rtype, spec);
    &&& c.auto_approvable
    &&& !c.resolved.force_review
    &&& ceiling_of(s.auto.ceilings@, classification) matches Some(ceiling) && committed.within(
        ceiling,
    )
}

/// What the policy is shown and the fulfilment reads back.
pub open spec fn request_payload(
    s: ProvisionService,
    reg: Registration,
    rtype: Seq<char>,
    name: Seq<char>,
    spec: JsonView,
    module: Option<Seq<char>>,
    committed: Usd,
) -> Map<Seq<char>, JsonView> {
    let c = checked(s, rtype, spec);
    let tier = if self_service(s, reg.classification@, rtype, spec, committed) {
        "self_service"@
    } else {
        "review"@
    };
    let base = Map::empty().insert("project_id"@, JsonView::Str(reg.project_id@)).insert(
        "resource_type"@,
        JsonView::Str(rtype),
    ).insert("name"@, JsonView::Str(name)).insert(
        "spec_json"@,
        JsonView::Str(json_text(spec)),
    ).insert("data_class"@, JsonView::Str(reg.data_class@)).insert(
        "provision_tier"@,
        JsonView::Str(tier),
    ).insert("cloud"@, JsonView::Str(c.cloud)).insert("account"@, JsonView::Str(c.account));
    let more = match module {
        Some(m) => base.insert("config_module"@, JsonView::Str(m)),
        None => base,
    };
    match spec.text_at("level"@) {
        Some(l) => more.insert("level"@, JsonView::Str(l)),
        None => more,
    }
}

/// A submitted request by its contents.
pub struct Submission {
    pub kind: Seq<char>,
    pub requester: Seq<char>,
    pub subject: Seq<char>,
    pub payload: JsonView,
    pub sla_seconds: Option<i64>,
}

/// What a new request says.
pub open spec fn submission_of(r: NewRequest) -> Submission {
    Submission {
        kind: r.kind@,
        requester: r.requester@,
        subject: r.subject@,
        payload: r.payload@,
        sla_seconds: r.sla_seconds,
    }
}

/// The request that is submitted where nothing speaks against it; a human has a
/// week to answer one that asks.
pub open spec fn submission(
    s: ProvisionService,
    reg: Registration,
    rtype: Seq<char>,
    name: Seq<char>,
    spec: JsonView,
    requester: Seq<char>,
    module: Option<Seq<char>>,
    committed: Usd,
) -> Submission {
    Submission {
        kind: "provision:"@ + rtype,
        requester,
        subject: rtype + "/"@ + name,
        payload: JsonView::Object(request_payload(s, reg, rtype, name, spec, module, committed)),
        sla_seconds: if self_service(s, reg.classification@, rtype, spec, committed) {
            None
        } else {
            Some(WEEK_SECS)
        },
    }
}

/// What follows once a request is submitted.
#[derive(Debug, Clone, Copy, PartialEq, Eq, Structural)]
pub enum AfterSubmit {
    /// The work is put on record and driven.
    Enqueue,
    /// Somebody has to decide first.
    AwaitApproval,
    /// The request rests in another state and nothing more is done.
    Settled,
}

/// What follows once a request is submitted and rests in a state.
pub fn after_submit(state: State) -> (r: AfterSubmit)
    ensures
        r == match state {
            State::Approved => AfterSubmit::Enqueue,
            State::Requested => AfterSubmit::AwaitApproval,
            _ => AfterSubmit::Settled,
        },
        r == AfterSubmit::Enqueue <==> state == State::Approved,
        r == AfterSubmit::AwaitApproval <==> state == State::Requested,
{
    match state {
        State::Approved => AfterSubmit::Enqueue,
        State::Requested => AfterSubmit::AwaitApproval,
        _ => AfterSubmit::Settled,
    }
}

impl ProvisionService {
    /// Checks a request of a project at a tier, and says what it comes to.
    pub fn check_request(
        &self,
        classification: &str,
        resource_type: &str,
        name: &str,
        spec: &Json,
    ) -> (r: Result<Checked, ProvisionError>)
        ensures
            match r {
                Ok(c) => request_fault(*self, classification@, resource_type@, name@, spec@) is None
                    && c@ == checked(*self, resource_type@, spec@)
                    && self.catalog@.contains_key(resource_type@),
                Err(e) => request_fault(*self, classification@, resource_type@, name@, spec@)
                    == Some(e@),
            },
    {
        match self.catalog.validate_spec(resource_type, spec) {
            Ok(_) => {},
            Err(e) => {
                return Err(e);
            },
        }
        let manifest = match self.catalog.get(resource_type) {
            Some(m) => m,
            None => {
                return Err(ProvisionError::Unsupported(resource_type.to_owned()));
            },
        };
        if is_blank(name) {
            return Err(ProvisionError::invalid("resource name is required"));
        }
        let account = get_str_or(spec, "account", self.default_account.as_str());
        let gate_cloud = get_str_or(spec, "cloud", self.default_cloud.as_str());
        if !is_allowed(&self.allowed, gate_cloud.as_str(), account.as_str()) {
            let mut m = "target ".to_owned();
            m.append(gate_cloud.as_str());
            m.append("/");
            m.append(account.as_str());
            m.append(" is not an allowed provisioning target");
            return Err(ProvisionError::NotPermitted(m));
        }
        let config = manifest.connector_config();
        let cloud = match spec.get_str("cloud") {
            Some(c) => c.to_owned(),
            None => get_str_or(&config, "cloud", self.default_cloud.as_str()),
        };
        let resolved = manifest.resolve(spec);
        match manifest.tier_violation(classification, &resolved) {
            Some(why) => {
                return Err(ProvisionError::NotPermitted(why));
            },
            None => {},
        }
        Ok(Checked { cloud, account, resolved, auto_approvable: manifest.auto_approvable })
    }

    /// What is submitted for a request of an active project, given what the
    /// project would then have committed; `module` is the connector's module
    /// where the request carries one of its own. The spec is carried along as
    /// text, and a plain one is read back from there as it was.
    pub fn request_inner(
        &self,
        reg: &Registration,
        resource_type: &str,
        name: &str,
        spec: &Json,
        requester: &str,
        module: Option<&str>,
        committed: Usd,
    ) -> (r: Result<NewRequest, ProvisionError>)
        ensures
            match r {
                Ok(q) => request_fault(
                    *self,
                    reg.classification@,
                    resource_type@,
                    name@,
                    spec@,
                ) is None && submission_of(q) == submission(
                    *self,
                    *reg,
                    resource_type@,
                    name@,
                    spec@,
                    requester@,
                    contents_ref(module),
                    committed,
                ) && (spec@.plain(127) ==> carried_spec(q.payload@) == spec@),
                Err(e) => request_fault(
                    *self,
                    reg.classification@,
                    resource_type@,
                    name@,
                    spec@,
                ) == Some(e@),
            },
    {
        let checked = match self.check_request(
            reg.classification.as_str(),
            resource_type,
            name,
            spec,
        ) {
            Ok(c) => c,
            Err(e) => {
                return Err(e);
            },
        };
        let within_ceiling = match self.auto.ceiling(reg.classification.as_str()) {
            Some(ceiling) => committed.is_within(&ceiling),
            None => false,
        };
        let auto_ok = checked.auto_approvable && !checked.resolved.force_review && within_ceiling;
        let tier = if auto_ok {
            "self_service"
        } else {
            "review"
        };
        let sla_seconds: Option<i64> = if auto_ok {
            None
        } else {
            Some(WEEK_SECS)
        };
        let mut payload = Json::object();
        payload.insert_str("project_id", reg.project_id.as_str());
        payload.insert_str("resource_type", resource_type);
        payload.insert_str("name", name);
        let spec_json = spec.text();
        payload.insert_str("spec_json", spec_json.as_str());
        payload.insert_str("data_class", reg.data_class.as_str());
        payload.insert_str("provision_tier", tier);
        payload.insert_str("cloud", checked.cloud.as_str());
        payload.insert_str("account", checked.account.as_str());
        match module {
            Some(m) => payload.insert_str("config_module", m),
            None => {},
        }
        match spec.get_str("level") {
            Some(l) => payload.insert_str("level", l),
            None => {},
        }
        proof {
            reveal_strlit("spec_json");
            reveal_strlit("data_class");
            reveal_strlit("provision_tier");
            reveal_strlit("cloud");
            reveal_strlit("account");
            reveal_strlit("config_module");
            reveal_strlit("level");
            assert("spec_json"@.len() == 9 && "data_class"@.len() == 10);
            assert("provision_tier"@.len() == 14 && "cloud"@.len() == 5 && "account"@.len() == 7);
            assert("config_module"@.len() == 13 && "level"@.len() == 5);
        }
        let mut kind = "provision:".to_owned();
        kind.append(resource_type);
        let mut subject = resource_type.to_owned();
        subject.append("/");
        subject.append(name);
        Ok(NewRequest { kind, requester: requester.to_owned(), subject, payload, sla_seconds })
    }

    /// What is submitted for a request of an active project.
    pub fn request(
        &self,
        reg: &Registration,
        resource_type: &str,
        name: &str,
        spec: &Json,
        requester: &str,
        committed: Usd,
    ) -> (r: Result<NewRequest, ProvisionError>)
        ensures
            match r {
                Ok(q) => request_fault(
                    *self,
                    reg.classification@,
                    resource_type@,
                    name@,
                    spec@,
                ) is None && submission_of(q) == submission(
                    *self,
                    *reg,
                    resource_type@,
                    name@,
                    spec@,
                    requester@,
                    None,
                    committed,
                ) && (spec@.plain(127) ==> carried_spec(q.payload@) == spec@),
                Err(e) => request_fault(
                    *self,
                    reg.classification@,
                    resource_type@,
                    name@,
                    spec@,
                ) == Some(e@),
            },
    {
        self.request_inner(reg, resource_type, name, spec, requester, None, committed)
    }
}

/// A request gets past the checks exactly when the service is known, the spec fills in
/// what it requires, the resource has a name, the target that the spec names, or else the
/// default one, is on the operator's list, and the tier is within the service's range.
pub proof fn law_request_is_admitted(
    s: ProvisionService,
    classification: Seq<char>,
    rtype: Seq<char>,
    name: Seq<char>,
    spec: JsonView,
)
    ensures
        ({
            let m = s.catalog@[rtype];
            let cloud = match spec.text_at("cloud"@) {
                Some(c) => c,
                None => s.default_cloud@,
            };
            let account = match spec.text_at("account"@) {
                Some(a) => a,
                None => s.default_account@,
            };
            request_fault(s, classification, rtype, name, spec) is None <==> {
                &&& s.catalog@.contains_key(rtype)
                &&& forall|i: int|
                    0 <= i < m.required_fields@.len() ==> match spec.at(
                        (#[trigger] m.required_fields@[i])@,
                    ) {
                        Some(v) => v != JsonView::Null && v != JsonView::Str(Seq::empty()),
                        None => false,
                    }
                &&& !blank(name)
                &&& exists|i: int|
                    0 <= i < s.allowed@.len() && (#[trigger] s.allowed@[i]).cloud@ == cloud
                        && s.allowed@[i].account@ == account
                &&& tier_objection(m, classification, resolution(m, spec)) is None
            }
        }),
        !s.catalog@.contains_key(rtype) ==> request_fault(s, classification, rtype, name, spec)
            == Some(ProvisionFault::Unsupported(rtype)),
{
    law_spec_fills_what_is_required(s.catalog@, rtype, spec);
}

/// A request from below the floor is not permitted: wherever nothing else speaks against
/// it, a project that stands lower on the ladder than the selected variant, or else the
/// service, asks for is refused with both tiers named.
pub proof fn law_request_below_the_floor_is_refused(
    s: ProvisionService,
    rtype: Seq<char>,
    name: Seq<char>,
    spec: JsonView,
    floor: int,
    place: int,
)
    requires
        0 <= place < floor < 4,
        s.catalog@.contains_key(rtype),
        spec_fault(s.catalog@, rtype, spec) is None,
        !blank(name),
        allows(
            s.allowed@,
            or_else(spec.text_at("cloud"@), s.default_cloud@),
            or_else(spec.text_at("account"@), s.default_account@),
        ),
        ({
            let ladder = seq![
                "poc"@,
                "light-operational"@,
                "wide-operational"@,
                "critical-path"@,
            ];
            let m = s.catalog@[rtype];
            let own = m.classification_min matches Some(c) && c@ == ladder[floor];
            match m.variants {
                None => own,
                Some(v) => match spec.text_at(v.field@) {
                    Some(k) => if v.options@.contains_key(k) {
                        match v.options@[k].classification_min {
                            Some(c) => c@ == ladder[floor],
                            None => own,
                        }
                    } else {
                        own
                    },
                    None => own,
                },
            }
        }),
    ensures
        ({
            let ladder = seq![
                "poc"@,
                "light-operational"@,
                "wide-operational"@,
                "critical-path"@,
            ];
            request_fault(s, ladder[place], rtype, name, spec) == Some(
                ProvisionFault::NotPermitted(
                    "service '"@ + s.catalog@[rtype].id@ + "' requires classification '"@
                        + ladder[floor] + "' or higher (project is '"@ + ladder[place] + "')"@,
                ),
            )
        }),
{
    let m = s.catalog@[rtype];
    law_tiers_between_floor_and_ceiling(m, resolution(m, spec), floor, 0, place);
}

/// A request goes through without asking exactly when the service lets it, no variant
/// that was selected, or not found, asks for a review, and the tier has a ceiling that
/// what the project then commits does not exceed. Then the request is marked
/// `self_service` and nobody is given time; else it is marked `review` and somebody has a
/// week of seconds.
pub proof fn law_self_service_is_marked(
    s: ProvisionService,
    reg: Registration,
    rtype: Seq<char>,
    name: Seq<char>,
    spec: JsonView,
    requester: Seq<char>,
    module: Option<Seq<char>>,
    committed: Usd,
)
    ensures
        ({
            let m = s.catalog@[rtype];
            let waved = match m.variants {
                None => true,
                Some(v) => match spec.text_at(v.field@) {
                    Some(k) => v.options@.contains_key(k) && !v.options@[k].requires_approval,
                    None => false,
                },
            };
            let alone = m.auto_approvable && waved && s.auto.ceilings@.contains_key(
                reg.classification@,
            ) && committed.within(s.auto.ceilings@[reg.classification@]);
            let sub = submission(s, reg, rtype, name, spec, requester, module, committed);
            let tier = sub.payload.text_at("provision_tier"@);
            &&& alone ==> sub.sla_seconds is None && tier == Some("self_service"@)
            &&& !alone ==> sub.sla_seconds == Some(604800i64) && tier == Some("review"@)
            &&& sub.payload.text_at("project_id"@) == Some(reg.project_id@)
            &&& sub.payload.text_at("resource_type"@) == Some(rtype)
            &&& sub.payload.text_at("name"@) == Some(name)
            &&& sub.payload.text_at("data_class"@) == Some(reg.data_class@)
            &&& sub.requester == requester
        }),
{
    reveal_strlit("project_id");
    reveal_strlit("resource_type");
    reveal_strlit("name");
    reveal_strlit("spec_json");
    reveal_strlit("data_class");
    reveal_strlit("provision_tier");
    reveal_strlit("cloud");
    reveal_strlit("account");
    reveal_strlit("config_module");
    reveal_strlit("level");
    assert("project_id"@.len() == 10 && "resource_type"@.len() == 13 && "name"@.len() == 4);
    assert("spec_json"@.len() == 9 && "data_class"@.len() == 10 && "provision_tier"@.len() == 14);
    assert("cloud"@.len() == 5 && "account"@.len() == 7 && "config_module"@.len() == 13);
    assert("level"@.len() == 5);
    assert("project_id"@[0] != "data_class"@[0] && "resource_type"@[0] != "config_module"@[0]
        && "cloud"@[0] != "level"@[0]);
}

/// A tier without a ceiling always asks, and so does a request that takes its
/// project over the ceiling, or a variant that asks for a review.
pub proof fn law_self_service_stays_in_the_envelope(
    s: ProvisionService,
    classification: Seq<char>,
    rtype: Seq<char>,
    spec: JsonView,
    committed: Usd,
)
    ensures
        ceiling_of(s.auto.ceilings@, classification) is None ==> !self_service(
            s,
            classification,
            rtype,
            spec,
            committed,
        ),
        ceiling_of(s.auto.ceilings@, classification) matches Some(c) && c.less(committed)
            ==> !self_service(s, classification, rtype, spec, committed),
        resolution(s.catalog@[rtype], spec).force_review ==> !self_service(
            s,
            classification,
            rtype,
            spec,
            committed,
        ),
{
}

/// What a project could do without asking it still can when it commits less.
pub proof fn law_committing_less_stays_self_service(
    s: ProvisionService,
    classification: Seq<char>,
    rtype: Seq<char>,
    spec: JsonView,
    committed: Usd,
    less: Usd,
)
    requires
        self_service(s, classification, rtype, spec, committed),
        less.within(committed),
    ensures
        self_service(s, classification, rtype, spec, less),
{
}

/// No request reaches a target that the operator has not allowed.
pub proof fn law_only_allowed_targets(
    s: ProvisionService,
    classification: Seq<char>,
    rtype: Seq<char>,
    name: Seq<char>,
    spec: JsonView,
)
    ensures
        !allows(
            s.allowed@,
            or_else(spec.text_at("cloud"@), s.default_cloud@),
            or_else(spec.text_at("account"@), s.default_account@),
        ) ==> request_fault(s, classification, rtype, name, spec) is Some,
{
}

/// A service is provisioned by the connector that its manifest names and told what the
/// manifest says, or by the dry-run one, told nothing, where it is gone from the catalog;
/// a connector that is not registered is stood in for by the dry-run one; and a service
/// that runs long is not waited for.
pub proof fn law_connector_of_a_service(
    s: ProvisionService,
    rtype: Seq<char>,
    connector: Seq<char>,
)
    ensures
        s.catalog@.contains_key(rtype) ==> connector_of(s, rtype)
            == s.catalog@[rtype].provisioner.connector@ && config_for(s, rtype) == config_of(
            s.catalog@[rtype],
        ),
        !s.catalog@.contains_key(rtype) ==> connector_of(s, rtype) == "stub"@ && config_for(s, rtype)
            == JsonView::Object(Map::empty()),
        s.backends@.contains_key(connector) ==> backend_for(s, connector) == s.backends@[connector],
        !s.backends@.contains_key(connector) ==> backend_for(s, connector) == s.backends@["stub"@],
        s.catalog@.contains_key(rtype) && s.catalog@[rtype].long_running ==> budget_of(s, rtype) == 0,
        !(s.catalog@.contains_key(rtype) && s.catalog@[rtype].long_running) ==> budget_of(s, rtype)
            == s.wait_budget_secs,
{
}

/// A tier has the ceiling that the operator set for it and no other; unless one is set
/// they are 500, 2500, 10000 and 25000 dollars, as the bits of these numbers.
pub proof fn law_ceilings_of_the_tiers(ceilings: Map<Seq<char>, Usd>, tier: Seq<char>)
    ensures
        ceilings.contains_key(tier) ==> ceiling_of(ceilings, tier) == Some(ceilings[tier]),
        !ceilings.contains_key(tier) ==> ceiling_of(ceilings, tier) is None,
        ceiling_of(default_ceilings(), "poc"@) == Some(Usd { bits: 0x407f_4000_0000_0000 }),
        ceiling_of(default_ceilings(), "light-operational"@) == Some(
            Usd { bits: 0x40a3_8800_0000_0000 },
        ),
        ceiling_of(default_ceilings(), "wide-operational"@) == Some(
            Usd { bits: 0x40c3_8800_0000_0000 },
        ),
        ceiling_of(default_ceilings(), "critical-path"@) == Some(
            Usd { bits: 0x40d8_6a00_0000_0000 },
        ),
        tier != "poc"@ && tier != "light-operational"@ && tier != "wide-operational"@ && tier
            != "critical-path"@ ==> ceiling_of(default_ceilings(), tier) is None,
{
    lemma_tiers_differ();
}

/// A request goes to the cloud that its spec names, or else the service's own, or else
/// the default one, and to the account that its spec names, or else the default one.
pub proof fn law_where_a_request_goes(s: ProvisionService, rtype: Seq<char>, spec: JsonView)
    ensures
        ({
            let c = checked(s, rtype, spec);
            let own = config_of(s.catalog@[rtype]).text_at("cloud"@);
            &&& spec.text_at("cloud"@) matches Some(x) ==> c.cloud == x
            &&& spec.text_at("cloud"@) is None && own is Some ==> c.cloud == own->0
            &&& spec.text_at("cloud"@) is None && own is None ==> c.cloud == s.default_cloud@
            &&& spec.text_at("account"@) matches Some(x) ==> c.account == x
            &&& spec.text_at("account"@) is None ==> c.account == s.default_account@
            &&& c.auto_approvable == s.catalog@[rtype].auto_approvable
            &&& c.resolved == resolution(s.catalog@[rtype], spec)
        }),
{
}

} // verus!
