//! From an approved request to recorded work, and from recorded work to its end:
//! what is put on record, what a worker does with a row, how a failure is retried
//! and what a caller waits for.
use vstd::prelude::*;

use crate::json::{json_read, Json, JsonView};
use crate::provision::context::{
    context_for, context_of, ctx_from_record, text_map, ContextView, ResourceContext,
};
use crate::provision::manifest::resolution;
use crate::provision::repo::{
    abandoned, active_named, active_state, failed_state, get_active_by_name, get_by_request,
    is_work_state, lemma_read_rows, read_rows, same_resource, selects, work_state,
    ProvisionedRecord, ResourceRow, SelectionView,
};
use crate::provision::service::{
    backend_for, budget_of, config_for, connector_of, get_str_or, manifest_of, or_else, ProvisionService,
    RETRY_BASE_SECS, RETRY_CAP_SECS,
};
use crate::provision::{ProvisionError, ProvisionFault};
use crate::registry::workflow::{state_name, State, WorkflowRequest};
use crate::registry::Registration;
use crate::text::{before, begins_with, contents, copy_texts, starts_with, text_eq, texts};
use crate::usd::Usd;

verus! {

// ---------------------------------------------------------------------------
// What an approved request asks for
// ---------------------------------------------------------------------------

/// What an approved request asks for, as its payload carries it.
#[derive(Debug)]
pub struct Order {
    pub resource_type: String,
    pub name: String,
    pub cloud: String,
    pub account: String,
    pub spec: Json,
}

/// What an approved request asks for, by its contents.
pub struct OrderView {
    pub resource_type: Seq<char>,
    pub name: Seq<char>,
    pub cloud: Seq<char>,
    pub account: Seq<char>,
    pub spec: JsonView,
}

impl View for Order {
    type V = OrderView;

    open spec fn view(&self) -> OrderView {
        OrderView {
            resource_type: self.resource_type@,
            name: self.name@,
            cloud: self.cloud@,
            account: self.account@,
            spec: self.spec@,
        }
    }
}

/// The spec that a payload carries as text: an empty object where there is none
/// or where it is no JSON.
pub open spec fn carried_spec(payload: JsonView) -> JsonView {
    match payload.text_at("spec_json"@) {
        Some(t) => match json_read(t) {
            Ok(j) => j,
            Err(_) => JsonView::Object(Map::empty()),
        },
        None => JsonView::Object(Map::empty()),
    }
}

/// What a payload with a resource type asks for.
pub open spec fn order_of(s: ProvisionService, payload: JsonView) -> OrderView {
    OrderView {
        resource_type: payload.text_at("resource_type"@)->0,
        name: or_else(payload.text_at("name"@), Seq::empty()),
        cloud: or_else(payload.text_at("cloud"@), s.default_cloud@),
        account: or_else(payload.text_at("account"@), s.default_account@),
        spec: carried_spec(payload),
    }
}

// ---------------------------------------------------------------------------
// Putting work on record
// ---------------------------------------------------------------------------

/// What is done about an approved request that has no record yet.
#[derive(Debug)]
pub enum ApplyPlan {
    /// The live resource of that name is applied again with the new spec.
    Update { spec: Json, est: Usd },
    /// The resource of that name already is, or is becoming, what was asked for.
    Satisfied,
    /// A new resource is put on record.
    Record(ProvisionedRecord),
}

/// The estimate of a spec of a service; `other` for a service that is gone.
pub open spec fn estimate_for(
    s: ProvisionService,
    rtype: Seq<char>,
    spec: JsonView,
    other: Usd,
) -> Usd {
    match manifest_of(s, rtype) {
        Some(m) => resolution(m, spec).estimated_monthly_usd,
        None => other,
    }
}

/// Whether an order changes a live resource in place.
pub open spec fn is_update(existing: ProvisionedRecord, spec: JsonView) -> bool {
    existing.state@ == "provisioned"@ && !existing.spec@.alike(spec)
}

/// The record of new work for an order.
pub open spec fn fresh_record(
    s: ProvisionService,
    reg: Registration,
    order: OrderView,
    request_id: Seq<char>,
    id: Seq<char>,
    now: Seq<char>,
    rec: ProvisionedRecord,
) -> bool {
    let backend = backend_for(s, connector_of(s, order.resource_type));
    &&& rec.id@ == id
    &&& rec.project_id@ == reg.project_id@
    &&& rec.rtype@ == order.resource_type
    &&& rec.name@ == order.name
    &&& rec.spec@ == order.spec
    &&& rec.outputs@ == JsonView::Object(Map::empty())
    &&& text_map(rec.tags@) == context_for(reg, order.cloud, order.account).tag_map()
    &&& rec.est_monthly_usd == estimate_for(s, order.resource_type, order.spec, Usd { bits: 0 })
    &&& rec.state@ == "provisioning"@
    &&& rec.backend@ == backend.name@
    &&& rec.dry_run == backend.dry_run
    &&& contents(rec.request_id) == Some(request_id)
    &&& rec.created_at@ == now
    &&& rec.updated_at@ == now
    &&& rec.error@.len() == 0
    &&& rec.attempts == 0
    &&& rec.next_retry_at is None
}

impl ProvisionService {
    /// What the payload of an approved request asks for.
    pub fn read_order(&self, payload: &Json) -> (r: Result<Order, ProvisionError>)
        ensures
            match r {
                Ok(o) => payload@.text_at("resource_type"@) is Some && o@ == order_of(
                    *self,
                    payload@,
                ),
                Err(e) => payload@.text_at("resource_type"@) is None && e@
                    == ProvisionFault::InvalidSpec("request has no resource_type"@),
            },
    {
        let resource_type = match payload.get_str("resource_type") {
            Some(t) => t.to_owned(),
            None => {
                return Err(ProvisionError::invalid("request has no resource_type"));
            },
        };
        let spec = match payload.get_str("spec_json") {
            Some(t) => match Json::parse(t) {
                Ok(j) => j,
                Err(_) => Json::object(),
            },
            None => Json::object(),
        };
        Ok(
            Order {
                resource_type,
                name: payload.get_str_or_empty("name"),
                cloud: get_str_or(payload, "cloud", self.default_cloud.as_str()),
                account: get_str_or(payload, "account", self.default_account.as_str()),
                spec,
            },
        )
    }

    /// What is done about an order of an active project, given the resource of
    /// that name that is in flight or live.
    pub fn enqueue_apply(
        &self,
        reg: &Registration,
        order: Order,
        existing: Option<&ProvisionedRecord>,
        request_id: &str,
        id: &str,
        now: &str,
    ) -> (r: ApplyPlan)
        requires
            self.wf(),
        ensures
            match existing {
                Some(x) => if is_update(*x, order@.spec) {
                    r matches ApplyPlan::Update { spec, est } && spec@ == order@.spec && est
                        == estimate_for(
                        *self,
                        order@.resource_type,
                        order@.spec,
                        x.est_monthly_usd,
                    )
                } else {
                    r is Satisfied
                },
                None => r matches ApplyPlan::Record(rec) && fresh_record(
                    *self,
                    *reg,
                    order@,
                    request_id@,
                    id@,
                    now@,
                    rec,
                ),
            },
    {
        match existing {
            Some(x) => {
                if text_eq(x.state.as_str(), "provisioned") && !x.spec.same(&order.spec) {
                    let est = match self.catalog.get(order.resource_type.as_str()) {
                        Some(m) => m.resolve(&order.spec).estimated_monthly_usd,
                        None => x.est_monthly_usd,
                    };
                    return ApplyPlan::Update { spec: order.spec, est };
                }
                return ApplyPlan::Satisfied;
            },
            None => {},
        }
        let (connector, _) = self.connector_and_config(order.resource_type.as_str());
        let backend = self.connector_backend(connector.as_str());
        let est = match self.catalog.get(order.resource_type.as_str()) {
            Some(m) => m.resolve(&order.spec).estimated_monthly_usd,
            None => Usd { bits: 0 },
        };
        let ctx = ResourceContext::from_registration(
            reg,
            order.cloud.as_str(),
            order.account.as_str(),
        );
        let rec = ProvisionedRecord {
            id: id.to_owned(),
            project_id: reg.project_id.clone(),
            rtype: order.resource_type,
            name: order.name,
            spec: order.spec,
            outputs: Json::object(),
            tags: ctx.tags(),
            est_monthly_usd: est,
            state: "provisioning".to_owned(),
            backend: backend.name.clone(),
            dry_run: backend.dry_run,
            request_id: Some(request_id.to_owned()),
            created_at: now.to_owned(),
            updated_at: now.to_owned(),
            error: String::new(),
            attempts: 0,
            next_retry_at: None,
        };
        ApplyPlan::Record(rec)
    }
}

/// Where the work of a request stands once it is on record.
#[derive(Debug, Clone, Copy, PartialEq, Eq, Structural)]
pub struct Enqueued {
    /// The place of its row.
    pub place: usize,
    /// The row was there already and the request asks for nothing else: it is as
    /// good as fulfilled.
    pub satisfied: bool,
    /// The row was there already and is armed for what the request asks for.
    pub armed: bool,
}

/// A live row that was armed for another spec under another request.
pub open spec fn rearmed(
    a: ResourceRow,
    b: ResourceRow,
    spec: JsonView,
    est: Usd,
    request_id: Seq<char>,
    now: Seq<char>,
) -> bool {
    &&& same_resource(a.rec, b.rec)
    &&& b.worker_owner is None
    &&& b.rec.state@ == "provisioning"@
    &&& b.rec.spec@ == spec
    &&& b.rec.outputs == a.rec.outputs
    &&& b.rec.est_monthly_usd == est
    &&& contents(b.rec.request_id) == Some(request_id)
    &&& b.rec.updated_at@ == now
    &&& b.rec.error@.len() == 0
    &&& b.rec.attempts == 0
    &&& b.rec.next_retry_at is None
}

/// The rows of an active project after an approved request was put on record. A
/// request that has a row keeps it; one for a live resource with another spec arms
/// that resource again; one for a resource that is as asked for, or in flight, adds
/// nothing; any other gets a row of its own.
pub open spec fn enqueued(
    s: ProvisionService,
    before: Seq<ResourceRow>,
    after: Seq<ResourceRow>,
    reg: Registration,
    req: WorkflowRequest,
    id: Seq<char>,
    now: Seq<char>,
    r: Result<Enqueued, ProvisionError>,
) -> bool {
    let own = read_rows(before, SelectionView::OfRequest { request_id: req.id@ }, false);
    let order = order_of(s, req.payload@);
    let named = read_rows(
        before,
        SelectionView::ActiveNamed {
            project_id: reg.project_id@,
            rtype: order.resource_type,
            name: order.name,
        },
        true,
    );
    if own.len() > 0 {
        &&& after == before
        &&& r matches Ok(e) && e.place == own[0] && !e.satisfied && !e.armed
    } else if req.payload@.text_at("resource_type"@) is None {
        &&& after == before
        &&& r matches Err(e) && e@ == ProvisionFault::InvalidSpec("request has no resource_type"@)
    } else if named.len() > 0 {
        let k = named[0];
        let x = before[k].rec;
        if is_update(x, order.spec) {
            &&& r matches Ok(e) && e.place == k && !e.satisfied && e.armed
            &&& after == before.update(k, after[k])
            &&& rearmed(
                before[k],
                after[k],
                order.spec,
                estimate_for(s, order.resource_type, order.spec, x.est_monthly_usd),
                req.id@,
                now,
            )
        } else {
            &&& after == before
            &&& r matches Ok(e) && e.place == k && e.satisfied && !e.armed
        }
    } else {
        &&& r matches Ok(e) && e.place == before.len() && !e.satisfied && !e.armed
        &&& after == before.push(after.last())
        &&& after.last().worker_owner is None
        &&& fresh_record(s, reg, order, req.id@, id, now, after.last().rec)
    }
}

impl ProvisionService {
    /// Puts an approved request of an active project on record, among the rows of
    /// all resources.
    pub fn enqueue(
        &self,
        rows: &mut Vec<ResourceRow>,
        reg: &Registration,
        req: &WorkflowRequest,
        id: &str,
        now: &str,
    ) -> (r: Result<Enqueued, ProvisionError>)
        requires
            self.wf(),
        ensures
            enqueued(*self, old(rows)@, final(rows)@, *reg, *req, id@, now@, r),
            r matches Ok(e) ==> e.place < final(rows)@.len(),
    {
        let ghost was = rows@;
        match get_by_request(rows, req.id.as_str()) {
            Some(place) => {
                return Ok(Enqueued { place, satisfied: false, armed: false });
            },
            None => {},
        }
        let order = match self.read_order(&req.payload) {
            Ok(o) => o,
            Err(e) => {
                return Err(e);
            },
        };
        let found = get_active_by_name(
            rows,
            reg.project_id.as_str(),
            order.resource_type.as_str(),
            order.name.as_str(),
        );
        match found {
            Some(place) => {
                let plan = self.enqueue_apply(
                    reg,
                    order,
                    Some(&rows[place].rec),
                    req.id.as_str(),
                    id,
                    now,
                );
                match plan {
                    ApplyPlan::Update { spec, est } => {
                        rows[place].update_for_reapply(spec, est, req.id.as_str(), now);
                        assert(rows@ =~= was.update(place as int, rows@[place as int]));
                        Ok(Enqueued { place, satisfied: false, armed: true })
                    },
                    _ => Ok(Enqueued { place, satisfied: true, armed: false }),
                }
            },
            None => {
                let place: usize = rows.len();
                let plan = self.enqueue_apply(reg, order, None, req.id.as_str(), id, now);
                match plan {
                    ApplyPlan::Record(rec) => {
                        rows.push(ResourceRow { rec, worker_owner: None });
                        assert(rows@ =~= was.push(rows@.last()));
                        Ok(Enqueued { place, satisfied: false, armed: false })
                    },
                    _ => {
                        assert(false);
                        Ok(Enqueued { place, satisfied: false, armed: false })
                    },
                }
            },
        }
    }
}

/// Two rows that stand for one resource: both are active and carry one name.
pub open spec fn clash(a: ResourceRow, b: ResourceRow) -> bool {
    active_state(a.rec.state@) && active_named(b, a.rec.project_id@, a.rec.rtype@, a.rec.name@)
}

/// Rows of which no two stand for one resource.
pub open spec fn one_per_name(rows: Seq<ResourceRow>) -> bool {
    forall|i: int, j: int|
        0 <= i < j < rows.len() ==> !clash(#[trigger] rows[i], #[trigger] rows[j])
}

/// Putting requests on record never makes a second resource of a name.
pub proof fn law_one_resource_per_name(
    s: ProvisionService,
    before: Seq<ResourceRow>,
    after: Seq<ResourceRow>,
    reg: Registration,
    req: WorkflowRequest,
    id: Seq<char>,
    now: Seq<char>,
    r: Result<Enqueued, ProvisionError>,
)
    requires
        enqueued(s, before, after, reg, req, id, now, r),
        one_per_name(before),
    ensures
        one_per_name(after),
{
    let order = order_of(s, req.payload@);
    let sel = SelectionView::ActiveNamed {
        project_id: reg.project_id@,
        rtype: order.resource_type,
        name: order.name,
    };
    let named = read_rows(before, sel, true);
    lemma_read_rows(before, sel, true);
    if named.len() > 0 {
        assert(named.contains(named[0]));
    }
    if after != before {
        assert forall|i: int, j: int| 0 <= i < j < after.len() implies !clash(
            #[trigger] after[i],
            #[trigger] after[j],
        ) by {
            if named.len() > 0 {
                let k = named[0];
                assert(clash(before[i], before[j]) || !clash(after[i], after[j])) by {
                    if i != k {
                        assert(after[i] == before[i]);
                    }
                    if j != k {
                        assert(after[j] == before[j]);
                    }
                }
            } else if j == before.len() {
                assert(after[i] == before[i]);
                if clash(before[i], after[j]) {
                    assert(selects(sel, before[i]));
                    assert(named.contains(i));
                }
            } else {
                assert(after[i] == before[i] && after[j] == before[j]);
            }
        }
    }
}

/// A request that is put on record a second time keeps its row and changes
/// nothing.
pub proof fn law_enqueueing_is_idempotent(
    s: ProvisionService,
    rows: Seq<ResourceRow>,
    after: Seq<ResourceRow>,
    reg: Registration,
    req: WorkflowRequest,
    id: Seq<char>,
    now: Seq<char>,
    r: Result<Enqueued, ProvisionError>,
    k: int,
)
    requires
        0 <= k < rows.len(),
        contents(rows[k].rec.request_id) == Some(req.id@),
        enqueued(s, rows, after, reg, req, id, now, r),
    ensures
        after == rows,
        r matches Ok(e) && !e.satisfied,
{
    let sel = SelectionView::OfRequest { request_id: req.id@ };
    lemma_read_rows(rows, sel, false);
    assert(selects(sel, rows[k]));
    assert(read_rows(rows, sel, false).contains(k));
}

// ---------------------------------------------------------------------------
// Fulfilment of approved requests
// ---------------------------------------------------------------------------

/// What a fulfilment does next.
#[derive(Debug)]
pub enum FulfillStep {
    /// The request is done already; its record is handed out.
    Done,
    /// The work of this project is put on record and driven, and waited for that
    /// long.
    Enqueue { project_id: String, wait_secs: u64 },
}

/// Why a request is not fulfilled: it is not approved, or it names no project.
pub open spec fn fulfill_fault(req: WorkflowRequest, has_record: bool) -> Option<ProvisionFault> {
    if req.state == State::Fulfilled && has_record {
        None
    } else if req.state != State::Approved {
        Some(
            ProvisionFault::NotPermitted(
                "request is "@ + state_name(req.state) + ", must be approved before provisioning"@,
            ),
        )
    } else if req.payload@.text_at("project_id"@) is None {
        Some(ProvisionFault::InvalidSpec("request has no project_id"@))
    } else {
        None
    }
}

impl ProvisionService {
    /// What the fulfilment of a request does next, given whether it has a record
    /// already.
    pub fn fulfill(&self, req: &WorkflowRequest, has_record: bool) -> (r: Result<
        FulfillStep,
        ProvisionError,
    >)
        ensures
            match r {
                Ok(step) => fulfill_fault(*req, has_record) is None && match step {
                    FulfillStep::Done => req.state == State::Fulfilled && has_record,
                    FulfillStep::Enqueue { project_id, wait_secs } => req.state == State::Approved
                        && req.payload@.text_at("project_id"@) == Some(project_id@) && wait_secs
                        == budget_of(*self, req.payload@.text_or_empty("resource_type"@)),
                },
                Err(e) => fulfill_fault(*req, has_record) == Some(e@),
            },
            req.state == State::Fulfilled && has_record ==> r is Ok && r->Ok_0 is Done,
            req.state == State::Approved && req.payload@.text_at("project_id"@) is Some ==> r is Ok
                && r->Ok_0 is Enqueue,
            req.state != State::Approved && !(req.state == State::Fulfilled && has_record)
                ==> r is Err,
    {
        if req.state == State::Fulfilled && has_record {
            return Ok(FulfillStep::Done);
        }
        if req.state != State::Approved {
            let mut m = "request is ".to_owned();
            m.append(req.state.as_str());
            m.append(", must be approved before provisioning");
            return Err(ProvisionError::NotPermitted(m));
        }
        match req.payload.get_str("project_id") {
            Some(p) => {
                let resource_type = req.payload.get_str_or_empty("resource_type");
                Ok(
                    FulfillStep::Enqueue {
                        project_id: p.to_owned(),
                        wait_secs: self.budget_for(resource_type.as_str()),
                    },
                )
            },
            None => Err(ProvisionError::invalid("request has no project_id")),
        }
    }
}

/// Fulfilling a request a second time hands out its record and does no work.
pub proof fn law_fulfilment_is_idempotent(req: WorkflowRequest)
    requires
        req.state == State::Fulfilled,
    ensures
        fulfill_fault(req, true) is None,
{
}

/// The project of an approved request that the reconciler puts on record: a
/// provisioning request without a record that names a project.
pub open spec fn unrecorded(
    kind: Seq<char>,
    payload: JsonView,
    has_record: bool,
) -> Option<Seq<char>> {
    if begins_with(kind, "provision:"@) && !has_record {
        payload.text_at("project_id"@)
    } else {
        None
    }
}

/// The project of an approved request that the reconciler puts on record.
pub fn unrecorded_project(req: &WorkflowRequest, has_record: bool) -> (r: Option<String>)
    ensures
        contents(r) == unrecorded(req.kind@, req.payload@, has_record),
{
    if !starts_with(req.kind.as_str(), "provision:") || has_record {
        return None;
    }
    match req.payload.get_str("project_id") {
        Some(p) => Some(p.to_owned()),
        None => None,
    }
}

// ---------------------------------------------------------------------------
// What a connector is handed
// ---------------------------------------------------------------------------

/// A resource as its connector is asked for it.
#[derive(Debug)]
pub struct ProvisionRequest {
    pub resource_type: String,
    pub name: String,
    pub ctx: ResourceContext,
    pub spec: Json,
    pub config: Json,
    pub estimated_monthly_usd: Usd,
    /// Outputs whose values are secrets.
    pub secret_outputs: Vec<String>,
    /// The record that the run acts on, if any.
    pub resource_id: Option<String>,
}

/// A resource as its connector is asked for it, by its contents.
pub struct RequestView {
    pub resource_type: Seq<char>,
    pub name: Seq<char>,
    pub ctx: ContextView,
    pub spec: JsonView,
    pub config: JsonView,
    pub estimated_monthly_usd: Usd,
    pub secret_outputs: Seq<Seq<char>>,
    pub resource_id: Option<Seq<char>>,
}

impl View for ProvisionRequest {
    type V = RequestView;

    open spec fn view(&self) -> RequestView {
        RequestView {
            resource_type: self.resource_type@,
            name: self.name@,
            ctx: self.ctx@,
            spec: self.spec@,
            config: self.config@,
            estimated_monthly_usd: self.estimated_monthly_usd,
            secret_outputs: texts(self.secret_outputs@),
            resource_id: contents(self.resource_id),
        }
    }
}

/// What the connector of a recorded resource is asked for.
pub open spec fn request_for(
    rec: ProvisionedRecord,
    config: JsonView,
    secret_outputs: Seq<Seq<char>>,
) -> RequestView {
    RequestView {
        resource_type: rec.rtype@,
        name: rec.name@,
        ctx: context_of(rec.project_id@, text_map(rec.tags@)),
        spec: rec.spec@,
        config,
        estimated_monthly_usd: rec.est_monthly_usd,
        secret_outputs,
        resource_id: Some(rec.id@),
    }
}

/// A configuration with the module of a request put in place of its own.
pub open spec fn with_module(config: JsonView, module: Option<Seq<char>>) -> JsonView {
    match (config, module) {
        (JsonView::Object(m), Some(t)) => JsonView::Object(m.insert("module"@, JsonView::Str(t))),
        (c, _) => c,
    }
}

/// The secret outputs of a service, none for one that is gone.
pub open spec fn secrets_of(s: ProvisionService, rtype: Seq<char>) -> Seq<Seq<char>> {
    match manifest_of(s, rtype) {
        Some(m) => texts(m.secret_outputs@),
        None => Seq::empty(),
    }
}

fn build_request(rec: &ProvisionedRecord, config: Json, secret_outputs: Vec<String>) -> (r:
    ProvisionRequest)
    ensures
        r@ == request_for(*rec, config@, texts(secret_outputs@)),
{
    ProvisionRequest {
        resource_type: rec.rtype.clone(),
        name: rec.name.clone(),
        ctx: ctx_from_record(rec.project_id.as_str(), &rec.tags),
        spec: rec.spec.copy(),
        config,
        estimated_monthly_usd: rec.est_monthly_usd,
        secret_outputs,
        resource_id: Some(rec.id.clone()),
    }
}

impl ProvisionService {
    /// The connector of a recorded resource, and what it is asked for when the
    /// resource is stopped, resumed or torn down.
    pub fn backend_and_req(&self, rec: &ProvisionedRecord) -> (r: (String, ProvisionRequest))
        ensures
            r.0@ == connector_of(*self, rec.rtype@),
            r.1@ == request_for(*rec, config_for(*self, rec.rtype@), Seq::empty()),
    {
        let (connector, config) = self.connector_and_config(rec.rtype.as_str());
        let none: Vec<String> = Vec::new();
        assert(texts(none@) =~= Seq::empty());
        (connector, build_request(rec, config, none))
    }

    /// What the connector of a recorded resource is asked for when the resource is
    /// brought up, given the payload of the request behind it, if that is at hand,
    /// and whether the connector can provide such a service.
    pub fn run_apply(
        &self,
        rec: &ProvisionedRecord,
        payload: Option<&Json>,
        supported: bool,
    ) -> (r: Result<ProvisionRequest, ProvisionError>)
        ensures
            match r {
                Ok(q) => supported && q@ == request_for(
                    *rec,
                    with_module(
                        config_for(*self, rec.rtype@),
                        match payload {
                            Some(p) => p@.text_at("config_module"@),
                            None => None,
                        },
                    ),
                    secrets_of(*self, rec.rtype@),
                ),
                Err(e) => !supported && e@ == ProvisionFault::Unsupported(
                    "connector '"@ + connector_of(*self, rec.rtype@) + "' does not support '"@
                        + rec.rtype@ + "'"@,
                ),
            },
    {
        let (connector, mut config) = self.connector_and_config(rec.rtype.as_str());
        match payload {
            Some(p) => match p.get_str("config_module") {
                Some(m) => {
                    config.insert_str("module", m);
                },
                None => {},
            },
            None => {},
        }
        if !supported {
            let mut m = "connector '".to_owned();
            m.append(connector.as_str());
            m.append("' does not support '");
            m.append(rec.rtype.as_str());
            m.append("'");
            return Err(ProvisionError::Unsupported(m));
        }
        let secret_outputs = match self.catalog.get(rec.rtype.as_str()) {
            Some(m) => copy_texts(&m.secret_outputs),
            None => {
                let none: Vec<String> = Vec::new();
                assert(texts(none@) =~= Seq::empty());
                none
            },
        };
        Ok(build_request(rec, config, secret_outputs))
    }
}

// ---------------------------------------------------------------------------
// Driving a row to its end
// ---------------------------------------------------------------------------

/// What a row needs done.
#[derive(Debug, Clone, Copy, PartialEq, Eq, Structural)]
pub enum Action {
    Apply,
    Destroy,
}

/// What a row in a state needs done, if anything.
pub open spec fn action_of(state: Seq<char>) -> Option<Action> {
    if state == "provisioning"@ || state == "failed"@ {
        Some(Action::Apply)
    } else if state == "destroying"@ || state == "destroy_failed"@ {
        Some(Action::Destroy)
    } else {
        None
    }
}

/// The state in which an action ends, well or badly.
pub open spec fn end_state(a: Action, ok: bool) -> Seq<char> {
    match (a, ok) {
        (Action::Apply, true) => "provisioned"@,
        (Action::Apply, false) => "failed"@,
        (Action::Destroy, true) => "destroyed"@,
        (Action::Destroy, false) => "destroy_failed"@,
    }
}

/// What a row in a state needs done, if anything.
pub fn drive_action(state: &str) -> (r: Option<Action>)
    ensures
        r == action_of(state@),
{
    if text_eq(state, "provisioning") || text_eq(state, "failed") {
        Some(Action::Apply)
    } else if text_eq(state, "destroying") || text_eq(state, "destroy_failed") {
        Some(Action::Destroy)
    } else {
        None
    }
}

fn end_of(a: Action, ok: bool) -> (r: &'static str)
    ensures
        r@ == end_state(a, ok),
{
    match a {
        Action::Apply => if ok {
            "provisioned"
        } else {
            "failed"
        },
        Action::Destroy => if ok {
            "destroyed"
        } else {
            "destroy_failed"
        },
    }
}

/// How often and how fast failed work is tried again.
#[derive(Debug, Clone, Copy, PartialEq, Eq, Structural)]
pub struct RetryPolicy {
    pub max_attempts: u32,
    pub base_secs: u64,
    pub cap_secs: u64,
}

/// The retry policy of a service: its own where it says, the deployment's where
/// it does not.
pub open spec fn retry_policy(s: ProvisionService, rtype: Seq<char>) -> RetryPolicy {
    let own = match manifest_of(s, rtype) {
        Some(m) => m.retry,
        None => None,
    };
    RetryPolicy {
        max_attempts: match own {
            Some(c) => match c.max_attempts {
                Some(n) => n,
                None => s.max_retries,
            },
            None => s.max_retries,
        },
        base_secs: match own {
            Some(c) => match c.base_secs {
                Some(n) => n,
                None => RETRY_BASE_SECS,
            },
            None => RETRY_BASE_SECS,
        },
        cap_secs: match own {
            Some(c) => match c.cap_secs {
                Some(n) => n,
                None => RETRY_CAP_SECS,
            },
            None => RETRY_CAP_SECS,
        },
    }
}

impl ProvisionService {
    /// The retry policy of a service.
    pub fn retry_policy_for(&self, rtype: &str) -> (r: RetryPolicy)
        ensures
            r == retry_policy(*self, rtype@),
    {
        let mut p = RetryPolicy {
            max_attempts: self.max_retries,
            base_secs: RETRY_BASE_SECS,
            cap_secs: RETRY_CAP_SECS,
        };
        match self.catalog.get(rtype) {
            Some(m) => match &m.retry {
                Some(c) => {
                    match c.max_attempts {
                        Some(n) => {
                            p.max_attempts = n;
                        },
                        None => {},
                    }
                    match c.base_secs {
                        Some(n) => {
                            p.base_secs = n;
                        },
                        None => {},
                    }
                    match c.cap_secs {
                        Some(n) => {
                            p.cap_secs = n;
                        },
                        None => {},
                    }
                },
                None => {},
            },
            None => {},
        }
        p
    }
}

/// Two to the power of `n`.
pub open spec fn doubled(n: nat) -> nat
    decreases n,
{
    if n == 0 {
        1
    } else {
        2 * doubled((n - 1) as nat)
    }
}

/// The doublings of the wait before a retry: one less than the attempts so far,
/// and at most sixteen.
pub open spec fn doublings(attempts: int) -> nat {
    if attempts <= 1 {
        0
    } else if attempts >= 17 {
        16
    } else {
        (attempts - 1) as nat
    }
}

/// The wait in seconds after that many failed attempts: the base, doubled with
/// each attempt, and never more than the cap.
pub open spec fn backoff(attempts: int, p: RetryPolicy) -> int {
    let wait = p.base_secs * doubled(doublings(attempts));
    if wait < p.cap_secs {
        wait
    } else {
        p.cap_secs as int
    }
}

proof fn lemma_doubled(n: nat)
    ensures
        1 <= doubled(n),
        n <= 16 ==> doubled(n) <= 65536,
    decreases n,
{
    reveal_with_fuel(doubled, 18);
    if n > 16 {
        lemma_doubled((n - 1) as nat);
    }
}

/// The wait in seconds after that many failed attempts; the longest that the result
/// can tell where it is longer.
pub fn backoff_secs(attempts: i64, policy: &RetryPolicy) -> (r: i64)
    ensures
        r == if backoff(attempts as int, *policy) <= i64::MAX {
            backoff(attempts as int, *policy)
        } else {
            i64::MAX as int
        },
{
    let n: u64 = if attempts <= 1 {
        0
    } else if attempts >= 17 {
        16
    } else {
        (attempts - 1) as u64
    };
    let mut factor: u64 = 1;
    let mut i: u64 = 0;
    while i < n
        invariant
            i <= n <= 16,
            factor == doubled(i as nat),
        decreases n - i,
    {
        proof {
            lemma_doubled((i + 1) as nat);
        }
        factor = factor * 2;
        i = i + 1;
    }
    proof {
        lemma_doubled(n as nat);
    }
    assert(policy.base_secs * factor <= u64::MAX * 65536) by (nonlinear_arith)
        requires
            policy.base_secs <= u64::MAX,
            factor <= 65536,
    ;
    let wait: u128 = (policy.base_secs as u128) * (factor as u128);
    assert(wait == policy.base_secs * doubled(n as nat)) by (nonlinear_arith)
        requires
            wait == policy.base_secs * factor,
            factor == doubled(n as nat),
    ;
    let secs: u64 = if wait < policy.cap_secs as u128 {
        wait as u64
    } else {
        policy.cap_secs
    };
    if secs <= i64::MAX as u64 {
        secs as i64
    } else {
        i64::MAX
    }
}

/// Whether failed work is tried again by itself: the attempts so far are fewer than
/// the policy allows.
pub open spec fn tries_again(attempts: i64, p: RetryPolicy) -> bool {
    attempts < p.max_attempts
}

/// Whether failed work is tried again by itself.
pub fn retries(attempts: i64, policy: &RetryPolicy) -> (r: bool)
    ensures
        r == tries_again(attempts, *policy),
{
    attempts < policy.max_attempts as i64
}

/// Ends the work on a row: with its outputs where it went well; else with the
/// failure on record, and the next attempt at `retry_at` as long as the policy
/// grants one.
pub fn settle(
    row: &mut ResourceRow,
    action: Action,
    result: Result<Json, ProvisionError>,
    policy: &RetryPolicy,
    retry_at: &str,
    now: &str,
)
    requires
        old(row).rec.attempts < i64::MAX,
    ensures
        final(row).worker_owner is None,
        final(row).rec.state@ == end_state(action, result is Ok),
        final(row).rec.updated_at@ == now@,
        same_resource(old(row).rec, final(row).rec),
        final(row).rec.spec == old(row).rec.spec,
        final(row).rec.est_monthly_usd == old(row).rec.est_monthly_usd,
        final(row).rec.request_id == old(row).rec.request_id,
        match result {
            Ok(outputs) => {
                &&& final(row).rec.outputs == outputs
                &&& final(row).rec.error@.len() == 0
                &&& final(row).rec.attempts == 0
                &&& final(row).rec.next_retry_at is None
            },
            Err(e) => {
                &&& final(row).rec.outputs == old(row).rec.outputs
                &&& final(row).rec.error@ == e@.line()
                &&& final(row).rec.attempts == old(row).rec.attempts + 1
                &&& contents(final(row).rec.next_retry_at) == if tries_again(
                    final(row).rec.attempts,
                    *policy,
                ) {
                    Some(retry_at@)
                } else {
                    None
                }
            },
        },
        action == Action::Apply && result is Ok ==> final(row).rec.state@ == "provisioned"@,
        action == Action::Apply && result is Err ==> final(row).rec.state@ == "failed"@,
        action == Action::Destroy && result is Ok ==> final(row).rec.state@ == "destroyed"@,
        action == Action::Destroy && result is Err ==> final(row).rec.state@ == "destroy_failed"@,
        result is Err ==> (final(row).rec.next_retry_at is Some <==> old(row).rec.attempts + 1
            < policy.max_attempts),
{
    match result {
        Ok(outputs) => row.finish(end_of(action, true), outputs, now),
        Err(e) => {
            let attempts: i64 = row.rec.attempts + 1;
            let next: Option<String> = if retries(attempts, policy) {
                Some(retry_at.to_owned())
            } else {
                None
            };
            let m = e.message();
            row.mark_failed(end_of(action, false), m.as_str(), attempts, next, now)
        },
    }
}

/// Work that failed comes back to the same action, and work that ended well is
/// never driven again.
pub proof fn law_failed_work_is_driven_again(a: Action)
    ensures
        action_of(end_state(a, false)) == Some(a),
        action_of(end_state(a, true)) is None,
        !work_state(end_state(a, true)),
{
    reveal_strlit("provisioning");
    reveal_strlit("provisioned");
    reveal_strlit("failed");
    reveal_strlit("destroying");
    reveal_strlit("destroyed");
    reveal_strlit("destroy_failed");
    assert("provisioning"@.len() == 12 && "provisioned"@.len() == 11);
    assert("failed"@.len() == 6 && "destroying"@.len() == 10 && "destroyed"@.len() == 9);
    assert("destroy_failed"@.len() == 14);
}

/// The wait before a retry never passes the cap, and never shrinks as attempts
/// mount up.
pub proof fn law_backoff_grows_to_the_cap(attempts: int, p: RetryPolicy)
    ensures
        0 <= backoff(attempts, p) <= p.cap_secs,
        backoff(attempts, p) <= backoff(attempts + 1, p),
{
    let n = doublings(attempts);
    let m = doublings(attempts + 1);
    lemma_doubled(n);
    lemma_doubled(m);
    assert(doubled(n) <= doubled(m)) by {
        if m > n {
            assert(m == n + 1);
            assert(doubled(m) == 2 * doubled(n));
        }
    }
    assert(p.base_secs * doubled(n) <= p.base_secs * doubled(m)) by (nonlinear_arith)
        requires
            0 <= p.base_secs,
            doubled(n) <= doubled(m),
    ;
    assert(0 <= p.base_secs * doubled(n)) by (nonlinear_arith)
        requires
            0 <= p.base_secs,
            0 <= doubled(n),
    ;
}

/// A policy without attempts never retries; any other stops once its attempts
/// are used up.
pub proof fn law_retries_end(attempts: i64, p: RetryPolicy)
    requires
        p.max_attempts <= attempts,
    ensures
        !tries_again(attempts, p),
{
}

// ---------------------------------------------------------------------------
// What a caller sets going
// ---------------------------------------------------------------------------

proof fn lemma_states_differ()
    ensures
        "provisioning"@ != "provisioned"@,
        "provisioning"@ != "failed"@,
        "provisioning"@ != "destroying"@,
        "provisioning"@ != "destroyed"@,
        "provisioning"@ != "destroy_failed"@,
        "provisioning"@ != "linked"@,
        "provisioning"@ != "suspended"@,
        "provisioned"@ != "failed"@,
        "provisioned"@ != "destroying"@,
        "provisioned"@ != "destroyed"@,
        "provisioned"@ != "destroy_failed"@,
        "provisioned"@ != "linked"@,
        "provisioned"@ != "suspended"@,
        "failed"@ != "destroying"@,
        "failed"@ != "destroyed"@,
        "failed"@ != "destroy_failed"@,
        "failed"@ != "linked"@,
        "failed"@ != "suspended"@,
        "destroying"@ != "destroyed"@,
        "destroying"@ != "destroy_failed"@,
        "destroying"@ != "linked"@,
        "destroying"@ != "suspended"@,
        "destroyed"@ != "destroy_failed"@,
        "destroyed"@ != "linked"@,
        "destroyed"@ != "suspended"@,
        "destroy_failed"@ != "linked"@,
        "destroy_failed"@ != "suspended"@,
        "linked"@ != "suspended"@,
{
    reveal_strlit("provisioning");
    reveal_strlit("provisioned");
    reveal_strlit("failed");
    reveal_strlit("destroying");
    reveal_strlit("destroyed");
    reveal_strlit("destroy_failed");
    reveal_strlit("linked");
    reveal_strlit("suspended");
    assert("provisioning"@.len() == 12);
    assert("provisioned"@.len() == 11);
    assert("failed"@.len() == 6);
    assert("destroying"@.len() == 10);
    assert("destroyed"@.len() == 9);
    assert("destroy_failed"@.len() == 14);
    assert("linked"@.len() == 6);
    assert("suspended"@.len() == 9);
    assert("failed"@[0] != "linked"@[0]);
    assert("destroyed"@[0] != "suspended"@[0]);
}

/// Whether a caller that waits for a row is done: the row is no longer work, or
/// the wait is used up.
pub fn wait_is_over(state: &str, out_of_time: bool) -> (r: bool)
    ensures
        r == (!work_state(state@) || out_of_time),
        !r <==> (state@ == "provisioning"@ || state@ == "destroying"@) && !out_of_time,
{
    !is_work_state(state) || out_of_time
}

impl ProvisionService {
    /// Tears a resource down: marks the work, and says how long to wait for it where
    /// there is a connector to drive. A resource that is gone or going stays as it is; one that was only
    /// linked is let go without touching it.
    pub fn deprovision(&self, row: &mut ResourceRow, now: &str) -> (r: Option<u64>)
        ensures
            ({
                let state = old(row).rec.state@;
                let kept = state == "destroyed"@ || state == "destroying"@;
                let next = if kept {
                    state
                } else if state == "linked"@ {
                    "destroyed"@
                } else {
                    "destroying"@
                };
                &&& r == if kept || state == "linked"@ {
                    None
                } else {
                    Some(budget_of(*self, old(row).rec.rtype@))
                }
                &&& final(row).rec.state@ == next
                &&& kept ==> *final(row) == *old(row)
                &&& !kept ==> final(row).rec.updated_at@ == now@
                &&& final(row).worker_owner == old(row).worker_owner
                &&& final(row).rec == (ProvisionedRecord {
                    state: final(row).rec.state,
                    updated_at: final(row).rec.updated_at,
                    ..old(row).rec
                })
            }),
            old(row).rec.state@ == "linked"@ ==> r is None && final(row).rec.state@
                == "destroyed"@,
            old(row).rec.state@ == "destroyed"@ || old(row).rec.state@ == "destroying"@ ==> r is None
                && *final(row) == *old(row),
            old(row).rec.state@ != "linked"@ && old(row).rec.state@ != "destroyed"@
                && old(row).rec.state@ != "destroying"@ ==> r is Some && final(row).rec.state@
                == "destroying"@,
    {
        proof {
            lemma_states_differ();
        }
        if text_eq(row.rec.state.as_str(), "destroyed") || text_eq(
            row.rec.state.as_str(),
            "destroying",
        ) {
            return None;
        }
        if text_eq(row.rec.state.as_str(), "linked") {
            row.mark_state("destroyed", now);
            return None;
        }
        row.mark_state("destroying", now);
        Some(self.budget_for(row.rec.rtype.as_str()))
    }

    /// Retries a resource now: a failed row goes back to its work state, a row of work
    /// is taken from a worker that gave no sign of life since the cutoff. Says how long
    /// to wait where there is work to drive; any other row stays as it is.
    pub fn retry_resource(&self, row: &mut ResourceRow, cutoff: &str, now: &str) -> (r: Option<u64>)
        ensures
            ({
                let state = old(row).rec.state@;
                let wait = Some(budget_of(*self, old(row).rec.rtype@));
                if failed_state(state) {
                    &&& r == wait
                    &&& final(row).rec.state@ == if state == "failed"@ {
                        "provisioning"@
                    } else {
                        "destroying"@
                    }
                    &&& final(row).worker_owner is None
                    &&& final(row).rec.next_retry_at is None
                    &&& final(row).rec.updated_at@ == now@
                    &&& final(row).rec == (ProvisionedRecord {
                        state: final(row).rec.state,
                        next_retry_at: final(row).rec.next_retry_at,
                        updated_at: final(row).rec.updated_at,
                        ..old(row).rec
                    })
                } else if work_state(state) && abandoned(*old(row), cutoff@) {
                    r == wait && final(row).rec == old(row).rec && final(row).worker_owner is None
                } else {
                    r is None && *final(row) == *old(row)
                }
            }),
            old(row).rec.state@ == "failed"@ ==> r is Some && final(row).rec.state@
                == "provisioning"@ && final(row).worker_owner is None,
            old(row).rec.state@ == "destroy_failed"@ ==> r is Some && final(row).rec.state@
                == "destroying"@ && final(row).worker_owner is None,
            (old(row).rec.state@ == "provisioning"@ || old(row).rec.state@ == "destroying"@) && (
            old(row).worker_owner is None || before(old(row).rec.updated_at@, cutoff@))
                ==> r is Some && final(row).worker_owner is None,
            (old(row).rec.state@ == "provisioning"@ || old(row).rec.state@ == "destroying"@)
                && old(row).worker_owner is Some && !before(old(row).rec.updated_at@, cutoff@)
                ==> r is None && *final(row) == *old(row),
            old(row).rec.state@ == "provisioned"@ || old(row).rec.state@ == "destroyed"@
                || old(row).rec.state@ == "linked"@ || old(row).rec.state@ == "suspended"@
                ==> r is None && *final(row) == *old(row),
    {
        proof {
            lemma_states_differ();
        }
        if text_eq(row.rec.state.as_str(), "failed") || text_eq(
            row.rec.state.as_str(),
            "destroy_failed",
        ) {
            row.reset_for_retry(now);
            return Some(self.budget_for(row.rec.rtype.as_str()));
        }
        if is_work_state(row.rec.state.as_str()) && row.reclaim_stale(cutoff) {
            return Some(self.budget_for(row.rec.rtype.as_str()));
        }
        None
    }
}

/// A retry never takes work from a worker that gave a sign of life since the
/// cutoff.
pub proof fn law_retry_spares_live_work(row: ResourceRow, cutoff: Seq<char>)
    requires
        work_state(row.rec.state@),
        row.worker_owner is Some,
        !before(row.rec.updated_at@, cutoff),
    ensures
        !failed_state(row.rec.state@),
        !abandoned(row, cutoff),
{
    reveal_strlit("provisioning");
    reveal_strlit("failed");
    reveal_strlit("destroying");
    reveal_strlit("destroy_failed");
    assert("provisioning"@.len() == 12 && "failed"@.len() == 6);
    assert("destroying"@.len() == 10 && "destroy_failed"@.len() == 14);
}

/// A payload's members are read under their own names; the target it leaves open is the
/// default one.
pub proof fn law_order_reads_the_payload(s: ProvisionService, payload: JsonView)
    ensures
        payload.text_at("resource_type"@) matches Some(t) ==> order_of(s, payload).resource_type
            == t,
        payload.text_at("name"@) matches Some(n) ==> order_of(s, payload).name == n,
        payload.text_at("name"@) is None ==> order_of(s, payload).name.len() == 0,
        payload.text_at("cloud"@) matches Some(c) ==> order_of(s, payload).cloud == c,
        payload.text_at("cloud"@) is None ==> order_of(s, payload).cloud == s.default_cloud@,
        payload.text_at("account"@) matches Some(a) ==> order_of(s, payload).account == a,
        payload.text_at("account"@) is None ==> order_of(s, payload).account == s.default_account@,
        (payload.text_at("spec_json"@) matches Some(t) && json_read(t) is Ok) ==> order_of(
            s,
            payload,
        ).spec == json_read(payload.text_at("spec_json"@)->0)->Ok_0,
        (payload.text_at("spec_json"@) is None || json_read(payload.text_at("spec_json"@)->0) is Err)
            ==> order_of(s, payload).spec == JsonView::Object(Map::empty()),
{
}

/// Only a live resource whose spec differs is changed in place; one in flight is left
/// alone.
pub proof fn law_only_live_resources_are_updated(x: ProvisionedRecord, spec: JsonView)
    ensures
        is_update(x, spec) ==> x.state@ == "provisioned"@,
        x.state@ == "provisioned"@ ==> (is_update(x, spec) <==> !x.spec@.alike(spec)),
{
}

/// New work is the project's own and says what was asked for; it starts in
/// `provisioning`, without outputs, errors or attempts, and under its request.
pub proof fn law_new_work_says_what_was_asked(
    s: ProvisionService,
    reg: Registration,
    order: OrderView,
    request_id: Seq<char>,
    id: Seq<char>,
    now: Seq<char>,
    rec: ProvisionedRecord,
)
    requires
        fresh_record(s, reg, order, request_id, id, now, rec),
    ensures
        rec.id@ == id,
        rec.project_id@ == reg.project_id@,
        rec.rtype@ == order.resource_type,
        rec.name@ == order.name,
        rec.spec@ == order.spec,
        rec.outputs@ == JsonView::Object(Map::empty()),
        rec.state@ == "provisioning"@,
        rec.request_id matches Some(q) && q@ == request_id,
        rec.created_at@ == now,
        rec.updated_at@ == now,
        rec.error@.len() == 0,
        rec.attempts == 0,
        rec.next_retry_at is None,
        s.catalog@.contains_key(order.resource_type) ==> {
            let m = s.catalog@[order.resource_type];
            &&& rec.est_monthly_usd == resolution(m, order.spec).estimated_monthly_usd
            &&& s.backends@.contains_key(m.provisioner.connector@) ==> {
                let b = s.backends@[m.provisioner.connector@];
                &&& rec.backend@ == b.name@
                &&& rec.dry_run == b.dry_run
            }
        },
        !s.catalog@.contains_key(order.resource_type) && s.backends@.contains_key("stub"@) ==> {
            &&& rec.est_monthly_usd == (Usd { bits: 0 })
            &&& rec.backend@ == s.backends@["stub"@].name@
            &&& rec.dry_run == s.backends@["stub"@].dry_run
        },
{
}

/// A request is fulfilled when it is approved and names a project, or when it is
/// fulfilled already and has its record; in no other state.
pub proof fn law_only_approved_requests_are_fulfilled(req: WorkflowRequest, has_record: bool)
    ensures
        fulfill_fault(req, has_record) is None <==> {
            ||| req.state == State::Fulfilled && has_record
            ||| req.state == State::Approved && req.payload@.text_at("project_id"@) is Some
        },
        req.state != State::Approved && !(req.state == State::Fulfilled && has_record)
            ==> fulfill_fault(req, has_record)->0 is NotPermitted,
{
}

/// The reconciler puts on record exactly the provisioning requests without a record that
/// name a project.
pub proof fn law_unrecorded_requests_are_found(
    kind: Seq<char>,
    payload: JsonView,
    has_record: bool,
)
    ensures
        unrecorded(kind, payload, has_record) is Some <==> "provision:"@.is_prefix_of(kind)
            && !has_record && payload.text_at("project_id"@) is Some,
        unrecorded(kind, payload, has_record) matches Some(p) ==> payload.text_at("project_id"@)
            == Some(p),
{
    let p = "provision:"@;
    if begins_with(kind, p) {
        assert(p =~= kind.subrange(0, p.len() as int));
    }
    if p.is_prefix_of(kind) {
        assert(begins_with(kind, p));
    }
}

/// What a state asks for and where the work ends: `provisioning` and `failed` rows are
/// applied and end `provisioned` or `failed`; `destroying` and `destroy_failed` ones are
/// torn down and end `destroyed` or `destroy_failed`; nothing else is driven.
pub proof fn law_work_and_its_ends(state: Seq<char>)
    ensures
        action_of(state) == Some(Action::Apply) <==> state == "provisioning"@ || state
            == "failed"@,
        action_of(state) == Some(Action::Destroy) <==> state == "destroying"@ || state
            == "destroy_failed"@,
        end_state(Action::Apply, true) == "provisioned"@,
        end_state(Action::Apply, false) == "failed"@,
        end_state(Action::Destroy, true) == "destroyed"@,
        end_state(Action::Destroy, false) == "destroy_failed"@,
{
    reveal_strlit("provisioning");
    reveal_strlit("failed");
    reveal_strlit("destroying");
    reveal_strlit("destroy_failed");
    assert("provisioning"@.len() == 12 && "failed"@.len() == 6 && "destroying"@.len() == 10
        && "destroy_failed"@.len() == 14);
}

/// A service's own retry settings go before the deployment's, each by itself; else the
/// waits go from a minute to an hour.
pub proof fn law_own_retry_settings_come_first(s: ProvisionService, rtype: Seq<char>)
    ensures
        ({
            let p = retry_policy(s, rtype);
            let known = s.catalog@.contains_key(rtype);
            let m = s.catalog@[rtype];
            &&& !known || m.retry is None ==> p.max_attempts == s.max_retries && p.base_secs == 60
                && p.cap_secs == 3600
            &&& known && m.retry is Some ==> {
                let own = m.retry->0;
                &&& p.max_attempts == (if own.max_attempts is Some {
                    own.max_attempts->0
                } else {
                    s.max_retries
                })
                &&& p.base_secs == (if own.base_secs is Some {
                    own.base_secs->0
                } else {
                    60
                })
                &&& p.cap_secs == (if own.cap_secs is Some {
                    own.cap_secs->0
                } else {
                    3600
                })
            }
        }),
{
}

/// The wait after the first failure is the base, each further one doubles it up to the
/// seventeenth, and none passes the cap.
pub proof fn law_backoff_doubles(attempts: int, p: RetryPolicy)
    ensures
        attempts <= 1 ==> backoff(attempts, p) == (if p.base_secs < p.cap_secs {
            p.base_secs
        } else {
            p.cap_secs
        }),
        1 <= attempts < 17 ==> backoff(attempts + 1, p) == (if 2 * backoff(attempts, p) < p.cap_secs {
            2 * backoff(attempts, p)
        } else {
            p.cap_secs as int
        }),
        attempts >= 17 ==> backoff(attempts, p) == backoff(17, p),
{
    reveal_with_fuel(doubled, 2);
    if attempts <= 1 {
        assert(p.base_secs * doubled(0) == p.base_secs) by (nonlinear_arith)
            requires
                doubled(0) == 1,
        ;
    } else if attempts < 17 {
        let n = doublings(attempts);
        assert(doublings(attempts + 1) == n + 1);
        assert(doubled(n + 1) == 2 * doubled(n));
        let (b, d) = (p.base_secs as int, doubled(n) as int);
        assert(b * (2 * d) == 2 * (b * d)) by (nonlinear_arith);
        assert(b * d >= 0) by (nonlinear_arith)
            requires
                b >= 0,
                d >= 0,
        ;
    }
    if attempts == 1 {
        let (b, d) = (p.base_secs as int, doubled(1) as int);
        assert(doubled(1) == 2 * doubled(0) && doubled(0) == 1);
        assert(doublings(2) == 1);
        assert(b * 2 == 2 * b) by (nonlinear_arith);
    }
}

/// Failed work is tried again by itself exactly while its attempts are fewer than the
/// policy's.
pub proof fn law_attempts_are_counted(attempts: i64, p: RetryPolicy)
    ensures
        tries_again(attempts, p) <==> attempts < p.max_attempts,
        p.max_attempts == 0 && attempts >= 0 ==> !tries_again(attempts, p),
{
}

/// A connector is handed the record as it stands, the service's configuration with the
/// request's own module in it, and the names of the service's secret outputs.
pub proof fn law_connector_is_handed_the_record(
    rec: ProvisionedRecord,
    config: JsonView,
    secret_outputs: Seq<Seq<char>>,
    module: Seq<char>,
)
    ensures
        ({
            let q = request_for(rec, config, secret_outputs);
            &&& q.resource_type == rec.rtype@
            &&& q.name == rec.name@
            &&& q.spec == rec.spec@
            &&& q.config == config
            &&& q.estimated_monthly_usd == rec.est_monthly_usd
            &&& q.secret_outputs == secret_outputs
            &&& q.resource_id == Some(rec.id@)
        }),
        with_module(config, None) == config,
        config is Object ==> with_module(config, Some(module)).text_at("module"@) == Some(module),
        forall|k: Seq<char>|
            k != "module"@ ==> #[trigger] with_module(config, Some(module)).at(k) == config.at(k),
{
}

/// An approved request ends up on record in one of four ways. One that has a row keeps
/// it. One without a resource type is refused. One for a name that is in flight, or live
/// with the same spec, adds nothing and is satisfied; one for a live name with another
/// spec arms that row anew under the request. Any other adds one row behind all.
pub proof fn law_ways_onto_the_record(
    s: ProvisionService,
    rows: Seq<ResourceRow>,
    after: Seq<ResourceRow>,
    reg: Registration,
    req: WorkflowRequest,
    id: Seq<char>,
    now: Seq<char>,
    r: Result<Enqueued, ProvisionError>,
)
    requires
        enqueued(s, rows, after, reg, req, id, now, r),
    ensures
        ({
            let own = exists|i: int|
                0 <= i < rows.len() && contents((#[trigger] rows[i]).rec.request_id) == Some(req.id@);
            let order = order_of(s, req.payload@);
            let taken = |x: ResourceRow|
                x.rec.project_id@ == reg.project_id@ && x.rec.rtype@ == order.resource_type
                    && x.rec.name@ == order.name && (x.rec.state@ == "provisioning"@ || x.rec.state@
                    == "provisioned"@);
            let named = exists|i: int| 0 <= i < rows.len() && taken(#[trigger] rows[i]);
            let typed = req.payload@.text_at("resource_type"@) is Some;
            &&& own ==> after == rows && r is Ok && !r->Ok_0.satisfied && !r->Ok_0.armed && contents(
                rows[r->Ok_0.place as int].rec.request_id,
            ) == Some(req.id@)
            &&& !own && !typed ==> after == rows && r is Err
            &&& !own && typed && named ==> r is Ok && ({
                let k = r->Ok_0.place as int;
                &&& 0 <= k < rows.len()
                &&& taken(rows[k])
                &&& after.len() == rows.len()
                &&& r->Ok_0.armed <==> rows[k].rec.state@ == "provisioned"@
                    && !rows[k].rec.spec@.alike(order.spec)
                &&& r->Ok_0.satisfied <==> !r->Ok_0.armed
                &&& r->Ok_0.satisfied ==> after == rows
                &&& r->Ok_0.armed ==> after[k].rec.spec@ == order.spec && after[k].rec.state@
                    == "provisioning"@ && contents(after[k].rec.request_id) == Some(req.id@)
                    && after[k].rec.id == rows[k].rec.id && after[k].worker_owner is None
                    && after[k].rec.attempts == 0 && after[k].rec.outputs == rows[k].rec.outputs
                &&& forall|i: int| 0 <= i < rows.len() && i != k ==> #[trigger] after[i] == rows[i]
            })
            &&& !own && typed && !named ==> r is Ok && r->Ok_0.place == rows.len()
                && !r->Ok_0.satisfied && !r->Ok_0.armed && after.len() == rows.len() + 1
                && after.drop_last() == rows && after.last().rec.state@ == "provisioning"@
                && after.last().rec.name@ == order.name && after.last().rec.project_id@
                == reg.project_id@ && after.last().worker_owner is None
        }),
{
    let order = order_of(s, req.payload@);
    let of_request = SelectionView::OfRequest { request_id: req.id@ };
    let of_name = SelectionView::ActiveNamed {
        project_id: reg.project_id@,
        rtype: order.resource_type,
        name: order.name,
    };
    lemma_read_rows(rows, of_request, false);
    lemma_read_rows(rows, of_name, true);
    let own = read_rows(rows, of_request, false);
    let named = read_rows(rows, of_name, true);
    if own.len() > 0 {
        assert(own.contains(own[0]));
        assert(selects(of_request, rows[own[0]]));
    } else {
        assert forall|i: int| 0 <= i < rows.len() implies contents(
            (#[trigger] rows[i]).rec.request_id,
        ) != Some(req.id@) by {
            if contents(rows[i].rec.request_id) == Some(req.id@) {
                assert(selects(of_request, rows[i]));
                assert(own.contains(i));
            }
        }
    }
    let taken = |x: ResourceRow|
        x.rec.project_id@ == reg.project_id@ && x.rec.rtype@ == order.resource_type && x.rec.name@
            == order.name && (x.rec.state@ == "provisioning"@ || x.rec.state@ == "provisioned"@);
    if named.len() > 0 {
        assert(named.contains(named[0]));
        assert(selects(of_name, rows[named[0]]));
        assert(taken(rows[named[0]]));
    } else {
        assert forall|i: int| 0 <= i < rows.len() implies !taken(#[trigger] rows[i]) by {
            if taken(rows[i]) {
                assert(selects(of_name, rows[i]));
                assert(named.contains(i));
            }
        }
    }
    if own.len() == 0 && req.payload@.text_at("resource_type"@) is Some && named.len() == 0 {
        assert(after.drop_last() =~= rows);
    }
}

/// The estimate of a spec is what its service comes to with it, and the secret outputs
/// are those that its service declares; a service that is gone has neither.
pub proof fn law_estimate_and_secrets_of_a_service(
    s: ProvisionService,
    rtype: Seq<char>,
    spec: JsonView,
    other: Usd,
)
    ensures
        s.catalog@.contains_key(rtype) ==> estimate_for(s, rtype, spec, other) == resolution(
            s.catalog@[rtype],
            spec,
        ).estimated_monthly_usd && secrets_of(s, rtype) == texts(
            s.catalog@[rtype].secret_outputs@,
        ),
        !s.catalog@.contains_key(rtype) ==> estimate_for(s, rtype, spec, other) == other
            && secrets_of(s, rtype).len() == 0,
{
}

} // verus!
