use asgard::json::Json;
use asgard::provision::cost::project::infra_cost_by_project;
use asgard::provision::lifecycle::{cascade_begin, cascade_end, Cascade, LifecycleSummary};
use asgard::provision::manifest::{
    class_rank, default_cost_model, default_source_type, default_status, CostCfg, CostSourceCfg,
    GrantCfg, ProvisionerCfg, RetryCfg, ServiceCatalog, ServiceManifest, Variant, Variants,
};
use asgard::provision::outputs::{
    current_ref, put_refs, ref_to_json, secret_plan, Provisioned,
};
use asgard::provision::repo::{
    estimates_that_count, get_active_by_name, get_by_request, is_failed_state, is_reclaimable,
    is_retryable, is_work_state, linked_source, list_by_project, list_reclaimable, list_retryable,
    ProvisionedRecord, ResourceRow,
};
use asgard::provision::secrets::{BuiltinSecretStore, SecretRef, SECRET_REF_KEY};
use asgard::provision::service::{
    after_submit, AfterSubmit, AutoApprovePolicy, Backend, ProvisionService, MAX_RETRIES,
    RETRY_BASE_SECS,
};
use asgard::provision::stub::StubProvisioner;
use asgard::provision::work::{
    backoff_secs, drive_action, retries, settle, unrecorded_project, wait_is_over, Action,
    ApplyPlan, FulfillStep,
};
use asgard::provision::context::{ctx_from_record, CloudTarget, ResourceContext};
use asgard::provision::ProvisionError;
use asgard::registry::evidence::Evidence;
use asgard::registry::groups::{GroupAllowlist, RegistrationPolicy};
use asgard::registry::service::ProjectRegistry;
use asgard::registry::workflow::{NewRequest, State, WorkflowRequest};
use asgard::registry::{Registration, RegistryError};
use asgard::sorted_map::SortedMap;
use asgard::usd::Usd;

const NOW: &str = "2026-06-03T00:00:00.000Z";
const PAST: &str = "2026-06-02T23:50:00.000Z";
const FUTURE: &str = "2026-06-03T00:10:00.000Z";
const PID: &str = "proj-2026-0001";
const ROLE_ARN: &str = "arn:aws:iam::123456789012:role/proj-task-role";
const BUCKET_ARN: &str = "arn:aws:s3:::proj-assets";

fn usd(v: f64) -> Usd {
    Usd { bits: v.to_bits() }
}

fn json(s: &str) -> Json {
    Json::parse(s).unwrap()
}

fn reg(classification: &str) -> Registration {
    Registration {
        project_id: PID.to_string(),
        name: "P".to_string(),
        owner: "a@corp.example".to_string(),
        manager: "b@corp.example".to_string(),
        group: "platform".to_string(),
        cost_center: "CC-100".to_string(),
        classification: classification.to_string(),
        data_class: "internal".to_string(),
        budget_usd: usd(0.0),
        spent_usd: usd(0.0),
        lifecycle: "active".to_string(),
        registered: true,
        killed: false,
        description: String::new(),
        created_at: NOW.to_string(),
        review_date: String::new(),
        review_state: "ok".to_string(),
        review_extensions: 0,
        stack_exception_renewal_date: String::new(),
        evidence: Evidence::default(),
    }
}

fn manifest(id: &str, est: f64) -> ServiceManifest {
    ServiceManifest {
        id: id.to_string(),
        name: id.to_string(),
        category: "tooling".to_string(),
        status: default_status(),
        classification_min: None,
        classification_max: None,
        description: String::new(),
        auto_approvable: true,
        required_fields: vec!["name".to_string()],
        secret_outputs: vec![],
        provisioner: ProvisionerCfg { connector: "terraform".to_string(), config: Json::object() },
        cost: CostCfg {
            model: default_cost_model(),
            estimated_monthly_usd: usd(est),
            source: CostSourceCfg { source_type: "none".to_string() },
        },
        tags: vec![],
        documentation: None,
        inference: None,
        variants: None,
        access_levels: SortedMap::new(),
        grant: None,
        principal_output: None,
        principal_kind: None,
        long_running: false,
        retry: None,
    }
}

fn catalog() -> ServiceCatalog {
    let mut c = ServiceCatalog::new();
    let mut s3 = manifest("s3-bucket", 5.0);
    s3.access_levels.insert("read", vec!["s3:GetObject".to_string()]);
    s3.access_levels
        .insert("write", vec!["s3:GetObject".to_string(), "s3:PutObject".to_string()]);
    s3.grant = Some(GrantCfg {
        module: "iam-grant".to_string(),
        principal_kind: "aws-iam-role".to_string(),
    });
    c.add(s3).unwrap();
    let mut dynamo = manifest("dynamodb-table", 5.0);
    dynamo.required_fields = vec!["name".to_string(), "pk_name".to_string()];
    c.add(dynamo).unwrap();
    let mut ecs = manifest("ecs-service", 5.0);
    ecs.principal_output = Some("task_role_arn".to_string());
    ecs.principal_kind = Some("aws-iam-role".to_string());
    c.add(ecs).unwrap();
    let mut task = manifest("ecs-task", 5.0);
    task.required_fields = vec!["name".to_string(), "image".to_string()];
    c.add(task).unwrap();
    let mut secret = manifest("random-secret", 0.0);
    secret.secret_outputs = vec!["value".to_string()];
    c.add(secret).unwrap();
    let mut access = manifest("access-grant", 0.0);
    access.required_fields = vec!["principal_role_arn".to_string(), "target_arn".to_string()];
    c.add(access).unwrap();
    let mut ec2 = manifest("ec2-instance", 30.0);
    let mut options: SortedMap<Variant> = SortedMap::new();
    options.insert(
        "t3.micro",
        Variant {
            estimated_monthly_usd: Some(usd(7.0)),
            classification_min: None,
            requires_approval: false,
        },
    );
    options.insert(
        "m7i.4xlarge",
        Variant {
            estimated_monthly_usd: Some(usd(500.0)),
            classification_min: None,
            requires_approval: false,
        },
    );
    options.insert(
        "g6.xlarge",
        Variant {
            estimated_monthly_usd: Some(usd(600.0)),
            classification_min: Some("wide-operational".to_string()),
            requires_approval: true,
        },
    );
    ec2.variants = Some(Variants { field: "instance_type".to_string(), options });
    c.add(ec2).unwrap();
    c
}

fn service() -> ProvisionService {
    let mut s = ProvisionService::new(catalog());
    s.set_auto_approve(ceiling("poc", 500.0));
    s
}

fn ceiling(class: &str, amount: f64) -> AutoApprovePolicy {
    let mut ceilings: SortedMap<Usd> = SortedMap::new();
    ceilings.insert(class, usd(amount));
    AutoApprovePolicy { ceilings }
}

fn record(rtype: &str, name: &str, outputs: Json) -> ProvisionedRecord {
    ProvisionedRecord {
        id: format!("{rtype}-{name}"),
        project_id: PID.to_string(),
        rtype: rtype.to_string(),
        name: name.to_string(),
        spec: Json::object(),
        outputs,
        tags: SortedMap::new(),
        est_monthly_usd: usd(0.0),
        state: "provisioned".to_string(),
        backend: "stub".to_string(),
        dry_run: true,
        request_id: None,
        created_at: NOW.to_string(),
        updated_at: NOW.to_string(),
        error: String::new(),
        attempts: 0,
        next_retry_at: None,
    }
}

fn row(name: &str, state: &str) -> ResourceRow {
    let mut rec = record("s3-bucket", name, Json::object());
    rec.state = state.to_string();
    rec.est_monthly_usd = usd(10.0);
    ResourceRow { rec, worker_owner: None }
}

fn filed(state: State, n: NewRequest) -> WorkflowRequest {
    WorkflowRequest {
        id: "r1".to_string(),
        kind: n.kind,
        requester: n.requester,
        subject: n.subject,
        state,
        payload: n.payload,
        approver: None,
        reason: None,
    }
}

fn why<T>(r: Result<T, ProvisionError>) -> String {
    match r {
        Ok(_) => panic!("expected an error"),
        Err(e) => e.message(),
    }
}

// --- requests ---------------------------------------------------------------

#[test]
fn self_service_resource_auto_provisions() {
    let s = service();
    let q = s
        .request(
            &reg("poc"),
            "s3-bucket",
            "assets",
            &json("{\"name\":\"assets\"}"),
            "user:default/a",
            usd(5.0),
        )
        .unwrap();
    assert_eq!(q.kind, "provision:s3-bucket");
    assert_eq!(q.subject, "s3-bucket/assets");
    assert_eq!(q.payload.get_str("provision_tier"), Some("self_service"));
    assert_eq!(q.payload.get_str("spec_json"), Some("{\"name\":\"assets\"}"));
    assert_eq!(q.sla_seconds, None);
    assert_eq!(after_submit(State::Approved), AfterSubmit::Enqueue);
    assert_eq!(after_submit(State::Requested), AfterSubmit::AwaitApproval);

    let order = s.read_order(&q.payload).unwrap();
    match s.enqueue_apply(&reg("poc"), order, None, "r1", "res-1", NOW) {
        ApplyPlan::Record(rec) => {
            assert_eq!(rec.state, "provisioning");
            assert_eq!(rec.tags.get("project").map(String::as_str), Some(PID));
            assert_eq!(rec.est_monthly_usd.bits, 5.0f64.to_bits());
            assert!(rec.dry_run);
            assert_eq!(rec.request_id.as_deref(), Some("r1"));
            assert_eq!(rec.backend, "stub");
        }
        other => panic!("expected a new record, got {other:?}"),
    }
}

#[test]
fn classification_without_ceiling_requires_approval() {
    let s = service();
    let spec = json("{\"name\":\"assets\"}");
    let q = s.request(&reg("wide-operational"), "s3-bucket", "assets", &spec, "a", usd(5.0)).unwrap();
    assert_eq!(q.payload.get_str("provision_tier"), Some("review"));
    assert_eq!(q.sla_seconds, Some(604800));
}

#[test]
fn over_cost_limit_requires_approval() {
    let mut s = service();
    s.set_auto_approve(ceiling("poc", 1.0));
    let spec = json("{\"name\":\"assets\"}");
    let q = s.request(&reg("poc"), "s3-bucket", "assets", &spec, "a", usd(5.0)).unwrap();
    assert_eq!(q.payload.get_str("provision_tier"), Some("review"));
    let q = s.request(&reg("poc"), "s3-bucket", "assets", &spec, "a", usd(1.0)).unwrap();
    assert_eq!(q.payload.get_str("provision_tier"), Some("self_service"));
}

#[test]
fn ec2_small_variant_auto_approves_big_variant_reviews() {
    let mut s = service();
    s.set_auto_approve(ceiling("poc", 100.0));
    let m = s.catalog().get("ec2-instance").unwrap();
    let micro = m.resolve(&json("{\"name\":\"dev\",\"instance_type\":\"t3.micro\"}"));
    assert_eq!(micro.estimated_monthly_usd.bits, 7.0f64.to_bits());
    assert!(!micro.force_review);
    let big = m.resolve(&json("{\"name\":\"big\",\"instance_type\":\"m7i.4xlarge\"}"));
    assert_eq!(big.estimated_monthly_usd.bits, 500.0f64.to_bits());
    let spec = json("{\"name\":\"big\",\"instance_type\":\"m7i.4xlarge\"}");
    let q = s.request(&reg("poc"), "ec2-instance", "big", &spec, "a", usd(500.0)).unwrap();
    assert_eq!(q.payload.get_str("provision_tier"), Some("review"));
    let odd = m.resolve(&json("{\"name\":\"x\",\"instance_type\":\"unheard.of\"}"));
    assert!(odd.force_review);
}

#[test]
fn ec2_gpu_variant_is_tier_gated_for_poc() {
    let s = service();
    let spec = json("{\"name\":\"gpu\",\"instance_type\":\"g6.xlarge\"}");
    let e = s.request(&reg("poc"), "ec2-instance", "gpu", &spec, "a", usd(0.0));
    assert!(matches!(e, Err(ProvisionError::NotPermitted(_))));
}

#[test]
fn ec2_gpu_variant_forces_review_when_tier_and_cost_ok() {
    let mut s = service();
    s.set_auto_approve(ceiling("wide-operational", 100_000.0));
    let spec = json("{\"name\":\"gpu\",\"instance_type\":\"g6.xlarge\"}");
    let q = s.request(&reg("wide-operational"), "ec2-instance", "gpu", &spec, "a", usd(600.0)).unwrap();
    assert_eq!(q.payload.get_str("provision_tier"), Some("review"));
}

#[test]
fn target_outside_allowlist_is_refused() {
    let mut s = service();
    let spec = json("{\"name\":\"assets\",\"cloud\":\"aws\",\"account\":\"999999999999\"}");
    let e = s.request(&reg("poc"), "s3-bucket", "assets", &spec, "a", usd(5.0));
    assert!(matches!(e, Err(ProvisionError::NotPermitted(_))));
    s.set_allowed(vec![CloudTarget {
        cloud: "aws".to_string(),
        account: "999999999999".to_string(),
    }]);
    let q = s.request(&reg("poc"), "s3-bucket", "assets", &spec, "a", usd(5.0)).unwrap();
    assert_eq!(q.payload.get_str("account"), Some("999999999999"));
}

#[test]
fn missing_required_field_rejected() {
    let s = service();
    let e = s.request(&reg("poc"), "dynamodb-table", "t", &json("{\"name\":\"t\"}"), "u", usd(0.0));
    assert!(matches!(e, Err(ProvisionError::InvalidSpec(_))));
}

#[test]
fn validate_spec_enforces_required_fields() {
    let cat = catalog();
    assert!(cat.validate_spec("dynamodb-table", &json("{\"name\":\"t\"}")).is_err());
    assert!(cat.validate_spec("dynamodb-table", &json("{\"name\":\"t\",\"pk_name\":\"id\"}")).is_ok());
    assert!(cat.validate_spec("dynamodb-table", &json("{\"name\":\"t\",\"pk_name\":\"\"}")).is_err());
    assert!(cat.validate_spec("nothing", &Json::object()).is_err());
}

#[test]
fn rejects_unknown_connector() {
    let mut bad = manifest("bad", 0.0);
    bad.provisioner.connector = "nope".to_string();
    assert!(bad.validate().is_err());
    let mut c = ServiceCatalog::new();
    assert!(c.add(bad).is_err());
    assert!(c.ids().is_empty());
    let mut odd = manifest("odd", 0.0);
    odd.cost.source.source_type = "crystal-ball".to_string();
    assert!(odd.validate().is_err());
    let mut nameless = manifest(" ", 0.0);
    nameless.name = String::new();
    assert!(nameless.validate().is_err());
}

#[test]
fn overlay_adds_and_overrides_services() {
    let mut c = catalog();
    assert!(c.get("custom-svc").is_none());
    c.add(manifest("custom-svc", 1.0)).unwrap();
    c.add(manifest("s3-bucket", 99.0)).unwrap();
    assert!(c.get("custom-svc").is_some());
    assert_eq!(
        c.get("s3-bucket").unwrap().cost.estimated_monthly_usd.bits,
        99.0f64.to_bits()
    );
}

#[test]
fn defaults_of_a_manifest() {
    assert_eq!(default_source_type(), "none");
    assert_eq!(CostSourceCfg::default().source_type, "none");
    assert!(class_rank("poc") < class_rank("critical-path"));
    let m = manifest("x", 1.0);
    assert_eq!(m.connector(), "terraform");
    assert!(m.connector_config().is_object());
    let r = m.resolve(&Json::object());
    assert!(m.tier_violation("poc", &r).is_none());
}

#[test]
fn backends_fall_back_to_the_stub() {
    let mut s = service();
    assert_eq!(s.connector_backend("terraform").name, "stub");
    s.register_backend(
        "terraform",
        Backend { name: "terraform".to_string(), dry_run: false },
    );
    assert_eq!(s.connector_backend("terraform").name, "terraform");
    assert_eq!(s.connectors(), vec!["stub", "terraform"]);
    assert_eq!(s.connector_and_config("s3-bucket").0, "terraform");
    s.set_wait_budget_secs(30);
    assert_eq!(s.budget_for("s3-bucket"), 30);
    s.set_default_target("aws", "1");
    assert_eq!(s.auto_approve_ceiling("poc").unwrap().bits, 500.0f64.to_bits());
    s.set_catalog(ServiceCatalog::new());
    assert!(s.catalog().get("s3-bucket").is_none());
    s.set_rollup_config(30);
    assert_eq!(s.forecast_window_days, 30);
}

#[test]
fn ceilings_have_defaults() {
    let p = AutoApprovePolicy::default();
    for (c, v) in [
        ("poc", 500.0),
        ("light-operational", 2500.0),
        ("wide-operational", 10_000.0),
        ("critical-path", 25_000.0),
    ] {
        assert_eq!(f64::from_bits(p.ceiling(c).unwrap().bits), v);
    }
    assert!(p.ceiling("gold").is_none());
}

// --- grants -----------------------------------------------------------------

fn grant(level: &str, consumer: ProvisionedRecord, target: ProvisionedRecord) -> Result<NewRequest, ProvisionError> {
    service().request_grant(
        &reg("poc"),
        "c1",
        Some(&consumer),
        "t1",
        Some(&target),
        level,
        "user:default/a",
        usd(0.0),
    )
}

fn consumer() -> ProvisionedRecord {
    let mut o = Json::object();
    o.insert_str("task_role_arn", ROLE_ARN);
    record("ecs-service", "web", o)
}

fn bucket() -> ProvisionedRecord {
    let mut o = Json::object();
    o.insert_str("arn", BUCKET_ARN);
    record("s3-bucket", "assets", o)
}

fn granted_spec(q: &NewRequest) -> Json {
    json(q.payload.get_str("spec_json").unwrap())
}

#[test]
fn request_grant_self_service_write_auto_approves() {
    let q = grant("write", consumer(), bucket()).unwrap();
    assert_eq!(q.kind, "provision:access-grant");
    assert_eq!(q.payload.get_str("provision_tier"), Some("self_service"));
    assert_eq!(q.payload.get_str("config_module"), Some("iam-grant"));
    let spec = granted_spec(&q);
    assert_eq!(spec.get_str("principal_role_arn"), Some(ROLE_ARN));
    assert_eq!(spec.get_str("target_arn"), Some(BUCKET_ARN));
    assert_eq!(spec.get("actions").unwrap().text(), "[\"s3:GetObject\",\"s3:PutObject\"]");
}

#[test]
fn request_grant_read_level_omits_write_actions() {
    let spec = granted_spec(&grant("read", consumer(), bucket()).unwrap());
    assert_eq!(spec.get("actions").unwrap().text(), "[\"s3:GetObject\"]");
}

#[test]
fn request_grant_unknown_level_is_rejected() {
    let err = why(grant("admin", consumer(), bucket()));
    assert!(err.contains("access level"), "got: {err}");
}

#[test]
fn request_grant_missing_principal_output_is_rejected() {
    let err = why(grant("write", record("ecs-service", "web", Json::object()), bucket()));
    assert!(err.contains("task_role_arn"), "got: {err}");
}

#[test]
fn request_grant_non_grantable_target_is_rejected() {
    let err = why(grant("write", consumer(), record("random-secret", "api-key", json("{\"arn\":\"x\"}"))));
    assert!(err.contains("grantable"), "got: {err}");
}

#[test]
fn request_grant_cross_project_is_rejected() {
    let mut other = bucket();
    other.project_id = "proj-2026-0002".to_string();
    let err = why(grant("write", consumer(), other));
    assert!(err.contains("same project"), "got: {err}");
}

#[test]
fn grants_need_both_ends() {
    let s = service();
    let e = s.grant_order(PID, "c1", None, "t1", Some(&bucket()), "read");
    assert!(matches!(e, Err(ProvisionError::NotFound(_))));
    let e = s.grant_order(PID, "c1", Some(&consumer()), "t1", None, "read");
    assert!(matches!(e, Err(ProvisionError::NotFound(_))));
    let o = s.grant_order(PID, "c1", Some(&consumer()), "t1", Some(&bucket()), "read").unwrap();
    assert_eq!(o.module, "iam-grant");
}

// --- images -----------------------------------------------------------------

#[test]
fn deploy_image_merges_only_image_and_preserves_spec() {
    let mut rec = record("ecs-task", "web", Json::object());
    rec.spec = json(
        "{\"name\":\"web\",\"image\":\"repo:v1\",\"env\":{\"FOO\":\"bar\"},\"certificate_arn\":\"arn:acm:cert\"}",
    );
    let q = service()
        .deploy_image(&reg("poc"), &rec.id, Some(&rec), "repo:v2", "user:default/a", usd(5.0))
        .unwrap();
    let spec = granted_spec(&q);
    assert_eq!(spec.get_str("image"), Some("repo:v2"));
    assert_eq!(spec.get("env").unwrap().text(), "{\"FOO\":\"bar\"}");
    assert_eq!(spec.get_str("certificate_arn"), Some("arn:acm:cert"));
    assert_eq!(q.payload.get_str("provision_tier"), Some("self_service"));
}

#[test]
fn deploy_image_rejects_imageless_and_non_provisioned() {
    let s = service();
    let mut rec = record("s3-bucket", "assets", Json::object());
    rec.spec = json("{\"name\":\"assets\"}");
    let err = why(s.deploy_image(&reg("poc"), &rec.id, Some(&rec), "x:v1", "a", usd(5.0)));
    assert!(err.contains("image"), "got: {err}");
    let mut failed = record("ecs-task", "broken", Json::object());
    failed.spec = json("{\"name\":\"broken\",\"image\":\"repo:v1\"}");
    failed.state = "failed".to_string();
    let err = why(s.deploy_image(&reg("poc"), &failed.id, Some(&failed), "repo:v2", "a", usd(5.0)));
    assert!(err.contains("provisioned"), "got: {err}");
    assert!(s.deploy_image(&reg("poc"), "gone", None, "x", "a", usd(5.0)).is_err());
}

// --- work -------------------------------------------------------------------

#[test]
fn duplicate_request_is_idempotent() {
    let s = service();
    let spec = json("{\"name\":\"dup\"}");
    let q = s.request(&reg("poc"), "s3-bucket", "dup", &spec, "a", usd(5.0)).unwrap();
    let mut rec = record("s3-bucket", "dup", Json::object());
    rec.spec = json("{ \"name\": \"dup\" }");
    let order = s.read_order(&q.payload).unwrap();
    let plan = s.enqueue_apply(&reg("poc"), order, Some(&rec), "r2", "new", NOW);
    assert!(matches!(plan, ApplyPlan::Satisfied), "got {plan:?}");
}

fn approved_for(id: &str, payload: Json) -> WorkflowRequest {
    WorkflowRequest {
        id: id.to_string(),
        kind: "provision:s3-bucket".to_string(),
        requester: "a".to_string(),
        subject: "s3-bucket/x".to_string(),
        state: State::Approved,
        payload,
        approver: None,
        reason: None,
    }
}

#[test]
fn a_name_gets_one_row() {
    let s = service();
    let r = reg("poc");
    let first = json("{\"name\":\"one\"}");
    let second = json("{\"name\":\"one\",\"versioning\":true}");
    let ask = |spec: &Json| s.request(&r, "s3-bucket", "one", spec, "a", usd(5.0)).unwrap().payload;
    let mut rows: Vec<ResourceRow> = vec![];

    let step = s.enqueue(&mut rows, &r, &approved_for("r1", ask(&first)), "id-1", NOW).unwrap();
    assert_eq!((step.place, step.satisfied, rows.len()), (0, false, 1));
    assert_eq!(rows[0].rec.id, "id-1");
    assert_eq!(rows[0].rec.state, "provisioning");

    // The same request again, and another one while the first is in flight.
    let step = s.enqueue(&mut rows, &r, &approved_for("r1", ask(&first)), "id-2", NOW).unwrap();
    assert_eq!((step.place, step.satisfied, rows.len()), (0, false, 1));
    let step = s.enqueue(&mut rows, &r, &approved_for("r2", ask(&second)), "id-3", NOW).unwrap();
    assert_eq!((step.place, step.satisfied, rows.len()), (0, true, 1));
    assert!(!step.armed);

    // Live: the same spec is satisfied, another one arms the row again.
    rows[0].finish("provisioned", json("{\"arn\":\"x\"}"), NOW);
    let step = s.enqueue(&mut rows, &r, &approved_for("r3", ask(&first)), "id-4", NOW).unwrap();
    assert_eq!((step.place, step.satisfied, rows.len()), (0, true, 1));
    let step = s.enqueue(&mut rows, &r, &approved_for("r4", ask(&second)), "id-5", FUTURE).unwrap();
    assert_eq!((step.place, step.satisfied, rows.len()), (0, false, 1));
    assert!(step.armed);
    assert_eq!(rows[0].rec.id, "id-1");
    assert_eq!(rows[0].rec.state, "provisioning");
    assert_eq!(rows[0].rec.request_id.as_deref(), Some("r4"));
    assert_eq!(rows[0].rec.outputs.get_str("arn"), Some("x"));

    // Gone: the name is free again.
    rows[0].mark_state("destroyed", FUTURE);
    let step = s.enqueue(&mut rows, &r, &approved_for("r5", ask(&first)), "id-6", FUTURE).unwrap();
    assert_eq!((step.place, step.satisfied, rows.len()), (1, false, 2));

    let nameless = approved_for("r6", Json::object());
    assert!(s.enqueue(&mut rows, &r, &nameless, "id-7", FUTURE).is_err());
    assert_eq!(rows.len(), 2);
}

#[test]
fn changed_spec_reapplies_in_place() {
    let s = service();
    let spec = json("{\"name\":\"upd\",\"versioning\":true}");
    let q = s.request(&reg("poc"), "s3-bucket", "upd", &spec, "a", usd(5.0)).unwrap();
    let mut r = row("upd", "provisioned");
    r.rec.spec = json("{\"name\":\"upd\",\"versioning\":false}");
    let order = s.read_order(&q.payload).unwrap();
    match s.enqueue_apply(&reg("poc"), order, Some(&r.rec), "r2", "new", NOW) {
        ApplyPlan::Update { spec, est } => {
            let id = r.rec.id.clone();
            r.update_for_reapply(spec, est, "r2", FUTURE);
            assert_eq!(r.rec.id, id);
            assert_eq!(r.rec.state, "provisioning");
            assert!(matches!(r.rec.spec.get("versioning"), Some(Json::Bool(true))));
            assert_eq!(r.rec.request_id.as_deref(), Some("r2"));
            assert_eq!(r.rec.est_monthly_usd.bits, 5.0f64.to_bits());
        }
        other => panic!("expected an update, got {other:?}"),
    }
}

#[test]
fn fulfilment_waits_for_approval_and_happens_once() {
    let s = service();
    let spec = json("{\"name\":\"assets\"}");
    let q = s.request(&reg("poc"), "s3-bucket", "assets", &spec, "a", usd(5.0)).unwrap();
    let mut req = filed(State::Requested, q);
    assert!(s.fulfill(&req, false).is_err());
    req.state = State::Approved;
    match s.fulfill(&req, false).unwrap() {
        FulfillStep::Enqueue { project_id, .. } => assert_eq!(project_id, PID),
        other => panic!("expected to enqueue, got {other:?}"),
    }
    assert_eq!(unrecorded_project(&req, false).as_deref(), Some(PID));
    assert_eq!(unrecorded_project(&req, true), None);
    req.state = State::Fulfilled;
    assert!(matches!(s.fulfill(&req, true), Ok(FulfillStep::Done)));
}

#[test]
fn claim_is_exclusive_then_reclaimable_when_stale() {
    let mut r = row("c", "provisioning");
    assert!(r.claim("provisioning", "owner-1", PAST, NOW));
    assert!(!r.claim("provisioning", "owner-2", PAST, NOW));
    assert!(r.claim("provisioning", "owner-2", FUTURE, NOW));
    assert_eq!(r.worker_owner.as_deref(), Some("owner-2"));
    assert!(!r.claim("destroying", "owner-3", FUTURE, NOW));
    r.heartbeat("owner-1", FUTURE);
    assert_eq!(r.rec.updated_at, NOW);
    r.heartbeat("owner-2", FUTURE);
    assert_eq!(r.rec.updated_at, FUTURE);
}

#[test]
fn infra_committed_counts_in_flight_but_total_does_not() {
    let mut a = row("a", "provisioning");
    a.rec.est_monthly_usd = usd(50.0);
    let mut b = row("b", "provisioned");
    b.rec.est_monthly_usd = usd(30.0);
    let mut other = row("o", "provisioned");
    other.rec.project_id = "p2".to_string();
    let rows = vec![a, b, other, row("d", "destroyed")];
    let sum = |v: Vec<Usd>| v.iter().map(|u| f64::from_bits(u.bits)).sum::<f64>();
    assert_eq!(sum(estimates_that_count(&rows, PID, true)), 80.0);
    assert_eq!(sum(estimates_that_count(&rows, PID, false)), 30.0);
}

#[test]
fn list_reclaimable_finds_unclaimed_work() {
    let mut old = row("old", "destroying");
    old.rec.created_at = PAST.to_string();
    let mut held = row("held", "provisioning");
    held.claim("provisioning", "w", PAST, NOW);
    let rows = vec![row("stale", "provisioning"), old, held, row("x", "provisioned")];
    assert_eq!(list_reclaimable(&rows, PAST, 50), vec![1, 0]);
    assert_eq!(list_reclaimable(&rows, FUTURE, 50), vec![1, 0, 2]);
    assert_eq!(list_reclaimable(&rows, FUTURE, 1), vec![1]);
    assert!(is_reclaimable(&rows[0], PAST) && !is_reclaimable(&rows[2], PAST));
    assert!(is_work_state("destroying") && !is_work_state("failed"));
    assert!(is_failed_state("destroy_failed") && !is_failed_state("provisioned"));
}

#[test]
fn rows_are_looked_up() {
    let mut first = row("web", "provisioned");
    first.rec.request_id = Some("r1".to_string());
    first.rec.created_at = PAST.to_string();
    let mut second = row("web", "provisioning");
    second.rec.request_id = Some("r1".to_string());
    let mut gone = row("web", "destroyed");
    gone.rec.created_at = FUTURE.to_string();
    let rows = vec![first, second, gone];
    assert_eq!(list_by_project(&rows, PID), vec![2, 1, 0]);
    assert_eq!(get_by_request(&rows, "r1"), Some(0));
    assert_eq!(get_by_request(&rows, "r9"), None);
    assert_eq!(get_active_by_name(&rows, PID, "s3-bucket", "web"), Some(1));
    assert_eq!(get_active_by_name(&rows, PID, "s3-bucket", "other"), None);
}

fn failed_row(name: &str, next: Option<&str>) -> ResourceRow {
    let mut r = row(name, "failed");
    r.rec.next_retry_at = next.map(str::to_string);
    r.rec.updated_at = PAST.to_string();
    r
}

#[test]
fn list_retryable_respects_the_backoff_window() {
    let rows = vec![
        failed_row("due", Some(PAST)),
        failed_row("pending", Some(FUTURE)),
        failed_row("capped", None),
    ];
    assert_eq!(list_retryable(&rows, NOW, NOW, 50), vec![0]);
    assert!(is_retryable(&rows[0], NOW, NOW));
}

fn boom() -> Result<Json, ProvisionError> {
    Err(ProvisionError::Backend("boom".to_string()))
}

#[test]
fn failed_apply_arms_backoff_then_caps_out_of_retryable() {
    let mut s = service();
    s.set_max_retries(2);
    let policy = s.retry_policy_for("s3-bucket");
    let mut r = row("perma", "provisioning");
    settle(&mut r, Action::Apply, boom(), &policy, FUTURE, NOW);
    assert_eq!(r.rec.state, "failed");
    assert_eq!(r.rec.attempts, 1);
    assert_eq!(r.rec.next_retry_at.as_deref(), Some(FUTURE));
    assert!(r.rec.error.contains("boom"));
    r.rec.state = "provisioning".to_string();
    settle(&mut r, Action::Apply, boom(), &policy, FUTURE, NOW);
    assert_eq!(r.rec.attempts, 2);
    assert!(r.rec.next_retry_at.is_none());
    assert!(list_retryable(&vec![r], NOW, NOW, 50).is_empty());
}

#[test]
fn finished_work_forgets_its_failures() {
    let s = service();
    let policy = s.retry_policy_for("s3-bucket");
    let mut r = failed_row("x", Some(PAST));
    r.rec.attempts = 3;
    r.worker_owner = Some("w".to_string());
    settle(&mut r, Action::Apply, Ok(json("{\"ok\":true}")), &policy, FUTURE, NOW);
    assert_eq!(r.rec.state, "provisioned");
    assert_eq!(r.rec.attempts, 0);
    assert!(r.rec.next_retry_at.is_none() && r.worker_owner.is_none());
    assert_eq!(r.rec.outputs.text(), "{\"ok\":true}");
    let mut d = row("y", "destroying");
    settle(&mut d, Action::Destroy, boom(), &policy, FUTURE, NOW);
    assert_eq!(d.rec.state, "destroy_failed");
    settle(&mut d, Action::Destroy, Ok(Json::object()), &policy, FUTURE, NOW);
    assert_eq!(d.rec.state, "destroyed");
}

#[test]
fn per_service_retry_policy_overrides_the_default() {
    let mut c = catalog();
    let mut zero = manifest("zero-retry-svc", 0.0);
    zero.retry = Some(RetryCfg {
        max_attempts: Some(0),
        base_secs: Some(5),
        cap_secs: Some(50),
    });
    c.add(zero).unwrap();
    let s = ProvisionService::new(c);
    let p = s.retry_policy_for("zero-retry-svc");
    assert_eq!((p.max_attempts, p.base_secs, p.cap_secs), (0, 5, 50));
    let d = s.retry_policy_for("s3-bucket");
    assert_eq!(d.max_attempts, MAX_RETRIES);
    assert_eq!(d.base_secs, RETRY_BASE_SECS);
    let mut r = row("z", "provisioning");
    settle(&mut r, Action::Apply, boom(), &p, FUTURE, NOW);
    assert_eq!(r.rec.state, "failed");
    assert!(r.rec.next_retry_at.is_none());
    assert!(!retries(1, &p) && retries(1, &d));
    assert!(!retries(1 << 32, &d));
}

#[test]
fn the_backoff_doubles_up_to_its_cap() {
    let p = asgard::provision::work::RetryPolicy { max_attempts: 10, base_secs: 30, cap_secs: 200 };
    let got: Vec<i64> = (1..6).map(|n| backoff_secs(n, &p)).collect();
    assert_eq!(got, vec![30, 60, 120, 200, 200]);
    assert_eq!(backoff_secs(i64::MAX, &p), 200);
    let p = asgard::provision::work::RetryPolicy {
        max_attempts: 10,
        base_secs: u64::MAX,
        cap_secs: u64::MAX,
    };
    assert_eq!(backoff_secs(1, &p), i64::MAX);
}

#[test]
fn retry_resource_rearms_a_capped_failed_row() {
    let s = service();
    let mut r = failed_row("manual", None);
    r.rec.attempts = 5;
    assert!(s.retry_resource(&mut r, PAST, NOW).is_some());
    assert_eq!(r.rec.state, "provisioning");
    assert!(r.rec.next_retry_at.is_none());
    let policy = s.retry_policy_for("s3-bucket");
    settle(&mut r, Action::Apply, Ok(Json::object()), &policy, FUTURE, NOW);
    assert_eq!(r.rec.state, "provisioned");
    assert_eq!(r.rec.attempts, 0);
    let mut d = row("d", "destroy_failed");
    assert!(s.retry_resource(&mut d, PAST, NOW).is_some());
    assert_eq!(d.rec.state, "destroying");
}

#[test]
fn retry_resource_unsticks_a_stranded_provisioning_row() {
    let s = service();
    let mut r = row("stranded", "provisioning");
    assert!(s.retry_resource(&mut r, FUTURE, NOW).is_some());
    assert_eq!(drive_action("provisioning"), Some(Action::Apply));
    assert_eq!(drive_action("destroying"), Some(Action::Destroy));
    assert_eq!(drive_action("provisioned"), None);
}

#[test]
fn retry_resource_does_not_yank_a_live_apply() {
    let s = service();
    let mut r = row("live", "provisioning");
    assert!(r.claim("provisioning", "live-worker", PAST, NOW));
    assert!(s.retry_resource(&mut r, PAST, NOW).is_none());
    assert_eq!(r.rec.state, "provisioning");
    assert_eq!(r.worker_owner.as_deref(), Some("live-worker"));
}

#[test]
fn reclaim_stale_loses_to_a_live_claim_and_wins_when_stale() {
    let mut r = row("rc", "provisioning");
    assert!(r.claim("provisioning", "owner-1", PAST, NOW));
    assert!(!r.reclaim_stale(PAST));
    assert!(r.reclaim_stale(FUTURE));
    assert!(r.claim("provisioning", "owner-2", PAST, NOW));
}

#[test]
fn deprovision_tears_down_and_marks_destroyed() {
    let s = service();
    let mut r = row("x", "provisioned");
    assert!(s.deprovision(&mut r, NOW).is_some());
    assert_eq!(r.rec.state, "destroying");
    assert!(wait_is_over("destroyed", false) && wait_is_over("destroying", true));
    assert!(!wait_is_over("destroying", false));
    let mut gone = row("y", "destroyed");
    assert!(s.deprovision(&mut gone, NOW).is_none());
}

#[test]
fn the_stub_applies_what_it_is_told() {
    let s = service();
    let rec = record("random-secret", "api-key", Json::object());
    let (connector, req) = s.backend_and_req(&rec);
    assert_eq!(connector, "terraform");
    let req2 = s.run_apply(&rec, None, true).unwrap();
    assert_eq!(req2.name, req.name);
    assert!(matches!(s.run_apply(&rec, None, false), Err(ProvisionError::Unsupported(_))));
    let stub = StubProvisioner::new();
    assert!(stub.dry_run() && stub.supports("anything") && stub.name() == "stub");
    let plan = stub.plan(&req);
    assert_eq!(plan.estimated_monthly_usd.bits, req.estimated_monthly_usd.bits);
    let done = stub.apply(&req2);
    assert_eq!(done.outputs.get_str("arn"), Some("arn:stub:random-secret:proj-2026-0001:api-key"));
    assert_eq!(done.outputs.get_str("value").unwrap().len(), 64);
    assert!(stub.stop() && stub.resume());
}

// --- outputs ----------------------------------------------------------------

#[test]
fn secret_outputs_are_stored_as_refs_not_values() {
    let mut done = Provisioned {
        outputs: json("{\"value\":\"hush\",\"arn\":\"a\",\"token\":\"t\"}"),
        resource_ids: vec![],
        sensitive_keys: vec!["token".to_string()],
    };
    let plan = secret_plan("api-key", &vec!["value".to_string(), "absent".to_string()], &done);
    assert_eq!(plan.keys(), vec!["token", "value"]);
    assert_eq!(plan.get("value").unwrap().name, "api-key-value");
    assert_eq!(plan.get("value").unwrap().value, "hush");

    let mut store = BuiltinSecretStore::new([7; 32]);
    let mut refs: SortedMap<SecretRef> = SortedMap::new();
    for k in plan.keys() {
        let w = plan.get(&k).unwrap();
        refs.insert(&k, store.put(PID, &w.name, &w.value, None, NOW).unwrap());
    }
    put_refs(&mut done.outputs, &refs);
    assert!(done.outputs.get("value").unwrap().get(SECRET_REF_KEY).is_some());
    assert_eq!(done.outputs.get_str("arn"), Some("a"));
    assert!(!done.outputs.text().contains("hush"));

    let r = current_ref("builtin", PID, "api-key-value");
    assert_eq!(store.get(&r).unwrap(), "hush");
    let denied = store.get(&current_ref("builtin", "proj-2026-0000", "api-key-value"));
    assert!(matches!(denied, Err(ProvisionError::RefNotFound(_))));
    assert!(store.rotate(&r, FUTURE).unwrap().version >= 2);
    assert!(ref_to_json(&r).get(SECRET_REF_KEY).is_some());
}

// --- lifecycle --------------------------------------------------------------

#[test]
fn suspend_resume_destroy_cascade_transitions_state() {
    let mut summary = LifecycleSummary::default();
    let mut rows = vec![row("assets", "provisioned"), row("cache", "provisioned"), row("old", "destroyed")];
    for r in rows.iter_mut() {
        r.rec.est_monthly_usd = usd(5.0);
    }
    let bill = |rows: &Vec<ResourceRow>| {
        let found = infra_cost_by_project(rows);
        found.get(PID).map(|v| v.iter().map(|u| f64::from_bits(u.bits)).sum::<f64>()).unwrap_or(0.0)
    };
    for (c, end, cost) in [
        (Cascade::Suspend, "suspended", 0.0),
        (Cascade::Resume, "provisioned", 10.0),
        (Cascade::Destroy, "destroyed", 0.0),
    ] {
        for r in rows.iter_mut() {
            let prior = r.rec.state.clone();
            if cascade_begin(c, r, &mut summary, NOW) {
                cascade_end(c, r, &prior, Ok(true), &mut summary, NOW);
                assert_eq!(r.rec.state, end);
            }
        }
        assert_eq!(bill(&rows), cost);
    }
    assert_eq!(summary.suspended, vec!["assets", "cache"]);
    assert_eq!(summary.resumed, vec!["assets", "cache"]);
    assert_eq!(summary.destroyed, vec!["assets", "cache"]);
    assert!(summary.failed.is_empty());
}

#[test]
fn a_failed_cascade_puts_the_state_back() {
    let mut summary = LifecycleSummary::default();
    let mut r = row("assets", "provisioned");
    assert!(cascade_begin(Cascade::Suspend, &mut r, &mut summary, NOW));
    assert_eq!(r.rec.state, "suspending");
    cascade_end(Cascade::Suspend, &mut r, "provisioned", Err("no".to_string()), &mut summary, NOW);
    assert_eq!(r.rec.state, "provisioned");
    assert_eq!(summary.failed.len(), 1);
    assert_eq!(summary.failed[0].error, "no");
}

#[test]
fn linked_external_resource_attributes_cost_without_management() {
    let mut tags: SortedMap<String> = SortedMap::new();
    tags.insert("team", "x".to_string());
    let rec = ProvisionService::link_resource(
        &reg("poc"),
        " legacy-db ",
        " aws-cost-explorer ",
        usd(12.0),
        &tags,
        "note",
        "l1",
        NOW,
    )
    .unwrap();
    assert_eq!(rec.state, "linked");
    assert_eq!(rec.name, "legacy-db");
    assert_eq!(rec.rtype, "external");
    assert_eq!(rec.tags.get("managed-by").map(String::as_str), Some("external"));
    assert_eq!(rec.tags.get("team").map(String::as_str), Some("x"));
    assert_eq!(rec.tags.get("project").map(String::as_str), Some(PID));
    assert_eq!(linked_source(&rec).as_deref(), Some("aws-cost-explorer"));
    let none = ProvisionService::link_resource(&reg("poc"), " ", "flat", usd(0.0), &tags, "", "l", NOW);
    assert!(matches!(none, Err(ProvisionError::InvalidSpec(_))));
    let none = ProvisionService::link_resource(&reg("poc"), "x", " ", usd(0.0), &tags, "", "l", NOW);
    assert!(matches!(none, Err(ProvisionError::InvalidSpec(_))));
}

#[test]
fn no_tag_moves_linked_cost_to_another_project() {
    let mut tags: SortedMap<String> = SortedMap::new();
    tags.insert("project", "other".to_string());
    tags.insert("account", "123".to_string());
    let rec =
        ProvisionService::link_resource(&reg("poc"), "legacy", "flat", usd(0.0), &tags, "", "l", NOW)
            .unwrap();
    assert_eq!(rec.state, "linked");
    assert_eq!(rec.backend, "external");
    assert_eq!(rec.project_id, PID);
    assert_eq!(rec.tags.get("project").map(String::as_str), Some(PID));
    assert_eq!(rec.tags.get("account").map(String::as_str), Some("123"));
}

#[test]
fn project_destroy_unlinks_external_without_connector_calls() {
    let mut summary = LifecycleSummary::default();
    let mut r = row("legacy-db", "linked");
    assert!(!cascade_begin(Cascade::Suspend, &mut r, &mut summary, NOW));
    assert_eq!(r.rec.state, "linked");
    assert!(!cascade_begin(Cascade::Destroy, &mut r, &mut summary, NOW));
    assert_eq!(r.rec.state, "destroyed");
    assert_eq!(summary.destroyed, vec!["legacy-db"]);
}

#[test]
fn a_context_comes_back_from_its_tags() {
    let ctx = ResourceContext::from_registration(&reg("poc"), "aws", "1");
    let tags = ctx.tags();
    let back = ctx_from_record(PID, &tags);
    assert_eq!(back.owner, ctx.owner);
    assert_eq!(back.cost_center, "CC-100");
    assert_eq!(back.cloud, "aws");
    assert_eq!(back.account, "1");
}

// --- whole requests ---------------------------------------------------------

/// A request put on record and driven to its end by the stub.
fn provision(s: &ProvisionService, rows: &mut Vec<ResourceRow>, q: NewRequest, id: &str) -> usize {
    let mut req = filed(State::Approved, q);
    req.id = format!("req-{id}");
    let step = s.enqueue(rows, &reg("poc"), &req, id, NOW).unwrap();
    drive(s, &mut rows[step.place], "w1");
    step.place
}

/// What one worker does with a row; whether it was the one to do it.
fn drive(s: &ProvisionService, row: &mut ResourceRow, worker: &str) -> bool {
    let Some(action) = drive_action(&row.rec.state) else {
        return false;
    };
    let expected = row.rec.state.clone();
    if !row.claim(&expected, worker, PAST, NOW) {
        return false;
    }
    let stub = StubProvisioner::new();
    let ask = s.run_apply(&row.rec, None, stub.supports(&row.rec.rtype)).unwrap();
    let made = stub.apply(&ask);
    let policy = s.retry_policy_for(&row.rec.rtype);
    settle(row, action, Ok(made.outputs), &policy, FUTURE, NOW);
    true
}

fn committed(s: &ProvisionService, rows: &Vec<ResourceRow>, rtype: &str, name: &str, spec: &Json) -> Usd {
    let num = |u: &Usd| f64::from_bits(u.bits);
    let so_far: f64 = estimates_that_count(rows, PID, true).iter().map(num).sum();
    let own = get_active_by_name(rows, PID, rtype, name)
        .map(|at| num(&rows[at].rec.est_monthly_usd))
        .unwrap_or(0.0);
    let est = num(&s.catalog().get(rtype).unwrap().resolve(spec).estimated_monthly_usd);
    usd(so_far + est - own)
}

#[test]
fn resource_cloud_comes_from_its_manifest_not_the_default() {
    let mut c = ServiceCatalog::new();
    let mut s3 = manifest("s3-bucket", 5.0);
    s3.provisioner.config.insert_str("cloud", "aws");
    c.add(s3).unwrap();
    let mut s = ProvisionService::new(c);
    s.set_auto_approve(ceiling("poc", 500.0));
    let spec = json("{\"name\":\"assets\"}");
    let q = s.request(&reg("poc"), "s3-bucket", "assets", &spec, "user:default/a", usd(5.0)).unwrap();
    let mut rows = vec![];
    let at = provision(&s, &mut rows, q, "res-1");
    assert_eq!(rows[at].rec.tags.get("cloud").map(String::as_str), Some("aws"));
}

#[test]
fn review_resource_parks_for_approval_then_fulfills() {
    let mut c = ServiceCatalog::new();
    let mut rds = manifest("rds-postgres", 15.0);
    rds.long_running = true;
    c.add(rds).unwrap();
    let mut s = ProvisionService::new(c);
    s.set_auto_approve(ceiling("poc", 1.0));
    let spec = json("{\"name\":\"maindb\"}");
    let q = s.request(&reg("poc"), "rds-postgres", "maindb", &spec, "user:default/a", usd(15.0)).unwrap();
    assert_eq!(q.payload.get_str("provision_tier"), Some("review"));
    assert_eq!(after_submit(State::Requested), AfterSubmit::AwaitApproval);

    let mut req = filed(State::Requested, q);
    assert!(s.fulfill(&req, false).is_err());
    req.state = State::Approved;
    match s.fulfill(&req, false).unwrap() {
        FulfillStep::Enqueue { project_id, wait_secs } => {
            assert_eq!((project_id.as_str(), wait_secs), (PID, 0));
        }
        other => panic!("expected work, got {other:?}"),
    }
    let mut rows = vec![];
    let step = s.enqueue(&mut rows, &reg("poc"), &req, "res-1", NOW).unwrap();
    assert_eq!(rows[step.place].rec.state, "provisioning");
    assert!(drive(&s, &mut rows[step.place], "w1"));
    assert_eq!(rows[step.place].rec.state, "provisioned");
    assert_eq!(rows[step.place].rec.rtype, "rds-postgres");
    req.state = State::Fulfilled;
    assert!(matches!(s.fulfill(&req, true), Ok(FulfillStep::Done)));
}

#[test]
fn poc_under_limits_provisions_the_full_stack_unattended() {
    let mut c = catalog();
    c.add(manifest("ecr-repository", 1.0)).unwrap();
    let mut s = ProvisionService::new(c);
    s.set_auto_approve(ceiling("poc", 500.0));
    let mut rows: Vec<ResourceRow> = vec![];
    for (rtype, name, spec) in [
        ("ecr-repository", "app", "{\"name\":\"app\"}"),
        ("s3-bucket", "assets", "{\"name\":\"assets\"}"),
        ("dynamodb-table", "kv", "{\"name\":\"kv\",\"pk_name\":\"id\"}"),
        ("ec2-instance", "worker", "{\"name\":\"worker\",\"instance_type\":\"t3.micro\"}"),
        ("ecs-task", "job", "{\"name\":\"job\",\"image\":\"stub/app:latest\"}"),
    ] {
        let spec = json(spec);
        let sum = committed(&s, &rows, rtype, name, &spec);
        let q = s.request(&reg("poc"), rtype, name, &spec, "agent:default/builder", sum).unwrap();
        assert_eq!(q.payload.get_str("provision_tier"), Some("self_service"), "{rtype}");
        let at = provision(&s, &mut rows, q, &format!("id-{name}"));
        assert_eq!(rows[at].rec.state, "provisioned", "{rtype}");
    }
    assert_eq!(list_by_project(&rows, PID).len(), 5);
}

#[test]
fn drive_core_provisions_an_orphaned_row() {
    let s = service();
    let mut orphan = row("orphan", "provisioning");
    assert!(drive(&s, &mut orphan, "w1"));
    assert_eq!(orphan.rec.state, "provisioned");
    assert!(!drive(&s, &mut orphan, "w1"));
}

#[test]
fn request_returns_provisioning_while_apply_is_in_flight() {
    let mut s = service();
    s.set_wait_budget_secs(0);
    let spec = json("{\"name\":\"blk\"}");
    let q = s.request(&reg("poc"), "s3-bucket", "blk", &spec, "user:default/a", usd(5.0)).unwrap();
    let req = filed(State::Approved, q);
    let mut rows = vec![];
    let step = s.enqueue(&mut rows, &reg("poc"), &req, "res-1", NOW).unwrap();
    assert_eq!(s.budget_for("s3-bucket"), 0);
    assert!(wait_is_over(&rows[step.place].rec.state, true));
    assert!(!wait_is_over(&rows[step.place].rec.state, false));
    assert_eq!(rows[step.place].rec.state, "provisioning");
    assert_eq!(rows[step.place].rec.tags.get("project").map(String::as_str), Some(PID));
    assert!(drive(&s, &mut rows[step.place], "w1"));
    assert!(wait_is_over(&rows[step.place].rec.state, false));
    assert_eq!(rows[step.place].rec.state, "provisioned");
}

#[test]
fn concurrent_drives_apply_exactly_once() {
    let s = service();
    let mut race = row("race", "provisioning");
    assert!(race.claim("provisioning", "a", PAST, NOW));
    assert!(!drive(&s, &mut race, "b"));
    assert_eq!(race.worker_owner.as_deref(), Some("a"));
    let policy = s.retry_policy_for("s3-bucket");
    settle(&mut race, Action::Apply, Ok(Json::object()), &policy, FUTURE, NOW);
    assert!(!drive(&s, &mut race, "b"));
    assert_eq!(race.rec.state, "provisioned");
}

#[test]
fn deploy_image_does_not_double_count_ceiling() {
    let mut s = service();
    s.set_auto_approve(ceiling("poc", 8.0));
    let mut rows: Vec<ResourceRow> = vec![];
    let spec = json("{\"name\":\"web\",\"image\":\"repo:v1\"}");
    let sum = committed(&s, &rows, "ecs-task", "web", &spec);
    let q = s.request(&reg("poc"), "ecs-task", "web", &spec, "user:default/a", sum).unwrap();
    let at = provision(&s, &mut rows, q, "res-1");

    let bumped = json("{\"name\":\"web\",\"image\":\"repo:v2\"}");
    let sum = committed(&s, &rows, "ecs-task", "web", &bumped);
    let q = s
        .deploy_image(&reg("poc"), "res-1", Some(&rows[at].rec), "repo:v2", "user:default/a", sum)
        .unwrap();
    assert_eq!(q.payload.get_str("provision_tier"), Some("self_service"));
    let again = provision(&s, &mut rows, q, "res-2");
    assert_eq!((again, rows.len()), (at, 1));
    assert_eq!(rows[at].rec.spec.get_str("image"), Some("repo:v2"));
}

#[test]
fn unregistered_project_cannot_request() {
    let known = ProjectRegistry::new(GroupAllowlist::default(), RegistrationPolicy::default());
    assert!(matches!(
        known.require_active("proj-2026-9999"),
        Err(RegistryError::NotRegistered(_))
    ));
}
