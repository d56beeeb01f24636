use asgard::json::Json;
use asgard::registry::approvals::{
    after_deferred_submit, failed_review, finalize, has_exception, needs_panel, open_promotions,
    pre_review_state, promotion_request, record_review, remember_state, still_reviewing, Deferral,
    Finalize, ReviewerOutcome,
};
use asgard::registry::evidence::{decode_list, encode_list, Evidence};
use asgard::registry::governance::GovernanceConfig;
use asgard::registry::groups::{
    default_true, is_placeholder, normalize_email, GroupAllowlist, GroupEntry, RegistrationPolicy,
};
use asgard::registry::promotion::{
    checklist, evaluate, next_tier, tier_rank, validate_step, ClassificationRequirements,
};
use asgard::registry::register::{
    check_evidence_update, check_registration, counter_scope, mint_project_id, year_of,
    BudgetChange, ProjectUpdate, RegisterInput,
};
use asgard::registry::review::{set_initial, sweep, Extension, ReviewConfig, SweepRow};
use asgard::registry::review_jobs::{after_run, AfterRun, ReviewJobs};
use asgard::registry::service::{project_entity, ProjectRegistry};
use asgard::registry::workflow::{NewRequest, State, WorkflowRequest};
use asgard::registry::{Registration, RegistryError};
use asgard::sorted_map::SortedMap;
use asgard::usd::Usd;

const NOW: &str = "2026-06-03T00:00:00.000Z";
const LATER: &str = "2026-09-01T00:00:00.000Z";

fn usd(v: f64) -> Usd {
    Usd { bits: v.to_bits() }
}

fn entry(key: &str, name: &str, cost_center: &str) -> GroupEntry {
    GroupEntry {
        key: key.to_string(),
        display_name: name.to_string(),
        cost_center: cost_center.to_string(),
        active: true,
    }
}

fn registry() -> ProjectRegistry {
    let allow = GroupAllowlist::new(vec![
        entry("platform", "Platform", "CC-100"),
        entry("research", "Research", "CC-200"),
    ]);
    ProjectRegistry::new(allow, RegistrationPolicy::default())
}

fn input() -> RegisterInput {
    RegisterInput {
        name: "Fraud Detection".to_string(),
        owner_email: "alice@corp.example".to_string(),
        manager_email: "bob@corp.example".to_string(),
        group: "platform".to_string(),
        classification: None,
        data_class: None,
        budget_usd: Some(usd(50.0)),
        description: Some("Detect fraud".to_string()),
        evidence: Evidence::default(),
    }
}

fn light_ready_input() -> RegisterInput {
    let mut i = input();
    let ev = &mut i.evidence;
    ev.repo_or_source_url = "https://git".to_string();
    ev.business_owner = "biz@corp.example".to_string();
    ev.technical_owner = "tech@corp.example".to_string();
    ev.team_or_org_of_record = "Platform".to_string();
    ev.support_contact = "oncall@corp.example".to_string();
    ev.runbook_url = "https://runbook".to_string();
    ev.monitoring_or_logs_url = "https://logs".to_string();
    ev.ci_status_url = "N/A".to_string();
    ev.primary_data_flows = vec!["s3 -> warehouse".to_string()];
    ev.critical_flow_test_or_eval_url = "https://eval".to_string();
    ev.state_loss_posture = "stateless".to_string();
    ev.requested_classification = "light-operational".to_string();
    i
}

fn wide_ready_input() -> RegisterInput {
    let mut i = light_ready_input();
    let ev = &mut i.evidence;
    ev.security_review_status = "approved".to_string();
    ev.architecture_summary_url = "https://arch".to_string();
    ev.critical_dependencies = vec!["postgres".to_string()];
    ev.incident_path = "pagerduty".to_string();
    ev.slo_or_service_target = "99.9".to_string();
    ev.rpo_rto = "1h/4h".to_string();
    ev.decommission_path = "documented".to_string();
    i
}

fn no_update() -> ProjectUpdate {
    ProjectUpdate {
        name: None,
        description: None,
        budget_usd: None,
        owner_email: None,
        manager_email: None,
    }
}

fn filed(id: &str, state: State, n: NewRequest) -> WorkflowRequest {
    WorkflowRequest {
        id: id.to_string(),
        kind: n.kind,
        requester: n.requester,
        subject: n.subject,
        state,
        payload: n.payload,
        approver: None,
        reason: None,
    }
}

fn message(r: Result<String, RegistryError>) -> String {
    match r {
        Ok(id) => panic!("registered as {id}"),
        Err(RegistryError::Validation(m)) => m,
        Err(e) => e.message(),
    }
}

// --- registering ------------------------------------------------------------

#[test]
fn register_mints_id_and_sets_defaults() {
    let mut r = registry();
    let id = r.register(input(), NOW, LATER).unwrap();
    assert!(id.starts_with("proj-"));
    assert_eq!(id, "proj-2026-0001");
    let reg = r.get(&id).unwrap();
    assert_eq!(reg.project_id, id);
    assert_eq!(reg.name, "Fraud Detection");
    assert_eq!(reg.classification, "poc");
    assert_eq!(reg.data_class, "internal");
    assert_eq!(reg.cost_center, "CC-100");
    assert_eq!(reg.group, "platform");
    assert!(reg.registered);
    assert!(!reg.killed);
    assert_eq!(reg.lifecycle, "active");
    assert_eq!(reg.budget_usd.bits, 50.0f64.to_bits());
    assert_eq!(reg.spent_usd.bits, 0);
    assert_eq!(reg.created_at, NOW);
    assert_eq!(reg.description, "Detect fraud");
}

#[test]
fn ids_are_monotonic_per_year() {
    let mut r = registry();
    let a = r.register(input(), NOW, LATER).unwrap();
    let b = r.register(input(), NOW, LATER).unwrap();
    assert_ne!(a, b);
    assert!(b.ends_with("0002"));
    let c = r.register(input(), "2027-01-01T00:00:00.000Z", LATER).unwrap();
    assert_eq!(c, "proj-2027-0001");
    assert_eq!(r.list(), vec![a, b, c]);
}

#[test]
fn ids_keep_growing_past_four_digits() {
    assert_eq!(year_of(NOW), "2026");
    assert_eq!(counter_scope("2026"), "project-2026");
    assert_eq!(mint_project_id("2026", 7), "proj-2026-0007");
    assert_eq!(mint_project_id("2026", 12345), "proj-2026-12345");
    assert_ne!(mint_project_id("2026", 1), mint_project_id("2026", 10));
}

#[test]
fn a_refused_registration_takes_no_number() {
    let mut r = registry();
    let mut i = input();
    i.owner_email = "nobody".to_string();
    assert!(r.register(i, NOW, LATER).is_err());
    assert_eq!(r.register(input(), NOW, LATER).unwrap(), "proj-2026-0001");
}

#[test]
fn owner_may_self_manage() {
    let mut r = registry();
    let mut i = input();
    i.manager_email = i.owner_email.clone();
    let id = r.register(i, NOW, LATER).unwrap();
    let reg = r.get(&id).unwrap();
    assert_eq!(reg.owner, reg.manager);
}

#[test]
fn manager_omitted_defaults_to_owner_when_optional() {
    let allow = GroupAllowlist::new(vec![entry("platform", "Platform", "CC-100")]);
    let mut r = ProjectRegistry::new(
        allow,
        RegistrationPolicy { require_manager: false, require_group: true },
    );
    let mut i = input();
    i.manager_email = String::new();
    let id = r.register(i, NOW, LATER).unwrap();
    let reg = r.get(&id).unwrap();
    assert_eq!(reg.manager, reg.owner);
}

#[test]
fn manager_required_by_default() {
    let mut r = registry();
    let mut i = input();
    i.manager_email = String::new();
    assert_eq!(message(r.register(i, NOW, LATER)), "manager_email is required");
}

#[test]
fn group_optional_stores_ungrouped() {
    let mut r = ProjectRegistry::new(
        GroupAllowlist::default(),
        RegistrationPolicy { require_manager: false, require_group: false },
    );
    let mut i = input();
    i.group = String::new();
    let id = r.register(i, NOW, LATER).unwrap();
    let reg = r.get(&id).unwrap();
    assert_eq!(reg.group, "");
    assert_eq!(reg.cost_center, "");
}

#[test]
fn is_authority_follows_owner_manager() {
    let mut r = registry();
    let id = r.register(input(), NOW, LATER).unwrap();
    assert!(r.is_authority(&id, "alice@corp.example", false));
    assert!(r.is_authority(&id, "bob@corp.example", false));
    assert!(!r.is_authority(&id, "stranger@corp.example", false));
    assert!(r.is_authority("proj-2026-9999", "x@corp.example", true));
    assert!(!r.is_authority("proj-2026-9999", "x@corp.example", false));
}

#[test]
fn group_must_be_in_allowlist() {
    let mut r = registry();
    let mut i = input();
    i.group = "not-a-real-group".to_string();
    assert!(matches!(r.register(i, NOW, LATER), Err(RegistryError::Validation(_))));
}

#[test]
fn require_active_gates_unregistered_and_decommissioned() {
    let mut r = registry();
    assert!(matches!(r.require_active("proj-2026-9999"), Err(RegistryError::NotRegistered(_))));
    let id = r.register(input(), NOW, LATER).unwrap();
    assert!(r.require_active(&id).is_ok());
    r.decommission(&id).unwrap();
    assert!(matches!(r.require_active(&id), Err(RegistryError::Inactive(_))));
    assert!(matches!(r.decommission(&id), Err(RegistryError::Inactive(_))));
    assert_eq!(r.get(&id).unwrap().lifecycle, "decommissioned");
}

#[test]
fn open_allowlist_accepts_any_group() {
    let mut r = ProjectRegistry::new(GroupAllowlist::default(), RegistrationPolicy::default());
    assert!(r.allowlist().is_open());
    let mut i = input();
    i.group = "anything-goes".to_string();
    let id = r.register(i, NOW, LATER).unwrap();
    let reg = r.get(&id).unwrap();
    assert_eq!(reg.group, "anything-goes");
    assert_eq!(reg.cost_center, "anything-goes");
}

#[test]
fn the_checks_come_in_order() {
    let mut r = registry();
    let mut i = input();
    i.name = "CHANGE_ME".to_string();
    i.owner_email = "nobody".to_string();
    assert_eq!(
        message(r.register(i, NOW, LATER)),
        "project name is required and must not be a template placeholder"
    );
    let mut i = input();
    i.owner_email = "nobody".to_string();
    i.group = String::new();
    assert_eq!(
        message(r.register(i, NOW, LATER)),
        "'nobody' is not a well-formed email address"
    );
    let mut i = input();
    i.group = "  ".to_string();
    i.classification = Some("gold".to_string());
    assert_eq!(message(r.register(i, NOW, LATER)), "group is required");
    let mut i = input();
    i.classification = Some("gold".to_string());
    i.data_class = Some("secret".to_string());
    assert_eq!(
        message(r.register(i, NOW, LATER)),
        "classification must be one of: poc, light-operational, wide-operational, critical-path"
    );
    let mut i = input();
    i.data_class = Some("secret".to_string());
    assert!(message(r.register(i, NOW, LATER)).starts_with("data_class must be one of: "));
    let mut i = input();
    i.budget_usd = Some(usd(-0.01));
    assert_eq!(message(r.register(i, NOW, LATER)), "budget_usd must be >= 0");
    let mut i = input();
    i.budget_usd = Some(usd(-0.0));
    assert!(r.register(i, NOW, LATER).is_ok());
}

#[test]
fn inactive_groups_are_not_offered() {
    let mut old = entry("legacy", "Legacy", "");
    old.active = false;
    let allow = GroupAllowlist::new(vec![old, entry("platform", "Platform", "")]);
    assert_eq!(allow.active_keys(), vec!["platform"]);
    assert!(allow.resolve("legacy").is_err());
    assert_eq!(allow.resolve("platform").unwrap().resolved_cost_center(), "platform");
    assert_eq!(allow.entries().len(), 2);
    assert!(default_true());
}

#[test]
fn placeholders_are_spotted() {
    assert!(is_placeholder("TODO"));
    assert!(is_placeholder("my change_me project"));
    assert!(!is_placeholder("todo list"));
    let policy = RegistrationPolicy::default();
    let mut i = input();
    i.name = "  Your Project Name ".to_string();
    assert!(check_registration(&i, &policy, &GroupAllowlist::default()).is_err());
}

#[test]
fn email_format_is_checked() {
    assert!(normalize_email("a@b.com").is_ok());
    assert!(normalize_email("no-at-sign").is_err());
    assert!(normalize_email("a@nodot").is_err());
    assert!(normalize_email("@b.com").is_err());
    assert_eq!(normalize_email("  Alice@Corp.Example ").unwrap(), "alice@corp.example");
    assert_eq!(normalize_email("alice@corp.example").unwrap(), "alice@corp.example");
    assert!(normalize_email("a@b..com").is_err());
    assert!(normalize_email("a@.b.com").is_err());
}

#[test]
fn evidence_round_trips_on_register() {
    let mut r = registry();
    let mut i = input();
    i.evidence.support_contact = "oncall@corp.example".to_string();
    i.evidence.security_review_status = "approved".to_string();
    i.evidence.maintainers =
        vec!["alice@corp.example".to_string(), "bob@corp.example".to_string()];
    i.evidence.primary_data_flows = vec!["s3 -> warehouse".to_string()];
    let id = r.register(i, NOW, LATER).unwrap();
    let got = r.get(&id).unwrap();
    assert_eq!(got.evidence.support_contact, "oncall@corp.example");
    assert_eq!(got.evidence.security_review_status, "approved");
    assert_eq!(got.evidence.maintainers.len(), 2);
    assert_eq!(got.evidence.primary_data_flows, vec!["s3 -> warehouse"]);
    assert_eq!(got.evidence.runbook_url, "");
    assert!(got.evidence.critical_dependencies.is_empty());
}

#[test]
fn evidence_comes_back_from_its_columns() {
    let i = wide_ready_input();
    let columns = i.evidence.columns();
    assert_eq!(columns.len(), 26);
    let values: Vec<String> = columns.iter().map(|c| c.1.clone()).collect();
    let back = Evidence::from_row(&values);
    assert_eq!(back.runbook_url, "https://runbook");
    assert_eq!(back.critical_dependencies, vec!["postgres"]);
    assert_eq!(back.primary_data_flows, vec!["s3 -> warehouse"]);
    assert_eq!(back.decommission_path, "documented");
    assert!(back.maintainers.is_empty());
}

#[test]
fn lists_are_written_as_json() {
    let items = vec!["a \"b\"".to_string(), String::new(), "ü".to_string()];
    assert_eq!(encode_list(&items), "[\"a \\\"b\\\"\",\"\",\"ü\"]");
    assert_eq!(decode_list(&encode_list(&items)), items);
    assert!(decode_list("").is_empty());
    assert!(decode_list("not json").is_empty());
    assert!(decode_list("[1, 2]").is_empty());
}

#[test]
fn update_evidence_replaces_and_requires_existing() {
    let mut r = registry();
    let id = r.register(input(), NOW, LATER).unwrap();
    let mut ev = Evidence::default();
    ev.runbook_url = "https://runbook".to_string();
    ev.critical_dependencies = vec!["postgres".to_string()];
    r.update_evidence(&id, ev).unwrap();
    assert_eq!(r.get(&id).unwrap().evidence.runbook_url, "https://runbook");
    assert_eq!(r.get(&id).unwrap().evidence.critical_dependencies, vec!["postgres"]);
    let mut ev = Evidence::default();
    ev.critical_dependencies = vec!["postgres".to_string()];
    r.update_evidence(&id, ev).unwrap();
    assert_eq!(r.get(&id).unwrap().evidence.runbook_url, "");
    assert!(matches!(
        r.update_evidence("proj-2026-9999", Evidence::default()),
        Err(RegistryError::NotRegistered(_))
    ));
}

#[test]
fn evidence_enum_is_validated() {
    let mut r = registry();
    let mut i = input();
    i.evidence.security_review_status = "totally-bogus".to_string();
    assert!(matches!(r.register(i, NOW, LATER), Err(RegistryError::Validation(_))));
    let id = r.register(input(), NOW, LATER).unwrap();
    let mut bad = Evidence::default();
    bad.state_loss_posture = "nope".to_string();
    assert!(check_evidence_update(&id, true, &bad).is_err());
    assert!(matches!(r.update_evidence(&id, bad), Err(RegistryError::Validation(_))));
}

// --- changing ---------------------------------------------------------------

#[test]
fn update_project_renames_without_changing_id_or_evidence() {
    let mut r = registry();
    let mut i = light_ready_input();
    i.classification = Some("light-operational".to_string());
    let id = r.register(i, NOW, LATER).unwrap();
    let mut u = no_update();
    u.name = Some("Production Aurora".to_string());
    r.update_project(&id, &u, Some(usd(2500.0)), "user:lead", "", "").unwrap();
    let updated = r.get(&id).unwrap();
    assert_eq!(updated.project_id, id);
    assert_eq!(updated.name, "Production Aurora");
    assert_eq!(updated.description, "Detect fraud");
    assert_eq!(updated.evidence.business_owner, "biz@corp.example");
}

#[test]
fn update_project_transfers_owner_and_manager() {
    let mut r = registry();
    let id = r.register(input(), NOW, LATER).unwrap();
    let mut u = no_update();
    u.owner_email = Some("carol@corp.example".to_string());
    r.update_project(&id, &u, Some(usd(500.0)), "user:admin", "", "").unwrap();
    assert_eq!(r.get(&id).unwrap().owner, "carol@corp.example");
    assert_eq!(r.get(&id).unwrap().manager, "bob@corp.example");
    let mut u = no_update();
    u.manager_email = Some("dave@corp.example".to_string());
    r.update_project(&id, &u, Some(usd(500.0)), "user:admin", "", "").unwrap();
    assert_eq!(r.get(&id).unwrap().owner, "carol@corp.example");
    assert_eq!(r.get(&id).unwrap().manager, "dave@corp.example");
}

#[test]
fn budget_within_ceiling_applies_above_routes_to_review() {
    let mut r = registry();
    let id = r.register(input(), NOW, LATER).unwrap();
    let mut u = no_update();
    u.budget_usd = Some(usd(400.0));
    let done = r.update_project(&id, &u, Some(usd(500.0)), "user:lead", "400", "50").unwrap();
    assert!(matches!(done, BudgetChange::Apply(_)));
    assert_eq!(r.get(&id).unwrap().budget_usd.bits, 400.0f64.to_bits());

    u.budget_usd = Some(usd(900.0));
    let done = r.update_project(&id, &u, Some(usd(500.0)), "user:lead", "900", "400").unwrap();
    assert_eq!(r.get(&id).unwrap().budget_usd.bits, 400.0f64.to_bits());
    let n = match done {
        BudgetChange::Review(n) => n,
        other => panic!("expected review, got {other:?}"),
    };
    assert_eq!(n.kind, "budget");
    assert_eq!(n.subject, format!("budget/{id}"));
    assert_eq!(n.payload.get_str("requested_budget"), Some("900"));
    assert_eq!(n.payload.get_str("current_budget"), Some("400"));
    assert_eq!(n.sla_seconds, Some(604800));

    let mut req = filed("r1", State::Requested, n);
    assert_eq!(
        message(r.fulfill_budget(&req, Some(usd(900.0)))),
        "request is requested, must be approved before applying"
    );
    req.state = State::Approved;
    assert_eq!(message(r.fulfill_budget(&req, None)), "request has no requested_budget");
    assert_eq!(r.fulfill_budget(&req, Some(usd(900.0))).unwrap(), id);
    assert_eq!(r.get(&id).unwrap().budget_usd.bits, 900.0f64.to_bits());
}

#[test]
fn lowering_a_budget_needs_nobody() {
    let mut r = registry();
    let id = r.register(input(), NOW, LATER).unwrap();
    let mut u = no_update();
    u.budget_usd = Some(usd(10.0));
    let done = r.update_project(&id, &u, None, "u", "10", "50").unwrap();
    assert!(matches!(done, BudgetChange::Apply(_)));
    u.budget_usd = Some(usd(11.0));
    let done = r.update_project(&id, &u, None, "u", "11", "10").unwrap();
    assert!(matches!(done, BudgetChange::Review(_)));
}

#[test]
fn a_refused_update_keeps_what_came_before() {
    let mut r = registry();
    let id = r.register(input(), NOW, LATER).unwrap();
    let mut u = no_update();
    u.name = Some("New".to_string());
    u.budget_usd = Some(usd(-1.0));
    assert!(r.update_project(&id, &u, None, "u", "-1", "50").is_err());
    assert_eq!(r.get(&id).unwrap().name, "New");
    assert_eq!(r.get(&id).unwrap().budget_usd.bits, 50.0f64.to_bits());
    u.budget_usd = Some(usd(5.0));
    u.manager_email = Some("nobody".to_string());
    assert!(r.update_project(&id, &u, None, "u", "5", "50").is_err());
    assert_eq!(r.get(&id).unwrap().budget_usd.bits, 5.0f64.to_bits());
    assert_eq!(r.get(&id).unwrap().manager, "bob@corp.example");
    r.decommission(&id).unwrap();
    assert!(matches!(
        r.update_project(&id, &u, None, "u", "5", "5"),
        Err(RegistryError::Inactive(_))
    ));
}

// --- promotion --------------------------------------------------------------

fn reg_at(classification: &str) -> Registration {
    Registration {
        project_id: "proj-2026-0001".to_string(),
        name: "X".to_string(),
        owner: "alice@corp.example".to_string(),
        manager: "bob@corp.example".to_string(),
        group: "platform".to_string(),
        cost_center: "CC-100".to_string(),
        classification: classification.to_string(),
        data_class: "internal".to_string(),
        budget_usd: usd(0.0),
        spent_usd: usd(0.0),
        lifecycle: "active".to_string(),
        registered: true,
        killed: false,
        description: "d".to_string(),
        created_at: "2026-01-01T00:00:00.000Z".to_string(),
        review_date: String::new(),
        review_state: "ok".to_string(),
        review_extensions: 0,
        stack_exception_renewal_date: String::new(),
        evidence: Evidence::default(),
    }
}

fn light_ready() -> Registration {
    let mut r = reg_at("poc");
    let ev = &mut r.evidence;
    ev.repo_or_source_url = "https://git".to_string();
    ev.business_owner = "biz@corp.example".to_string();
    ev.technical_owner = "tech@corp.example".to_string();
    ev.team_or_org_of_record = "Platform".to_string();
    ev.support_contact = "oncall@corp.example".to_string();
    ev.runbook_url = "https://runbook".to_string();
    ev.monitoring_or_logs_url = "https://logs".to_string();
    ev.ci_status_url = "N/A: no CI yet".to_string();
    ev.primary_data_flows = vec!["s3 -> warehouse".to_string()];
    ev.critical_flow_test_or_eval_url = "https://eval".to_string();
    ev.state_loss_posture = "stateless".to_string();
    ev.requested_classification = "light-operational".to_string();
    r
}

#[test]
fn step_validation_one_up_only() {
    assert!(validate_step("poc", "light-operational").is_ok());
    assert!(validate_step("light-operational", "wide-operational").is_ok());
    assert!(validate_step("poc", "wide-operational").is_err());
    assert!(validate_step("poc", "poc").is_err());
    assert!(validate_step("wide-operational", "poc").is_err());
    assert!(validate_step("poc", "bogus").is_err());
}

#[test]
fn next_tier_walks_the_ladder() {
    assert_eq!(next_tier("poc"), Some("light-operational"));
    assert_eq!(next_tier("wide-operational"), Some("critical-path"));
    assert_eq!(next_tier("critical-path"), None);
    assert_eq!(tier_rank("critical-path"), Some(3));
    assert_eq!(tier_rank("gold"), None);
}

#[test]
fn light_clean_pass_auto_approvable() {
    let reqs = ClassificationRequirements::default();
    let v = evaluate(&light_ready(), "light-operational", &reqs);
    assert!(v.evidence_complete, "missing: {:?}", v.missing);
    assert!(v.exception_signals.is_empty(), "{:?}", v.exception_signals);
    assert!(v.auto_approvable());
    assert_eq!(v.unverified_signals.len(), 3);
}

#[test]
fn light_missing_field_blocks() {
    let reqs = ClassificationRequirements::default();
    let mut r = light_ready();
    r.evidence.runbook_url = String::new();
    let v = evaluate(&r, "light-operational", &reqs);
    assert!(!v.evidence_complete);
    assert!(v.missing.contains(&"runbook_url".to_string()));
    assert!(!v.auto_approvable());
    assert!(v.exception_signals.iter().any(|s| s.contains("missing or empty")));
}

#[test]
fn sensitive_data_without_review_is_an_exception() {
    let reqs = ClassificationRequirements::default();
    let mut r = light_ready();
    r.data_class = "restricted".to_string();
    let v = evaluate(&r, "light-operational", &reqs);
    assert!(v.evidence_complete);
    assert!(!v.auto_approvable());
    assert!(v.exception_signals.iter().any(|s| s.contains("security review")));
    r.evidence.security_review_status = "waived".to_string();
    let v2 = evaluate(&r, "light-operational", &reqs);
    assert!(v2.auto_approvable());
}

#[test]
fn stack_exception_forces_human() {
    let reqs = ClassificationRequirements::default();
    let mut r = light_ready();
    r.evidence.stack_exception = "uses an unsupported runtime".to_string();
    let v = evaluate(&r, "light-operational", &reqs);
    assert!(v.evidence_complete);
    assert!(!v.auto_approvable());
    assert!(v.exception_signals.iter().any(|s| s.contains("stack exception")));
}

#[test]
fn wide_requires_more_than_light() {
    let reqs = ClassificationRequirements::default();
    let v = evaluate(&light_ready(), "wide-operational", &reqs);
    assert!(!v.evidence_complete);
    assert!(v.missing.contains(&"architecture_summary_url".to_string()));
    assert!(v.missing.contains(&"decommission_path".to_string()));
}

#[test]
fn critical_requires_risk_acceptance_field() {
    let reqs = ClassificationRequirements::default();
    let v = evaluate(&reg_at("wide-operational"), "critical-path", &reqs);
    assert!(v.missing.contains(&"risk_acceptance_url".to_string()));
    assert!(v.missing.contains(&"executive_accountable_owner".to_string()));
}

#[test]
fn operator_override_replaces_one_tier() {
    let mut over: SortedMap<Vec<String>> = SortedMap::new();
    over.insert("light-operational", vec!["runbook_url".to_string()]);
    let reqs = ClassificationRequirements::from_overrides(over);
    let mut r = reg_at("poc");
    r.evidence.runbook_url = "https://rb".to_string();
    let v = evaluate(&r, "light-operational", &reqs);
    assert!(v.evidence_complete, "missing: {:?}", v.missing);
    assert_eq!(reqs.required_through("wide-operational").len(), 1 + 7);
}

#[test]
fn promotion_to_light_auto_approves_and_fulfills() {
    let mut r = registry();
    let id = r.register(light_ready_input(), NOW, LATER).unwrap();
    let v = r.request_promotion(&id, "light-operational").unwrap();
    assert!(v.auto_approvable());
    let outcome = Some(ReviewerOutcome::empty());
    let n = promotion_request(
        r.get(&id).unwrap(),
        "light-operational",
        &v,
        &outcome,
        "user:default/alice",
    );
    assert_eq!(n.kind, "promotion");
    assert_eq!(n.subject, format!("project:{id}"));
    assert!(matches!(n.payload.get("evidence_complete"), Some(Json::Bool(true))));
    assert!(matches!(n.payload.get("has_exception"), Some(Json::Bool(false))));
    assert!(matches!(
        finalize(State::Approved, State::Approved, "", false),
        Finalize::Rest
    ));
    let req = filed("r1", State::Approved, n);
    let p = r.fulfill_promotion(&req).unwrap();
    assert_eq!((p.from.as_str(), p.to.as_str()), ("poc", "light-operational"));
    assert!(p.evidence_changed);
    let after = r.get(&id).unwrap();
    assert_eq!(after.classification, "light-operational");
    assert_eq!(after.evidence.requested_classification, "");
    assert_eq!(after.evidence.runbook_url, "https://runbook");
}

#[test]
fn promotion_with_missing_evidence_returns_to_submitter() {
    let mut r = registry();
    let id = r.register(input(), NOW, LATER).unwrap();
    let v = r.request_promotion(&id, "light-operational").unwrap();
    let outcome = ReviewerOutcome::empty();
    assert!(has_exception(&v, &outcome));
    assert!(!needs_panel(&v));
    match finalize(State::Requested, State::Requested, "", true) {
        Finalize::Flag(reason) => assert_eq!(reason, "promotion blocked by review findings"),
        other => panic!("expected a flag, got {other:?}"),
    }
    let n = promotion_request(r.get(&id).unwrap(), "light-operational", &v, &Some(outcome), "u");
    let req = filed("r1", State::Flagged, n);
    assert!(r.fulfill_promotion(&req).is_err());
    assert_eq!(r.get(&id).unwrap().classification, "poc");
}

#[test]
fn clean_wide_routes_to_human_no_findings() {
    let mut r = registry();
    let id = r.register(wide_ready_input(), NOW, LATER).unwrap();
    let v = r.request_promotion(&id, "light-operational").unwrap();
    let n = promotion_request(r.get(&id).unwrap(), "light-operational", &v, &None, "u");
    r.fulfill_promotion(&filed("r1", State::Approved, n)).unwrap();
    let mut ev = wide_ready_input().evidence;
    ev.requested_classification = "wide-operational".to_string();
    r.update_evidence(&id, ev).unwrap();
    let v = r.request_promotion(&id, "wide-operational").unwrap();
    assert!(v.evidence_complete, "missing: {:?}", v.missing);
    assert!(v.exception_signals.is_empty());
    assert!(matches!(
        finalize(State::Requested, State::Requested, "", false),
        Finalize::Rest
    ));
}

#[test]
fn reviewer_concern_flags_clean_light_and_alerts() {
    let mut r = registry();
    let id = r.register(light_ready_input(), NOW, LATER).unwrap();
    let v = r.request_promotion(&id, "light-operational").unwrap();
    let outcome = ReviewerOutcome {
        passed: false,
        added_exception_signals: vec![
            "llm-judge: ci_status_url 'N/A' is a placeholder, not evidence".to_string(),
        ],
        findings: vec!["ci_status_url 'N/A' is a placeholder, not evidence".to_string()],
        summary: "1 concern raised".to_string(),
        reviewer_ids: vec!["llm-judge".to_string()],
    };
    assert!(has_exception(&v, &outcome));
    match finalize(State::Approved, State::Approved, &outcome.summary, true) {
        Finalize::Flag(reason) => assert_eq!(reason, "1 concern raised"),
        other => panic!("expected a flag, got {other:?}"),
    }
    let n = promotion_request(r.get(&id).unwrap(), "light-operational", &v, &Some(outcome), "u");
    assert!(matches!(n.payload.get("review_passed"), Some(Json::Bool(false))));
    assert!(n.payload.get("review_findings").unwrap().get_item(0).is_some());
    assert_eq!(
        n.payload.get("reviewers_ran").unwrap().get_item(0).unwrap().as_str(),
        Some("llm-judge")
    );
    assert!(matches!(n.payload.get("has_exception"), Some(Json::Bool(true))));
}

#[test]
fn re_request_supersedes_open_promotion() {
    let make = |id: &str, state: State| {
        let n = NewRequest {
            kind: "promotion".to_string(),
            requester: "u".to_string(),
            subject: "project:p".to_string(),
            payload: Json::object(),
            sla_seconds: None,
        };
        filed(id, state, n)
    };
    let mut other = make("b", State::Requested);
    other.kind = "budget".to_string();
    let all = vec![
        make("r", State::Requested),
        make("f", State::Flagged),
        make("v", State::Reviewing),
        make("a", State::Approved),
        make("x", State::Cancelled),
        make("d", State::Fulfilled),
        make("n", State::Rejected),
        other,
    ];
    assert_eq!(open_promotions(&all), vec!["r", "f", "v"]);

    let mut reg = registry();
    let id = reg.register(light_ready_input(), NOW, LATER).unwrap();
    let concern = || ReviewerOutcome {
        passed: false,
        added_exception_signals: vec!["llm-judge: a placeholder".to_string()],
        findings: vec!["a placeholder".to_string()],
        summary: "1 concern raised".to_string(),
        reviewer_ids: vec!["llm-judge".to_string()],
    };
    let mut filed_so_far: Vec<WorkflowRequest> = Vec::new();
    for rid in ["first", "second"] {
        let v = reg.request_promotion(&id, "light-operational").unwrap();
        for open in open_promotions(&filed_so_far) {
            for r in filed_so_far.iter_mut().filter(|r| r.id == open) {
                r.state = State::Cancelled;
            }
        }
        let n = promotion_request(
            reg.get(&id).unwrap(),
            "light-operational",
            &v,
            &Some(concern()),
            "u",
        );
        let state = match finalize(State::Approved, State::Approved, "1 concern raised", true) {
            Finalize::Flag(_) => State::Flagged,
            other => panic!("expected a flag, got {other:?}"),
        };
        filed_so_far.push(filed(rid, state, n));
    }
    assert_eq!(filed_so_far[0].state, State::Cancelled);
    assert_eq!(open_promotions(&filed_so_far), vec!["second"]);
}

#[test]
fn re_request_supersedes_in_flight_review() {
    let mut r = registry();
    let id = r.register(light_ready_input(), NOW, LATER).unwrap();
    let ask = |rid: &str, state: State| {
        let v = r.request_promotion(&id, "light-operational").unwrap();
        let n = promotion_request(r.get(&id).unwrap(), "light-operational", &v, &None, "u");
        filed(rid, state, n)
    };
    let first = ask("r1", State::Reviewing);
    let mut all = vec![first];
    assert_eq!(open_promotions(&all), vec!["r1"]);
    all[0].state = State::Cancelled;
    assert!(!still_reviewing(&all[0]));
    all.push(ask("r2", State::Reviewing));
    assert_eq!(open_promotions(&all), vec!["r2"]);
}

#[test]
fn async_reviewer_parks_in_reviewing_and_enqueues() {
    let mut r = registry();
    let id = r.register(light_ready_input(), NOW, LATER).unwrap();
    let v = r.request_promotion(&id, "light-operational").unwrap();
    let mut n = promotion_request(r.get(&id).unwrap(), "light-operational", &v, &None, "u");
    assert!(n.payload.get("review_passed").is_none());
    assert_eq!(after_deferred_submit(State::Approved), Deferral::Park(State::Approved));
    assert_eq!(after_deferred_submit(State::Rejected), Deferral::Denied);
    remember_state(&mut n.payload, State::Approved);
    let req = filed("r1", State::Reviewing, n);
    assert_eq!(req.payload.get_str("pre_review_state"), Some("approved"));
    assert!(still_reviewing(&req));
    assert_eq!(pre_review_state(&req), State::Approved);

    let mut jobs = ReviewJobs::new();
    jobs.enqueue("j1", "r1", &id, "light-operational", NOW);
    let job = jobs.latest_for_request("r1").unwrap();
    assert_eq!(job.status, "pending");
    assert_eq!(job.target, "light-operational");

    match finalize(State::Reviewing, pre_review_state(&req), "", false) {
        Finalize::Resolve(s) => assert_eq!(s, State::Approved),
        other => panic!("expected to resolve, got {other:?}"),
    }
    let mut done = req;
    done.state = State::Approved;
    r.fulfill_promotion(&done).unwrap();
    assert_eq!(r.get(&id).unwrap().classification, "light-operational");
}

#[test]
fn async_reviewer_findings_flag_and_persist() {
    let outcome = ReviewerOutcome {
        passed: false,
        added_exception_signals: vec!["code-review: violates standards".to_string()],
        findings: vec!["unhandled error path".to_string()],
        summary: "1 finding(s)".to_string(),
        reviewer_ids: vec!["code-review".to_string()],
    };
    let v = evaluate(&light_ready(), "light-operational", &ClassificationRequirements::default());
    assert!(has_exception(&v, &outcome));
    assert!(matches!(
        finalize(State::Reviewing, State::Approved, &outcome.summary, true),
        Finalize::Flag(_)
    ));
    assert!(matches!(
        finalize(State::Flagged, State::Approved, &outcome.summary, true),
        Finalize::StayFlagged
    ));
    let mut payload = Json::object();
    record_review(&mut payload, &outcome);
    assert_eq!(payload.get_str("review_summary"), Some("1 finding(s)"));
    let failed = failed_review("boom");
    assert!(!failed.passed);
    assert_eq!(failed.reviewer_ids, vec!["code-review"]);
}

#[test]
fn settled_promotions_are_left_alone() {
    for s in [State::Rejected, State::Cancelled, State::Fulfilled] {
        assert!(matches!(finalize(s, State::Approved, "x", true), Finalize::Leave));
        assert!(matches!(finalize(s, State::Approved, "x", false), Finalize::Leave));
    }
}

#[test]
fn states_are_found_by_their_names() {
    for s in [
        State::Requested,
        State::Approved,
        State::Rejected,
        State::Fulfilled,
        State::Cancelled,
        State::Flagged,
        State::Reviewing,
    ] {
        assert_eq!(State::parse(s.as_str()), Some(s));
    }
    assert_eq!(State::parse("open"), None);
}

#[test]
fn two_step_jump_is_rejected() {
    let mut r = registry();
    let id = r.register(light_ready_input(), NOW, LATER).unwrap();
    assert!(matches!(
        r.request_promotion(&id, "wide-operational"),
        Err(RegistryError::Validation(_))
    ));
    assert!(matches!(
        r.request_promotion("proj-2026-9999", "light-operational"),
        Err(RegistryError::NotRegistered(_))
    ));
}

#[test]
fn demote_requires_reason_and_downward_target() {
    let mut r = registry();
    let mut i = light_ready_input();
    i.classification = Some("light-operational".to_string());
    let id = r.register(i, NOW, LATER).unwrap();
    assert!(matches!(r.demote(&id, "poc", "  "), Err(RegistryError::Validation(_))));
    assert!(matches!(r.demote(&id, "wide-operational", "x"), Err(RegistryError::Validation(_))));
    assert!(matches!(r.demote(&id, "gold", "x"), Err(RegistryError::Validation(_))));
    assert!(matches!(r.demote("nope", "poc", "x"), Err(RegistryError::NotRegistered(_))));
    assert_eq!(
        r.demote(&id, "poc", "scope reduced to a prototype").unwrap(),
        "light-operational"
    );
    assert_eq!(r.get(&id).unwrap().classification, "poc");
}

#[test]
fn checklist_reports_next_tier_and_gaps() {
    let mut r = registry();
    let id = r.register(input(), NOW, LATER).unwrap();
    let cl = r.promotion_checklist(&id).unwrap();
    assert_eq!(cl.current, "poc");
    assert_eq!(cl.next_tier.as_deref(), Some("light-operational"));
    let v = cl.verdict.unwrap();
    assert!(!v.evidence_complete);
    assert!(!v.missing.is_empty());
    assert!(r.promotion_checklist("nope").is_err());
    let top = checklist(&reg_at("critical-path"), r.requirements());
    assert!(top.next_tier.is_none() && top.verdict.is_none());
}

// --- reviews ----------------------------------------------------------------

#[test]
fn poc_gets_a_review_deadline_at_registration() {
    let mut r = registry();
    let id = r.register(input(), NOW, LATER).unwrap();
    let reg = r.get(&id).unwrap();
    assert_eq!(reg.review_date, LATER);
    assert_eq!(reg.review_state, "ok");
    assert_eq!(set_initial("light-operational", LATER, " 2027-01-01 "), "2027-01-01");
    assert_eq!(set_initial("light-operational", LATER, ""), "");
}

#[test]
fn sweep_flags_overdue_review_once_and_blocks_nothing() {
    let mut r = registry();
    let id = r.register(input(), NOW, "2000-01-01T00:00:00.000Z").unwrap();
    let s1 = r.sweep(NOW);
    assert_eq!(s1.checked, 1);
    assert!(s1.newly_expired.contains(&id));
    let after = r.get(&id).unwrap();
    assert_eq!(after.review_state, "expired");
    assert_eq!(after.lifecycle, "active");
    assert!(r.require_active(&id).is_ok());
    let s2 = r.sweep(NOW);
    assert!(s2.newly_expired.is_empty());
    assert_eq!(s2.checked, 1);
}

#[test]
fn rows_are_swept_alike() {
    let mut rows = vec![SweepRow {
        project_id: "p".to_string(),
        registered: true,
        review_date: "2000-01-01T00:00:00.000Z".to_string(),
        review_state: "ok".to_string(),
        stack_exception: "legacy".to_string(),
        stack_exception_renewal_date: "2099-01-01T00:00:00.000Z".to_string(),
    }];
    let s = sweep(&mut rows, NOW);
    assert_eq!(s.newly_expired, vec!["p"]);
    assert!(s.expired_exceptions.is_empty());
    assert_eq!(rows[0].review_state, "expired");
    assert!(sweep(&mut rows, NOW).newly_expired.is_empty());
}

#[test]
fn first_extend_is_automatic_second_routes_to_human() {
    let mut r = registry();
    let id = r.register(input(), NOW, "2000-01-01T00:00:00.000Z").unwrap();
    r.sweep(NOW);
    match r.extend_review(&id, NOW, "u").unwrap() {
        Extension::Grant { base } => assert_eq!(base, "2000-01-01T00:00:00.000Z"),
        other => panic!("first extend should be automatic, got {other:?}"),
    }
    r.grant_extension(&id, LATER);
    let reg = r.get(&id).unwrap();
    assert_eq!(reg.review_extensions, 1);
    assert_eq!(reg.review_state, "ok");
    assert_eq!(reg.review_date, LATER);
    match r.extend_review(&id, NOW, "u").unwrap() {
        Extension::Ask(n) => {
            assert_eq!(n.kind, "review-extension");
            assert_eq!(n.subject, format!("project:{id}"));
        }
        other => panic!("second extend should route to a human, got {other:?}"),
    }
    let mut strict = r.with_review_config(ReviewConfig { poc_window_days: 30, auto_extensions: 5 });
    assert!(matches!(strict.extend_review(&id, NOW, "u"), Ok(Extension::Grant { .. })));
    strict.decommission(&id).unwrap();
    assert!(strict.extend_review(&id, NOW, "u").is_err());
}

#[test]
fn sweep_surfaces_stack_exception_without_renewal() {
    let mut r = registry();
    let mut i = input();
    i.evidence.stack_exception = "uses an unsupported runtime".to_string();
    let id = r.register(i, NOW, LATER).unwrap();
    let s = r.sweep(NOW);
    assert!(s.expired_exceptions.contains(&id));
}

// --- review jobs ------------------------------------------------------------

#[test]
fn enqueue_claim_finish_roundtrip() {
    let mut jobs = ReviewJobs::new();
    jobs.enqueue("j1", "r1", "p1", "light-operational", "2026-01-01");
    jobs.enqueue("j2", "r2", "p2", "light-operational", "2026-01-02");
    let job = jobs.claim_next("2026-02-01", "2026-01-03").unwrap();
    assert_eq!(job.id, "j1");
    assert_eq!(job.attempts, 1);
    assert_eq!(job.status, "running");
    assert_eq!(jobs.claim_next("2026-02-01", "2026-01-03").unwrap().id, "j2");
    assert!(jobs.claim_next("2026-02-01", "2026-01-03").is_none());
    jobs.finish("j1", "2026-01-04");
    assert_eq!(jobs.latest_for_request("r1").unwrap().status, "done");
}

#[test]
fn fail_retries_then_goes_terminal() {
    let mut jobs = ReviewJobs::new();
    jobs.enqueue("j1", "r1", "p1", "t", "2026-01-01");
    let job = jobs.claim_next("2026-02-01", "2026-01-01").unwrap();
    assert!(!jobs.fail("j1", "boom", job.attempts, 2, "2026-01-02"));
    assert_eq!(jobs.latest_for_request("r1").unwrap().status, "pending");
    let job = jobs.claim_next("2026-02-01", "2026-01-02").unwrap();
    assert_eq!(job.attempts, 2);
    assert!(jobs.fail("j1", "boom", job.attempts, 2, "2026-01-03"));
    assert_eq!(jobs.latest_for_request("r1").unwrap().status, "failed");
    assert!(jobs.claim_next("2026-02-01", "2026-01-03").is_none());
    assert_eq!(after_run(true, 1), AfterRun::Finish);
    assert_eq!(after_run(false, 1), AfterRun::Retry);
    assert_eq!(after_run(false, 3), AfterRun::FailClosed);
}

#[test]
fn reclaim_returns_expired_lease_to_pending() {
    let mut jobs = ReviewJobs::new();
    jobs.enqueue("j1", "r1", "p1", "t", "2026-01-01");
    jobs.claim_next("2026-01-02", "2026-01-01").unwrap();
    assert_eq!(jobs.reclaim_stale("2026-01-01T12"), 0);
    assert_eq!(jobs.reclaim_stale("2026-01-03"), 1);
    assert_eq!(jobs.latest_for_request("r1").unwrap().status, "pending");
    let again = ReviewJobs::from_rows(Vec::new());
    assert!(again.rows().is_empty());
}

// --- the catalog ------------------------------------------------------------

#[test]
fn the_catalog_is_told_of_a_project() {
    let mut reg = reg_at("poc");
    let e = project_entity(&reg, Json::Number("12.5".to_string()));
    assert_eq!(e.name, "proj-2026-0001");
    assert_eq!(e.title, "X");
    assert_eq!(e.description.as_deref(), Some("d"));
    assert_eq!(
        e.spec.text(),
        "{\"budgetUsd\":12.5,\"classification\":\"poc\",\"costCenter\":\"CC-100\",\
         \"group\":\"platform\",\"id\":\"proj-2026-0001\",\"lifecycle\":\"active\",\
         \"manager\":\"bob@corp.example\",\"owner\":\"alice@corp.example\"}"
    );
    reg.description = String::new();
    assert!(project_entity(&reg, Json::Null).description.is_none());
}

#[test]
fn other_requirements_change_the_checklist() {
    let mut overrides = SortedMap::new();
    overrides.insert("light-operational", vec!["support_contact".to_string()]);
    let mut r = registry()
        .with_requirements(ClassificationRequirements::from_overrides(overrides))
        .with_governance_config(GovernanceConfig { maintainer_min: 3 });
    assert_eq!(r.governance.maintainer_min, 3);
    let id = r.register(input(), NOW, LATER).unwrap();
    let verdict = r.promotion_checklist(&id).unwrap().verdict.unwrap();
    assert_eq!(verdict.missing, vec!["support_contact".to_string()]);
    let mut evidence = Evidence::default();
    evidence.support_contact = "#help".to_string();
    r.update_evidence(&id, evidence).unwrap();
    assert!(r.promotion_checklist(&id).unwrap().verdict.unwrap().evidence_complete);
}
