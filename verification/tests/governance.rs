use asgard::registry::cost::{report, CostDim, ReportFilter, UsageEvent};
use asgard::registry::evidence::Evidence;
use asgard::registry::governance::{
    compute, in_scope, promotion_samples, GovernanceConfig, GovernanceMetrics, Metric, MetricValue,
    PromotionLog, PromotionSample,
};
use asgard::registry::Registration;
use asgard::usd::Usd;

const NOW: &str = "2026-06-03T00:00:00.000Z";

fn usd(v: f64) -> Usd {
    Usd { bits: v.to_bits() }
}

fn base() -> Registration {
    Registration {
        project_id: "proj-2026-0001".to_string(),
        name: "X".to_string(),
        owner: "owner@corp.example".to_string(),
        manager: "mgr@corp.example".to_string(),
        group: "platform".to_string(),
        cost_center: "CC-100".to_string(),
        classification: "light-operational".to_string(),
        data_class: "internal".to_string(),
        budget_usd: usd(0.0),
        spent_usd: usd(0.0),
        lifecycle: "active".to_string(),
        registered: true,
        killed: false,
        description: String::new(),
        created_at: "2026-01-01T00:00:00.000Z".to_string(),
        review_date: String::new(),
        review_state: "ok".to_string(),
        review_extensions: 0,
        stack_exception_renewal_date: String::new(),
        evidence: Evidence::default(),
    }
}

fn metric<'a>(m: &'a GovernanceMetrics, key: &str) -> &'a Metric {
    m.metrics.iter().find(|x| x.key == key).unwrap()
}

fn value(m: &Metric) -> Option<f64> {
    match m.value {
        MetricValue::Unmeasured => None,
        MetricValue::Count(n) => Some(n as f64),
        MetricValue::MeanDays { total, samples } => {
            Some(total as f64 / samples as f64 / 86_400.0)
        }
    }
}

#[test]
fn ownerless_only_counts_operational() {
    let mut poc = base();
    poc.classification = "poc".to_string();
    poc.owner = String::new();
    let mut op = base();
    op.project_id = "proj-2026-0002".to_string();
    op.owner = String::new();
    let m = compute(&vec![poc, op], &vec![], &GovernanceConfig::default(), NOW);
    let ownerless = metric(&m, "ownerless_operational");
    assert_eq!(value(ownerless), Some(1.0));
    assert_eq!(ownerless.offenders, vec!["proj-2026-0002"]);
    assert_eq!(m.operational_projects, 1);
    assert_eq!(m.total_projects, 2);
    assert_eq!(m.as_of, NOW);
}

#[test]
fn no_support_path_flags_operational_without_contact() {
    let mut with = base();
    with.evidence.support_contact = "oncall@corp.example".to_string();
    let mut without = base();
    without.project_id = "proj-2026-0002".to_string();
    let m = compute(&vec![with, without], &vec![], &GovernanceConfig::default(), NOW);
    let found = metric(&m, "no_support_path_operational");
    assert_eq!(found.offenders, vec!["proj-2026-0002"]);
}

#[test]
fn understaffed_respects_threshold_boundary() {
    let mut wide = base();
    wide.classification = "wide-operational".to_string();
    wide.evidence.maintainers = vec!["a@corp.example".to_string()];
    let mut wide_ok = base();
    wide_ok.project_id = "proj-2026-0002".to_string();
    wide_ok.classification = "wide-operational".to_string();
    wide_ok.evidence.maintainers = vec!["a@corp.example".to_string(), "b@corp.example".to_string()];
    let m = compute(&vec![wide, wide_ok], &vec![], &GovernanceConfig::default(), NOW);
    let understaffed = metric(&m, "understaffed_wide_critical");
    assert_eq!(understaffed.offenders, vec!["proj-2026-0001"]);
    let m2 = compute(&vec![base()], &vec![], &GovernanceConfig { maintainer_min: 1 }, NOW);
    assert_eq!(value(metric(&m2, "understaffed_wide_critical")), Some(0.0));
}

#[test]
fn stale_pocs_need_expired_review() {
    let mut poc = base();
    poc.classification = "poc".to_string();
    poc.review_state = "expired".to_string();
    let m = compute(&vec![poc], &vec![], &GovernanceConfig::default(), NOW);
    assert_eq!(value(metric(&m, "stale_pocs")), Some(1.0));
    assert_eq!(value(metric(&m, "stale_inventory")), Some(0.0));
}

#[test]
fn unsupported_stack_notes_missing_renewal() {
    let mut lapsed = base();
    lapsed.evidence.stack_exception = "legacy runtime".to_string();
    let mut renewed = base();
    renewed.project_id = "proj-2026-0002".to_string();
    renewed.evidence.stack_exception = "legacy runtime".to_string();
    renewed.stack_exception_renewal_date = "2027-01-01T00:00:00.000Z".to_string();
    let m = compute(&vec![lapsed, renewed], &vec![], &GovernanceConfig::default(), NOW);
    let found = metric(&m, "unsupported_stack");
    assert_eq!(value(found), Some(2.0));
    assert!(found.note.as_deref().unwrap().starts_with("1 of 2"));
}

fn sample(id: &str, target: &str, days: i64) -> PromotionSample {
    PromotionSample {
        project_id: id.to_string(),
        target: target.to_string(),
        seconds: days * 86_400,
    }
}

#[test]
fn cycle_time_means_over_light_samples() {
    let samples = vec![
        sample("proj-2026-0001", "light-operational", 2),
        sample("proj-2026-0002", "light-operational", 4),
        sample("proj-2026-0003", "wide-operational", 99),
    ];
    let m = compute(&vec![], &samples, &GovernanceConfig::default(), NOW);
    let cycle = metric(&m, "light_promotion_cycle_days");
    assert!(cycle.measurable);
    assert_eq!(value(cycle), Some(3.0));
    assert_eq!(cycle.offenders.len(), 2);
}

#[test]
fn cycle_time_is_honest_stub_without_samples() {
    let m = compute(&vec![], &vec![], &GovernanceConfig::default(), NOW);
    let cycle = metric(&m, "light_promotion_cycle_days");
    assert!(!cycle.measurable);
    assert!(value(cycle).is_none());
}

#[test]
fn stubs_are_labelled_not_zero() {
    let m = compute(&vec![], &vec![], &GovernanceConfig::default(), NOW);
    for key in ["missing_inventory_record", "incidents_by_classification", "change_failure_rate"] {
        let s = metric(&m, key);
        assert!(!s.measurable, "{key} should be a stub");
        assert!(value(s).is_none(), "{key} must not report 0");
        assert!(s.note.is_some());
    }
}

#[test]
fn samples_come_from_fulfilled_promotions_in_scope() {
    let log = |subject: &str, state: &str, payload: &str, seconds: Option<i64>| PromotionLog {
        subject: subject.to_string(),
        state: state.to_string(),
        payload: payload.to_string(),
        seconds,
    };
    let light = "{\"target_classification\":\"light-operational\"}";
    let rows = vec![
        log("project:p1", "fulfilled", light, Some(60)),
        log("project:p1", "approved", light, Some(60)),
        log("project:p2", "fulfilled", light, Some(60)),
        log("budget/p1", "fulfilled", light, Some(60)),
        log("project:p1", "fulfilled", light, None),
        log("project:p1", "fulfilled", "not json", Some(7)),
    ];
    let got = promotion_samples(&rows, &vec!["p1".to_string()]);
    assert_eq!(got.len(), 2);
    assert_eq!(got[0].target, "light-operational");
    assert_eq!(got[0].seconds, 60);
    assert_eq!(got[1].target, "");
    assert_eq!(got[1].seconds, 7);
}

#[test]
fn a_scope_is_what_one_owns_or_manages() {
    let r = base();
    assert!(in_scope(&r, None));
    assert!(in_scope(&r, Some("owner@corp.example")));
    assert!(in_scope(&r, Some("mgr@corp.example")));
    assert!(!in_scope(&r, Some("x@corp.example")));
}

fn event(ts: &str, project: &str, owner: &str, model: &str, cost: f64, tokens: i64) -> UsageEvent {
    UsageEvent {
        ts: ts.to_string(),
        project_id: project.to_string(),
        owner: owner.to_string(),
        manager: "m".to_string(),
        cost_group: String::new(),
        classification: "poc".to_string(),
        model: model.to_string(),
        provider: "p".to_string(),
        cost_usd: usd(cost),
        tokens,
    }
}

#[test]
fn spend_is_grouped_by_a_dimension() {
    let events = vec![
        event("2026-06-01", "p1", "a", "m1", 1.0, 10),
        event("2026-06-02", "p2", "b", "m1", 2.0, 20),
        event("2026-06-03", "p1", "a", "m2", 4.0, 40),
    ];
    let all = ReportFilter { since: None, until: None, scope: None };
    let by_project = report(&events, CostDim::Project, &all);
    assert_eq!(by_project.len(), 2);
    assert_eq!(by_project[0].key, "p1");
    assert_eq!(by_project[0].events, 2);
    assert_eq!(by_project[0].tokens, 50);
    let sum: f64 = by_project[0].amounts.iter().map(|u| f64::from_bits(u.bits)).sum();
    assert_eq!(sum, 5.0);
    assert_eq!(report(&events, CostDim::Group, &all)[0].key, "unknown");
    let some = ReportFilter { since: Some("2026-06-02"), until: Some("2026-06-03"), scope: None };
    assert_eq!(report(&events, CostDim::Model, &some).len(), 1);
    let mine = ReportFilter { since: None, until: None, scope: Some("b") };
    let seen = report(&events, CostDim::Project, &mine);
    assert_eq!(seen.len(), 1);
    assert_eq!(seen[0].key, "p2");
}

#[test]
fn spend_dimensions_are_found_by_name() {
    for d in [
        CostDim::Project,
        CostDim::Owner,
        CostDim::Manager,
        CostDim::Group,
        CostDim::Classification,
        CostDim::Model,
        CostDim::Provider,
    ] {
        assert_eq!(CostDim::parse(d.as_str()), Some(d));
        assert_eq!(CostDim::parse(d.column()), Some(d));
    }
    assert_eq!(CostDim::parse("tier"), Some(CostDim::Classification));
    assert_eq!(CostDim::parse("cost_center"), None);
}
