use asgard::json::Json;
use asgard::provision::cost::project::{
    combine_costs, daily_row, estimates_by_source, infra_cost_by_project, infra_resources,
    month_pair, project_sources, rollup_plan, severity, RollupSummary,
};
use asgard::provision::cost::qa::{
    answer_text, grounding, is_briefed, is_over_budget, project_spend, projects_over_budget,
    read_call, report, tools, top_group, Briefing, BudgetLimit, CostQuestion, Finding,
    ForecastFigures, MAX_ROUNDS,
};
use asgard::provision::cost::report::{
    budget_pressure, build_tree, change_percent, fold, mover_keys, rank_movers, tagged_base, CostNode, Mover,
    MoverKey, ProjectOverlay,
};
use asgard::provision::cost::rollup::{
    anomalies, by_dimension, cumulative_for, day_baseline, history, is_enough, latest_forecast, per_day,
    project_facts, rank_dims, record_anomaly, series, upsert_daily, write_forecast, AnomalyRow,
    DimRow, ForecastRow, ProjectFact, RollupDim, RollupRow,
};
use asgard::provision::cost::service_cost;
use asgard::provision::manifest::{
    default_cost_model, default_status, CostCfg, CostSourceCfg, ProvisionerCfg, ServiceCatalog,
    ServiceManifest,
};
use asgard::provision::repo::{ProvisionedRecord, ResourceRow};
use asgard::registry::evidence::Evidence;
use asgard::registry::Registration;
use asgard::sorted_map::SortedMap;
use asgard::usd::Usd;

fn usd(v: f64) -> Usd {
    Usd { bits: v.to_bits() }
}

fn num(u: &Usd) -> f64 {
    f64::from_bits(u.bits)
}

fn sum(v: &Vec<Usd>) -> f64 {
    v.iter().map(num).sum()
}

fn row(project: &str, day: &str, source: &str, actual: f64, cumulative: f64) -> RollupRow {
    RollupRow {
        project_id: project.to_string(),
        day: day.to_string(),
        service: source.to_string(),
        source: source.to_string(),
        estimated_usd: usd(1.0),
        actual_usd: Some(usd(actual)),
        cumulative_usd: Some(usd(cumulative)),
        owner: "o@x".to_string(),
        manager: "m@x".to_string(),
        cost_group: "platform".to_string(),
        cost_center: "CC-100".to_string(),
        classification: "poc".to_string(),
    }
}

// --- the rollup -------------------------------------------------------------

#[test]
fn upsert_is_idempotent_per_key() {
    let mut rows = vec![];
    upsert_daily(&mut rows, row("p1", "2026-06-10", "gateway", 2.0, 2.0));
    upsert_daily(&mut rows, row("p1", "2026-06-10", "gateway", 5.0, 7.0));
    let s = series(&rows, "p1", "2026-06-01", "2026-06-30", &None);
    assert_eq!(s.len(), 1);
    assert_eq!(num(&rows[s[0]].actual_usd.unwrap()), 5.0);
    assert_eq!(num(&rows[s[0]].cumulative_usd.unwrap()), 7.0);
}

#[test]
fn cumulative_for_returns_prior_day() {
    let src = "aws-cost-explorer";
    let mut rows = vec![];
    upsert_daily(&mut rows, row("p1", "2026-06-10", src, 2.0, 2.0));
    upsert_daily(&mut rows, row("p1", "2026-06-11", src, 3.0, 5.0));
    let prior = cumulative_for(&rows, "p1", src, src, "2026-06-11");
    assert_eq!(prior.map(|u| num(&u)), Some(2.0));
    assert!(cumulative_for(&rows, "p1", src, src, "2026-06-10").is_none());
    let last = cumulative_for(&rows, "p1", src, src, "2026-06-30");
    assert_eq!(last.map(|u| num(&u)), Some(5.0));
}

#[test]
fn a_month_counts_from_nothing() {
    let src = "aws-cost-explorer";
    let mut rows = vec![row("p1", "2026-06-30", src, 10.0, 300.0)];
    let base = |rows: &Vec<RollupRow>, src: &str, day: &str| {
        day_baseline(rows, "p1", src, src, day).map(|u| num(&u))
    };
    assert_eq!(base(&rows, src, "2026-07-01"), None);
    assert_eq!(base(&rows, src, "2026-06-30"), None);
    upsert_daily(&mut rows, row("p1", "2026-07-01", src, 5.0, 5.0));
    assert_eq!(base(&rows, src, "2026-07-02"), Some(5.0));
    let mut silent = row("p1", "2026-07-02", src, 0.0, 0.0);
    silent.cumulative_usd = None;
    silent.actual_usd = None;
    upsert_daily(&mut rows, silent);
    assert_eq!(base(&rows, src, "2026-07-03"), Some(5.0));
    let stored = cumulative_for(&rows, "p1", src, src, "2026-07-03");
    assert_eq!(stored.map(|u| num(&u)), Some(5.0));
    rows.push(row("p1", "2026-06-30", "litellm", 1.0, 7.0));
    assert_eq!(base(&rows, "litellm", "2026-07-01"), Some(7.0));
}

#[test]
fn a_figure_revised_down_adds_nothing() {
    let src = "aws-cost-explorer";
    let rows = vec![row("p1", "2026-06-10", src, 10.0, 10.0)];
    let prior = day_baseline(&rows, "p1", src, src, "2026-06-11").map(|u| num(&u));
    assert_eq!(prior, Some(10.0));
    assert_eq!((8.0 - prior.unwrap_or(0.0)).max(0.0), 0.0);
}

#[test]
fn by_dimension_groups_and_sums() {
    let mut rows = vec![];
    upsert_daily(&mut rows, row("p1", "2026-06-10", "gateway", 2.0, 2.0));
    upsert_daily(&mut rows, row("p2", "2026-06-10", "gateway", 4.0, 4.0));
    let by = by_dimension(&rows, RollupDim::Group, "2026-06-01", "2026-06-30", &None);
    assert_eq!(by.len(), 1);
    assert_eq!(by[0].key, "platform");
    assert_eq!(sum(&by[0].amounts.actual), 6.0);
    assert_eq!(sum(&by[0].amounts.estimated), 2.0);
    let mut blank = row("p3", "2026-06-11", "gateway", 1.0, 1.0);
    blank.cost_group = String::new();
    blank.actual_usd = None;
    upsert_daily(&mut rows, blank);
    let by = by_dimension(&rows, RollupDim::Group, "2026-06-01", "2026-06-30", &None);
    assert_eq!(by[1].key, "unknown");
    assert!(by[1].amounts.actual.is_empty());
}

#[test]
fn readers_see_what_they_own_or_manage() {
    let mut rows = vec![row("p1", "2026-06-10", "gateway", 2.0, 2.0)];
    let mut other = row("p2", "2026-06-10", "gateway", 4.0, 4.0);
    other.owner = "z@x".to_string();
    other.manager = "y@x".to_string();
    rows.push(other);
    for (who, seen) in [("o@x", "p1"), ("m@x", "p1"), ("z@x", "p2"), ("y@x", "p2")] {
        let facts = project_facts(&rows, "2026-06-01", "2026-06-30", &Some(who.to_string()));
        assert_eq!(facts.len(), 1);
        assert_eq!(facts[0].project_id, seen);
    }
    assert_eq!(project_facts(&rows, "2026-06-01", "2026-06-30", &None).len(), 2);
    assert!(project_facts(&rows, "2026-07-01", "2026-07-30", &None).is_empty());
}

#[test]
fn a_series_is_read_day_by_day() {
    let rows = vec![
        row("p1", "2026-06-12", "gateway", 3.0, 6.0),
        row("p1", "2026-06-10", "gateway", 1.0, 1.0),
        row("p2", "2026-06-10", "gateway", 9.0, 9.0),
        row("p1", "2026-06-10", "aws", 2.0, 2.0),
    ];
    assert_eq!(series(&rows, "p1", "2026-06-01", "2026-06-30", &None), vec![3, 1, 0]);
    assert_eq!(series(&rows, "p1", "2026-06-11", "2026-06-12", &None), vec![0]);
}

#[test]
fn dimensions_are_found_by_name() {
    for d in [
        RollupDim::Project,
        RollupDim::Owner,
        RollupDim::Manager,
        RollupDim::Group,
        RollupDim::CostCenter,
        RollupDim::Classification,
        RollupDim::Service,
    ] {
        assert_eq!(RollupDim::parse(d.as_str()), Some(d));
        assert_eq!(RollupDim::parse(d.column()), Some(d));
    }
    assert_eq!(RollupDim::parse("cost-center"), Some(RollupDim::CostCenter));
    assert_eq!(RollupDim::parse("model"), None);
}

#[test]
fn sums_are_shown_largest_first() {
    let d = |k: &str, a: f64, e: f64| DimRow {
        key: k.to_string(),
        actual_usd: usd(a),
        estimated_usd: usd(e),
    };
    let rows = vec![d("a", 1.0, 9.0), d("b", 2.0, 1.0), d("c", 2.0, 3.0), d("d", 2.0, 3.0)];
    assert_eq!(rank_dims(&rows), vec![2, 3, 1, 0]);
    assert_eq!(top_group(&rows), Some(3));
    assert_eq!(top_group(&vec![]), None);
}

#[test]
fn rollup_tracks_mtd_deltas_and_is_idempotent() {
    let reg = registration();
    let src = "aws-cost-explorer";
    let mut rows = vec![];
    for (d, mtd) in [(1, 10.0), (2, 20.0), (3, 30.0), (4, 40.0), (5, 50.0), (5, 50.0)] {
        let day = format!("2026-06-{d:02}");
        let prior = day_baseline(&rows, &reg.project_id, src, src, &day);
        let delta = mtd - prior.map(|u| num(&u)).unwrap_or(0.0);
        let r = daily_row(&reg, &day, src, usd(1.0), Some(usd(delta)), Some(usd(mtd)));
        upsert_daily(&mut rows, r);
    }
    let s = series(&rows, &reg.project_id, "2026-06-01", "2026-06-30", &None);
    assert_eq!(s.len(), 5);
    for i in &s {
        assert_eq!(num(&rows[*i].actual_usd.unwrap()), 10.0);
        assert_eq!(rows[*i].cost_group, "platform");
    }
    assert_eq!(num(&rows[s[4]].cumulative_usd.unwrap()), 50.0);
}

#[test]
fn rollup_flags_a_spike_as_anomaly() {
    let rows: Vec<RollupRow> = [(1, 5.0), (2, 6.0), (3, 5.0), (4, 6.0), (5, 80.0)]
        .iter()
        .map(|(d, v)| row("p1", &format!("2026-06-{d:02}"), "aws", *v, *v))
        .collect();
    let h = history(&rows, "aws", "2026-06-05");
    assert_eq!(h.len(), 4);
    assert!(is_enough(h.len()) && !is_enough(2));
    assert!(history(&rows, "gateway", "2026-06-05").is_empty());
    let limit = usd(3.0);
    let high = usd(6.0);
    assert_eq!(severity(&usd(2.9), &limit, &high), None);
    assert_eq!(severity(&usd(3.0), &limit, &high), None);
    assert_eq!(severity(&usd(4.0), &limit, &high), Some("medium"));
    assert_eq!(severity(&usd(149.0), &limit, &high), Some("high"));
    assert_eq!(severity(&usd(f64::NAN), &limit, &high), Some("medium"));
    let days = per_day(&rows, "2026-06-03");
    assert_eq!(days.keys(), vec!["2026-06-03", "2026-06-04", "2026-06-05"]);
    assert_eq!(sum(days.get("2026-06-05").unwrap()), 80.0);
}

fn anomaly(project: &str, day: &str, created: &str) -> AnomalyRow {
    AnomalyRow {
        project_id: project.to_string(),
        day: day.to_string(),
        service: "aws".to_string(),
        expected_usd: usd(5.0),
        actual_usd: usd(80.0),
        z_score: usd(149.0),
        severity: "high".to_string(),
        created_at: created.to_string(),
    }
}

#[test]
fn anomalies_are_told_newest_first() {
    let rows = vec![row("p1", "2026-06-10", "aws", 1.0, 1.0)];
    let mut all = vec![];
    record_anomaly(&mut all, anomaly("p1", "2026-06-01", "t1"));
    record_anomaly(&mut all, anomaly("p1", "2026-06-03", "t2"));
    record_anomaly(&mut all, anomaly("p2", "2026-06-02", "t3"));
    record_anomaly(&mut all, anomaly("p1", "2026-06-01", "t4"));
    assert_eq!(all.len(), 3);
    assert_eq!(all[0].created_at, "t4");
    assert_eq!(anomalies(&all, &rows, None, &None, 10), vec![1, 2, 0]);
    assert_eq!(anomalies(&all, &rows, None, &None, 1), vec![1]);
    assert_eq!(anomalies(&all, &rows, Some("p2"), &None, 10), vec![2]);
    assert_eq!(anomalies(&all, &rows, None, &Some("o@x".to_string()), 10), vec![1, 0]);
    assert!(anomalies(&all, &rows, None, &Some("q@x".to_string()), 10).is_empty());
}

fn forecast(project: &str, day: &str, eom: f64) -> ForecastRow {
    ForecastRow {
        project_id: project.to_string(),
        as_of_day: day.to_string(),
        method: "linreg".to_string(),
        eom_usd: usd(eom),
        low_usd: usd(eom),
        high_usd: usd(eom),
        r2: None,
        n_days: 3,
    }
}

#[test]
fn the_latest_forecast_counts() {
    let mut rows = vec![];
    write_forecast(&mut rows, forecast("p1", "2026-06-10", 1.0));
    write_forecast(&mut rows, forecast("p1", "2026-06-12", 2.0));
    write_forecast(&mut rows, forecast("p1", "2026-06-11", 3.0));
    write_forecast(&mut rows, forecast("p1", "2026-06-12", 4.0));
    assert_eq!(rows.len(), 3);
    let k = latest_forecast(&rows, "p1").unwrap();
    assert_eq!(num(&rows[k].eom_usd), 4.0);
    assert!(latest_forecast(&rows, "p2").is_none());
}

// --- a project --------------------------------------------------------------

fn registration() -> Registration {
    Registration {
        project_id: "proj-2026-0001".to_string(),
        name: "P".to_string(),
        owner: "o@x".to_string(),
        manager: "m@x".to_string(),
        group: "platform".to_string(),
        cost_center: "CC-100".to_string(),
        classification: "poc".to_string(),
        data_class: "internal".to_string(),
        budget_usd: usd(0.0),
        spent_usd: usd(0.0),
        lifecycle: "active".to_string(),
        registered: true,
        killed: false,
        description: String::new(),
        created_at: String::new(),
        review_date: String::new(),
        review_state: "ok".to_string(),
        review_extensions: 0,
        stack_exception_renewal_date: String::new(),
        evidence: Evidence::default(),
    }
}

fn resource(rtype: &str, name: &str, state: &str, est: f64) -> ProvisionedRecord {
    ProvisionedRecord {
        id: name.to_string(),
        project_id: "proj-2026-0001".to_string(),
        rtype: rtype.to_string(),
        name: name.to_string(),
        spec: Json::object(),
        outputs: Json::object(),
        tags: SortedMap::new(),
        est_monthly_usd: usd(est),
        state: state.to_string(),
        backend: "stub".to_string(),
        dry_run: true,
        request_id: None,
        created_at: String::new(),
        updated_at: String::new(),
        error: String::new(),
        attempts: 0,
        next_retry_at: None,
    }
}

fn catalog() -> ServiceCatalog {
    let mut c = ServiceCatalog::new();
    for (id, est, source) in
        [("s3-bucket", 5.0, "aws-cost-explorer"), ("exec-echo", 1.0, "flat")]
    {
        c.add(ServiceManifest {
            id: id.to_string(),
            name: id.to_string(),
            category: "tooling".to_string(),
            status: default_status(),
            classification_min: None,
            classification_max: None,
            description: String::new(),
            auto_approvable: true,
            required_fields: vec![],
            secret_outputs: vec![],
            provisioner: ProvisionerCfg {
                connector: "stub".to_string(),
                config: Json::object(),
            },
            cost: CostCfg {
                model: default_cost_model(),
                estimated_monthly_usd: usd(est),
                source: CostSourceCfg { source_type: source.to_string() },
            },
            tags: vec![],
            documentation: None,
            inference: None,
            variants: None,
            access_levels: SortedMap::new(),
            grant: None,
            principal_output: None,
            principal_kind: None,
            long_running: false,
            retry: None,
        })
        .unwrap();
    }
    c
}

#[test]
fn project_cost_sums_estimate_and_falls_back_to_no_actual() {
    let records = vec![
        resource("s3-bucket", "assets", "provisioned", 5.0),
        resource("s3-bucket", "cache", "provisioned", 5.0),
        resource("s3-bucket", "gone", "destroyed", 5.0),
    ];
    let live = infra_resources(&records);
    assert_eq!(live.len(), 2);
    let total: f64 = live.iter().map(|r| num(&r.est_monthly_usd)).sum();
    assert_eq!(total, 10.0);
    let sources = project_sources(&records, &catalog());
    assert_eq!(sources, vec!["aws-cost-explorer"]);
    let c = combine_costs(&sources, &vec![None]);
    assert!(c.amounts.is_empty());
    assert_eq!(c.source, "aws-cost-explorer (unconfigured)");
    assert_eq!(c.backend, "");
}

#[test]
fn estimates_by_project_count_live_resources_only() {
    let mut rows: Vec<ResourceRow> = vec![];
    for (project, state, est) in [
        ("proj-b", "provisioned", 5.0),
        ("proj-a", "provisioned", 2.0),
        ("proj-b", "provisioned", 7.5),
        ("proj-b", "provisioning", 100.0),
        ("proj-c", "linked", 3.0),
    ] {
        let mut rec = resource("s3-bucket", "x", state, est);
        rec.project_id = project.to_string();
        rows.push(ResourceRow { rec, worker_owner: None });
    }
    let found = infra_cost_by_project(&rows);
    assert_eq!(found.keys(), vec!["proj-a", "proj-b"]);
    assert_eq!(sum(found.get("proj-a").unwrap()), 2.0);
    assert_eq!(sum(found.get("proj-b").unwrap()), 12.5);
}

#[test]
fn project_cost_aggregates_across_sources() {
    let mut linked = resource("external", "legacy", "linked", 120.0);
    linked.spec.insert_str("cost_source", "databricks-billing");
    let records = vec![
        resource("exec-echo", "fn", "provisioned", 1.0),
        resource("s3-bucket", "assets", "provisioned", 4.0),
        linked,
        resource("unheard-of", "x", "provisioned", 7.0),
    ];
    let sources = project_sources(&records, &catalog());
    assert_eq!(sources, vec!["aws-cost-explorer", "databricks-billing", "flat"]);
    let answers = vec![
        Some(service_cost("aws", Some(usd(2.0)), "aws")),
        None,
        Some(service_cost("flat", None, "flat")),
    ];
    let c = combine_costs(&sources, &answers);
    assert_eq!(sum(&c.amounts), 2.0);
    assert_eq!(c.source, "aws, databricks-billing (unconfigured), flat");
    assert_eq!(c.backend, "multi");
    let none = combine_costs(&vec![], &vec![]);
    assert_eq!((none.source.as_str(), none.backend.as_str()), ("none", "multi"));

    let est = estimates_by_source(&records, &catalog(), true);
    assert_eq!(est.keys(), vec!["aws-cost-explorer", "databricks-billing", "flat", "gateway"]);
    assert_eq!(sum(est.get("aws-cost-explorer").unwrap()), 5.0);
    assert_eq!(sum(est.get("databricks-billing").unwrap()), 120.0);
    assert!(est.get("gateway").unwrap().is_empty());
    assert!(!estimates_by_source(&records, &catalog(), false).contains("gateway"));
    assert!(estimates_by_source(&vec![], &catalog(), false).is_empty());
}

#[test]
fn a_rollup_looks_back_within_its_month() {
    let p = rollup_plan("2026-06-17", 60).unwrap();
    assert_eq!(p.from_day, "2026-06-01");
    assert_eq!(p.month_start, "2026-06-01");
    assert_eq!((p.window.start.as_str(), p.window.end.as_str()), ("2026-06-01", "2026-06-18"));
    assert_eq!((p.day_index, p.days_in_month), (17, 30));
    assert_eq!(rollup_plan("2026-06-17", 7).unwrap().from_day, "2026-06-10");
    let m = month_pair("2026-03-15").unwrap();
    assert_eq!(m.from, "2026-03-01");
    assert_eq!((m.previous_from.as_str(), m.previous_until.as_str()), ("2026-02-01", "2026-02-28"));
    let mut s = RollupSummary::new("2026-06-17");
    s.add_project(2, 1, true);
    s.add_project(1, 0, false);
    assert_eq!((s.projects, s.rows, s.anomalies, s.forecasts), (2, 3, 1, 1));
}

// --- the dashboard ----------------------------------------------------------

fn fact(pid: &str, group: &str, manager: &str, owner: &str, mtd: f64) -> ProjectFact {
    ProjectFact {
        project_id: pid.to_string(),
        owner: owner.to_string(),
        manager: manager.to_string(),
        cost_group: group.to_string(),
        cost_center: "CC".to_string(),
        classification: "poc".to_string(),
        mtd_usd: usd(mtd),
        estimated_usd: usd(0.0),
    }
}

fn total(n: &CostNode, facts: &Vec<ProjectFact>) -> f64 {
    let own: f64 = n.projects.iter().map(|i| num(&facts[*i].mtd_usd)).sum();
    let below: f64 = n.children.iter().map(|c| total(c, facts)).sum();
    own + below
}

#[test]
fn tree_sums_children_up_the_org() {
    let facts = vec![
        fact("p1", "platform", "m1", "o1", 10.0),
        fact("p2", "platform", "m1", "o2", 5.0),
        fact("p3", "research", "m2", "o3", 20.0),
    ];
    let tree = build_tree(&facts);
    assert_eq!(total(&tree, &facts), 35.0);
    let platform = tree.children.iter().find(|c| c.key == "platform").unwrap();
    assert_eq!(total(platform, &facts), 15.0);
    let m1 = &platform.children[0];
    assert_eq!(m1.children.len(), 2);
    assert_eq!((tree.level.as_str(), m1.level.as_str()), ("company", "manager"));
}

#[test]
fn blank_places_have_names() {
    let facts = vec![fact("p1", " ", "", "", 1.0)];
    let tree = build_tree(&facts);
    assert_eq!(tree.children[0].key, "ungrouped");
    assert_eq!(tree.children[0].children[0].key, "unassigned");
    assert_eq!(tree.children[0].children[0].children[0].key, "unowned");
    assert_eq!(tree.children[0].children[0].children[0].projects, vec![0]);
}

#[test]
fn budget_pressure_trips_above_ninety_percent() {
    let ov = ProjectOverlay::of(usd(100.0), Some((usd(95.0), usd(5.0))));
    assert!(budget_pressure(&ov.budget_usd, &usd(100.0 * 0.9), &ov.forecast()));
    assert!(!budget_pressure(&ov.budget_usd, &usd(100.0 * 0.9), &usd(90.0)));
    assert!(!budget_pressure(&usd(0.0), &usd(0.0), &usd(90.0)));
    let none = ProjectOverlay::of(usd(100.0), None);
    assert_eq!(num(&none.forecast()), 0.0);
    assert!(!ProjectOverlay::default().has_forecast);
}

fn movers(cur: &Vec<ProjectFact>, prev: &Vec<ProjectFact>, by: MoverKey, top: usize) -> Vec<String> {
    let c = fold(cur, by);
    let p = fold(prev, by);
    let all: Vec<Mover> = mover_keys(&c, &p)
        .keys()
        .into_iter()
        .map(|k| {
            let now = c.get(&k).map(sum).unwrap_or(0.0);
            let was = p.get(&k).map(sum).unwrap_or(0.0);
            let delta = now - was;
            Mover {
                key: k,
                current_usd: usd(now),
                previous_usd: usd(was),
                delta_usd: usd(delta),
                delta_pct: change_percent(&usd(now), &usd(was), &usd(delta / was * 100.0)),
            }
        })
        .collect();
    rank_movers(&all, top).into_iter().map(|i| all[i].key.clone()).collect()
}

#[test]
fn movers_rank_by_absolute_percent_change() {
    let cur = vec![
        fact("p1", "platform", "m", "o", 30.0),
        fact("p2", "research", "m", "o", 10.0),
    ];
    let prev = vec![
        fact("p1", "platform", "m", "o", 10.0),
        fact("p2", "research", "m", "o", 10.0),
    ];
    let m = movers(&cur, &prev, MoverKey::Project, 10);
    assert_eq!(m[0], "p1");
    assert_eq!(m.len(), 1);
    assert_eq!(movers(&cur, &prev, MoverKey::Group, 10), vec!["platform"]);
    let prev = vec![fact("p0", "x", "m", "o", 4.0), fact("p1", "platform", "m", "o", 60.0)];
    assert_eq!(movers(&cur, &prev, MoverKey::Project, 10), vec!["p2", "p0", "p1"]);
    assert_eq!(movers(&cur, &prev, MoverKey::Project, 2), vec!["p2", "p0"]);
}

#[test]
fn new_spend_is_the_largest_move() {
    let cur = vec![
        fact("tripled", "g", "m", "o", 30.0),
        fact("fresh", "g", "m", "o", 1.0),
        fact("gone", "g", "m", "o", 0.0),
    ];
    let prev = vec![fact("tripled", "g", "m", "o", 10.0), fact("gone", "g", "m", "o", 5.0)];
    let m = movers(&cur, &prev, MoverKey::Project, 10);
    assert_eq!(m, vec!["fresh", "tripled", "gone"]);
    assert_eq!(movers(&cur, &prev, MoverKey::Project, 1), vec!["fresh"]);
    let pct = |now: f64, was: f64, ratio: f64| num(&change_percent(&usd(now), &usd(was), &usd(ratio)));
    assert_eq!(pct(1.0, 0.0, f64::INFINITY), f64::MAX);
    assert_eq!(pct(30.0, 10.0, 200.0), 200.0);
    assert_eq!(pct(0.0, 5.0, -100.0), -100.0);
    assert_eq!(pct(0.0, 0.0, f64::NAN), 0.0);
    assert_eq!(pct(1.0, 1e-300, f64::INFINITY), f64::MAX);
    let shown = Json::Number(format!("{:?}", f64::MAX)).text();
    assert!(Json::parse(&shown).is_ok());
}

#[test]
fn tagged_pct_is_none_without_a_denominator() {
    let pct = |tagged: f64, all: Option<f64>| {
        tagged_base(all.map(usd)).map(|t| (tagged / num(&t) * 100.0 * 10.0).round() / 10.0)
    };
    assert!(pct(100.0, None).is_none());
    assert_eq!(pct(50.0, Some(200.0)), Some(25.0));
    assert!(pct(50.0, Some(0.0)).is_none());
}

// --- questions --------------------------------------------------------------

#[test]
fn tools_read_grounded_facts() {
    let facts = vec![fact("proj-2026-0001", "platform", "m", "o", 3.5)];
    let args = Json::parse("{\"project_id\":\"proj-2026-0001\"}").unwrap();
    match read_call("project_spend", &args).unwrap() {
        CostQuestion::ProjectSpend { project_id } => {
            let mtd = project_spend(&facts, &project_id);
            let mtd = Json::Number(format!("{:?}", num(&mtd)));
            let text = answer_text(Finding::ProjectSpend { project_id, mtd });
            assert_eq!(text, "{\"mtd_usd\":3.5,\"project_id\":\"proj-2026-0001\"}");
        }
        other => panic!("not what was asked: {other:?}"),
    }
    assert_eq!(num(&project_spend(&facts, "none")), 0.0);
    let args = Json::parse("{\"dimension\":\"group\"}").unwrap();
    match read_call("org_spend", &args).unwrap() {
        CostQuestion::OrgSpend { dim } => {
            let rows = Json::Array(vec![Json::string("platform")]);
            assert_eq!(answer_text(Finding::OrgSpend { dim, rows }), "{\"by\":\"group\",\"rows\":[\"platform\"]}");
        }
        other => panic!("not what was asked: {other:?}"),
    }
    match read_call("org_spend", &Json::object()).unwrap() {
        CostQuestion::OrgSpend { dim } => assert_eq!(dim, RollupDim::Project),
        other => panic!("not what was asked: {other:?}"),
    }
    assert!(matches!(read_call("top_movers", &args), Ok(CostQuestion::TopMovers { top: 5 })));
    assert!(matches!(read_call("anomalies", &args), Ok(CostQuestion::Anomalies { limit: 20 })));
    assert_eq!(read_call("drop_tables", &args).unwrap_err(), "unknown tool: drop_tables");
    assert_eq!(
        answer_text(Finding::Forecast { project_id: "p".to_string(), forecast: None }),
        "{\"forecast\":\"insufficient history\",\"project_id\":\"p\"}"
    );
    let rows = Json::Array(vec![]);
    assert_eq!(answer_text(Finding::Anomalies { rows }), "{\"anomalies\":[]}");
    let rows = Json::Array(vec![]);
    assert_eq!(answer_text(Finding::BudgetStatus { rows }), "{\"projects\":[]}");
}

#[test]
fn answers_are_read_as_what_they_report() {
    let movers = Finding::TopMovers {
        by_project: Json::Array(vec![Json::string("p")]),
        by_group: Json::Array(vec![]),
    };
    let text = answer_text(movers);
    assert_eq!(text, "{\"by_group\":[],\"by_project\":[\"p\"]}");
    let forecast = ForecastFigures {
        as_of_day: "2026-06-10".to_string(),
        method: "linear".to_string(),
        eom: Json::integer(9),
        low: Json::integer(8),
        high: Json::integer(10),
        r2: None,
        n_days: 10,
    };
    let text = answer_text(Finding::Forecast {
        project_id: "p".to_string(),
        forecast: Some(forecast),
    });
    let back = Json::parse(&text).unwrap();
    assert_eq!(back.get("eom_usd").unwrap().as_i64(), Some(9));
    assert_eq!(back.get("n_days").unwrap().as_i64(), Some(10));
    assert!(matches!(back.get("r2"), Some(Json::Null)));
    assert_eq!(back.get_str("as_of_day"), Some("2026-06-10"));
}

#[test]
fn without_a_total_there_is_no_share() {
    let told = |account_total: Option<Json>| {
        report(Finding::Untagged {
            tagged: Json::integer(50),
            account_total,
            pct: Some(Json::integer(100)),
        })
    };
    assert_eq!(
        told(None).text(),
        "{\"account_total_usd\":null,\"tagged_pct\":null,\"tagged_usd\":50}"
    );
    let whole = told(Some(Json::integer(50)));
    assert_eq!(whole.get("tagged_pct").unwrap().as_i64(), Some(100));
}

#[test]
fn every_tool_on_offer_can_be_called() {
    let all = tools();
    assert_eq!(all.len(), 7);
    for t in &all {
        assert!(read_call(&t.name, &Json::object()).is_ok(), "{}", t.name);
        assert!(!t.description.is_empty());
    }
    assert_eq!(MAX_ROUNDS, 4);
}

#[test]
fn budgets_are_held_against_forecasts() {
    let facts = vec![fact("p1", "g", "m", "o", 1.0), fact("p2", "g", "m", "o", 1.0)];
    let mut limits: SortedMap<BudgetLimit> = SortedMap::new();
    limits.insert("p1", BudgetLimit { budget: usd(100.0), threshold: usd(90.0) });
    limits.insert("p2", BudgetLimit { budget: usd(0.0), threshold: usd(0.0) });
    let forecasts = vec![forecast("p1", "2026-06-10", 95.0), forecast("p2", "2026-06-10", 95.0)];
    assert!(is_over_budget("p1", &limits, &forecasts));
    assert!(!is_over_budget("p2", &limits, &forecasts));
    assert!(!is_over_budget("p3", &limits, &forecasts));
    assert_eq!(projects_over_budget(&facts, &limits, &forecasts), 1);
}

#[test]
fn a_briefing_is_told_in_sentences() {
    let mut b = Briefing {
        total: "$1.2k".to_string(),
        projects: 3,
        top_group: Some(("platform".to_string(), "$900".to_string())),
        top_mover: Some(("p1".to_string(), "+50".to_string(), "$10".to_string())),
        anomalies: 2,
        over_budget: 1,
    };
    assert_eq!(
        b.text(),
        "Month-to-date spend is $1.2k across 3 project(s). Highest group is platform at $900. \
         Biggest mover vs last month: p1 (+50%, $10). 2 cost anomaly(ies) are open. 1 project(s) \
         projected over budget. (Deterministic briefing — wire a reasoning model for free-form Q&A.)"
    );
    b.top_group = None;
    b.top_mover = None;
    b.anomalies = 0;
    b.over_budget = 0;
    assert_eq!(
        b.text(),
        "Month-to-date spend is $1.2k across 3 project(s). No cost anomalies are open. \
         (Deterministic briefing — wire a reasoning model for free-form Q&A.)"
    );
    assert!(is_briefed("model:default/mock") && !is_briefed("gpt"));
    assert!(grounding("2026-06-15").contains("Today is 2026-06-15."));
}
