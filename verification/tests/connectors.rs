use asgard::calendar::CostWindow;
use asgard::json::Json;
use asgard::provision::connectors::exec::{command_of, read_reply, texts_of, ExecConnector};
use asgard::provision::connectors::litellm::{
    budget_text, build_generate_body, parse_generate_response, LiteLlmConnector,
};
use asgard::provision::connectors::terraform::{
    apply_outcome, combine_output, failed_run, has_something, join_path, read_outputs,
    resolve_default, skips_file, sweeps, tfvars, timed_out, Capture, TerraformConnector,
};
use asgard::provision::connectors::tags_json;
use asgard::provision::context::ResourceContext;
use asgard::provision::cost::aws_ce::{amounts, AwsCostExplorerSource};
use asgard::provision::cost::databricks::{
    parse_cost, state_of, DatabricksCostSource, USAGE_SQL,
};
use asgard::provision::cost::exec::{json_usd, printed, ExecCostSource};
use asgard::provision::cost::litellm::{aliases, parse_key_spend, LiteLlmCostSource};
use asgard::provision::cost::{
    service_cost, unavailable, CostSourceRegistry, FlatSource, GatewaySource, NoneSource,
    SourceKind, UnconfiguredSource,
};
use asgard::provision::outputs::Plan;
use asgard::provision::repo::ProvisionedRecord;
use asgard::provision::work::ProvisionRequest;
use asgard::provision::ProvisionError;
use asgard::sorted_map::SortedMap;
use asgard::usd::Usd;

fn usd(v: f64) -> Usd {
    Usd { bits: v.to_bits() }
}

fn json(s: &str) -> Json {
    Json::parse(s).unwrap()
}

fn ctx() -> ResourceContext {
    ResourceContext {
        project_id: "proj-2026-0001".to_string(),
        owner: "o".to_string(),
        manager: "m".to_string(),
        group: "g".to_string(),
        cost_center: "cc".to_string(),
        classification: "poc".to_string(),
        environment: "dev".to_string(),
        cloud: "stub".to_string(),
        account: "local".to_string(),
    }
}

fn req(rtype: &str, spec: &str, config: &str) -> ProvisionRequest {
    ProvisionRequest {
        resource_type: rtype.to_string(),
        name: "default".to_string(),
        ctx: ctx(),
        spec: json(spec),
        config: json(config),
        estimated_monthly_usd: usd(35.0),
        secret_outputs: vec!["api_key".to_string()],
        resource_id: None,
    }
}

fn plan() -> Plan {
    Plan { summary: String::new(), tags: SortedMap::new(), estimated_monthly_usd: usd(35.0) }
}

fn number(j: &Json) -> Option<f64> {
    match j {
        Json::Number(n) => n.parse::<f64>().ok(),
        _ => None,
    }
}

fn body(spec: &str) -> Json {
    let r = req("litellm-key", spec, "{}");
    let budget = budget_text(&r.spec)
        .and_then(|t| t.parse::<f64>().ok())
        .map(|v| Json::Number(format!("{v:?}")));
    build_generate_body(&r, budget)
}

// --- the model gateway ------------------------------------------------------

#[test]
fn body_carries_alias_metadata_and_budget() {
    let b = body("{\"max_budget_usd\":25.0}");
    assert_eq!(b.get_str("key_alias"), Some("asgard-proj-2026-0001-default"));
    let meta = b.get("metadata").unwrap();
    assert_eq!(meta.get_str("project_id"), Some("proj-2026-0001"));
    assert_eq!(meta.get_str("managed_by"), Some("asgard"));
    assert_eq!(b.get_str("budget_duration"), Some("30d"));
    assert_eq!(number(b.get("max_budget").unwrap()), Some(25.0));
}

#[test]
fn budget_accepts_string_and_models_optional() {
    let b = body("{\"max_budget_usd\":\"10\",\"models\":[\"gpt-5.1\"]}");
    assert_eq!(number(b.get("max_budget").unwrap()), Some(10.0));
    assert_eq!(b.get("models").unwrap().text(), "[\"gpt-5.1\"]");
    let b2 = body("{}");
    assert!(b2.get("max_budget").is_none());
    assert!(b2.get("models").is_none());
}

#[test]
fn parses_minted_key() {
    let v = json("{\"key\":\"sk-abc123\",\"key_name\":\"asgard-proj-default\"}");
    assert_eq!(parse_generate_response(&v).unwrap(), "sk-abc123");
    assert!(parse_generate_response(&json("{\"error\":\"nope\"}")).is_err());
}

#[test]
fn supports_only_litellm_key() {
    let c = LiteLlmConnector::new("http://x", "sk-master");
    assert!(c.supports("litellm-key"));
    assert!(!c.supports("s3-bucket"));
    assert!(!c.dry_run());
    assert_eq!(c.name(), "litellm");
}

#[test]
fn a_minted_key_is_a_sensitive_output() {
    let c = LiteLlmConnector::new("http://x/", "sk-master");
    assert_eq!(c.url("/key/generate"), "http://x/key/generate");
    let r = req("litellm-key", "{}", "{}");
    let done = c.apply(&r, &json("{\"key\":\"sk-abc123\"}")).unwrap();
    assert_eq!(done.outputs.get_str("api_key"), Some("sk-abc123"));
    assert!(done.sensitive_keys.contains(&"api_key".to_string()));
    assert!(c.apply(&r, &json("{}")).is_err());
    assert!(c.generate_refused(500, "no").message().contains("500"));
    assert!(c.delete_refused(404).message().contains("404"));
    assert!(c.destroy(&done.outputs).is_some());
    assert!(c.destroy(&Json::object()).is_none());
    assert_eq!(c.plan(&r).estimated_monthly_usd.bits, 35.0f64.to_bits());
}

// --- commands ---------------------------------------------------------------

#[test]
fn apply_runs_command_and_parses_json_stdout() {
    let c = ExecConnector::new();
    let r = req("custom", "{\"name\":\"x\"}", "{\"command\":[\"sh\",\"-c\",\"echo\"]}");
    let run = c.apply(&r, &c.plan(&r)).unwrap();
    assert_eq!(run.bin, "sh");
    assert_eq!(run.args, vec!["-c", "echo"]);
    assert!(Json::parse(&run.stdin).unwrap().is_object());
    let out = read_reply(true, &b"{\"url\":\"http://y\"}".to_vec(), &vec![]).unwrap();
    let done = c.applied(&r, out);
    assert_eq!(done.outputs.get_str("url"), Some("http://y"));
    assert!(c.supports("anything") && c.name() == "exec" && !c.dry_run());
}

#[test]
fn apply_without_command_errors() {
    let c = ExecConnector::new();
    let r = req("custom", "{}", "{}");
    assert!(c.apply(&r, &plan()).is_err());
    let failed = read_reply(false, &vec![], &b"it broke".to_vec());
    match failed {
        Err(e) => assert!(e.message().contains("it broke")),
        Ok(_) => panic!("a failed command"),
    }
}

#[test]
fn destroy_is_noop_without_destroy_command() {
    let c = ExecConnector::new();
    let r = req("custom", "{}", "{\"command\":[\"sh\"]}");
    assert!(c.later_run(&r, "destroy_command").unwrap().is_none());
    let r = req("custom", "{}", "{\"destroy_command\":[\"rm\",\"x\"]}");
    assert_eq!(c.later_run(&r, "destroy_command").unwrap().unwrap().bin, "rm");
    assert_eq!(command_of(&json("{\"c\":[\"a\",1,\"b\"]}"), "c"), Some(vec!["a".to_string(), "b".to_string()]));
    assert_eq!(command_of(&json("{}"), "c"), None);
    assert_eq!(texts_of(&vec![Json::Null, Json::string("x")]), vec!["x"]);
}

#[test]
fn tags_are_an_object() {
    let mut t: SortedMap<String> = SortedMap::new();
    t.insert("b", "2".to_string());
    t.insert("a", "1".to_string());
    assert_eq!(tags_json(&t).text(), "{\"a\":\"1\",\"b\":\"2\"}");
}

// --- terraform --------------------------------------------------------------

fn web() -> ProvisionRequest {
    req(
        "ecs-service",
        "{\"name\":\"web\",\"desired_count\":2}",
        "{\"stop_tfvars\":{\"desired_count\":0}}",
    )
}

#[test]
fn stop_tfvars_override_the_spec() {
    let r = web();
    let env: SortedMap<String> = SortedMap::new();
    let suspend = tfvars(&r, &plan(), r.config.get("stop_tfvars").unwrap(), &env);
    assert_eq!(suspend.get("desired_count").unwrap().as_i64(), Some(0));
    let normal = tfvars(&r, &plan(), &Json::Null, &env);
    assert_eq!(normal.get("desired_count").unwrap().as_i64(), Some(2));
    let t = TerraformConnector::new("terraform", "/m", "/w");
    assert_eq!(t.stop_overrides(&r).unwrap().text(), "{\"desired_count\":0}");
}

#[test]
fn config_defaults_source_env_yield_to_spec_and_drop_when_unset() {
    let mut env: SortedMap<String> = SortedMap::new();
    env.insert("FRONTKEEP_TEST_DEF_SUBNET", "subnet-grp-1".to_string());
    env.insert("FRONTKEEP_TEST_DEF_SGS", "sg-1, sg-2".to_string());
    let r = req(
        "rds",
        "{\"name\":\"db\",\"instance_class\":\"db.t3.small\"}",
        "{\"defaults\":{\"subnet_group_name\":\"${FRONTKEEP_TEST_DEF_SUBNET}\",\
         \"vpc_security_group_ids\":\"${FRONTKEEP_TEST_DEF_SGS:csv}\",\
         \"region\":\"${FRONTKEEP_TEST_DEF_REGION}\",\"instance_class\":\"db.t3.micro\"}}",
    );
    let v = tfvars(&r, &plan(), &Json::Null, &env);
    assert_eq!(v.get_str("subnet_group_name"), Some("subnet-grp-1"));
    assert_eq!(v.get("vpc_security_group_ids").unwrap().text(), "[\"sg-1\",\"sg-2\"]");
    assert!(v.get("region").is_none());
    assert_eq!(v.get_str("instance_class"), Some("db.t3.small"));
    assert_eq!(resolve_default(&Json::integer(3), &env).unwrap().as_i64(), Some(3));
}

#[test]
fn references_resolve_however_deep_they_stand() {
    let mut env: SortedMap<String> = SortedMap::new();
    env.insert("SET", "here".to_string());
    let resolved = |text: &str| {
        resolve_default(&Json::parse(text).unwrap(), &env).map(|j| j.text())
    };
    assert_eq!(resolved("{\"a\":\"${UNSET}\"}"), None);
    assert_eq!(resolved("{\"a\":\"${UNSET}\",\"b\":1}").as_deref(), Some("{\"b\":1}"));
    assert_eq!(resolved("{\"a\":\"${SET}\"}").as_deref(), Some("{\"a\":\"here\"}"));
    assert_eq!(
        resolved("{\"a\":{\"b\":[\"${UNSET}\",\"x\"],\"c\":[\"${UNSET}\"]}}").as_deref(),
        Some("{\"a\":{\"b\":[\"x\"]}}")
    );
    assert_eq!(resolved("[{\"a\":\"${UNSET}\"}]"), None);
    assert_eq!(resolved("{}").as_deref(), Some("{}"));
    assert_eq!(resolved("[]"), None);
    let r = req("rds", "{}", "{\"defaults\":{\"net\":{\"vpc\":\"${UNSET}\"}}}");
    assert!(tfvars(&r, &plan(), &Json::Null, &env).get("net").is_none());
}

#[test]
fn only_a_suspension_reaches_the_tags() {
    let env: SortedMap<String> = SortedMap::new();
    let r = req("rds", "{\"tags\":\"mine\",\"name\":\"mine\"}", "{}");
    let v = tfvars(&r, &plan(), &Json::Null, &env);
    assert!(v.get("tags").unwrap().is_object());
    assert_eq!(v.get_str("name"), Some(r.name.as_str()));
    let over = Json::parse("{\"tags\":\"held\"}").unwrap();
    assert_eq!(tfvars(&r, &plan(), &over, &env).get_str("tags"), Some("held"));
}

#[test]
fn read_capped_bounds_a_flood_and_marks_truncation() {
    let mut c = Capture::new(10);
    for _ in 0..10 {
        c.take_in(&[b'x'; 10]);
    }
    let out = c.finish();
    assert!(out.starts_with(&[b'x'; 10]));
    let s = String::from_utf8_lossy(&out).to_string();
    assert!(s.contains("output truncated at 10 bytes"));
    assert!(out.len() < 50);
}

#[test]
fn read_capped_keeps_short_output_verbatim() {
    let mut c = Capture::new(1024);
    c.take_in(b"he");
    c.take_in(b"llo");
    assert_eq!(c.finish(), b"hello");
}

#[test]
fn outputs_are_read_with_their_sensitivity() {
    let text = "{\"arn\":{\"value\":\"a\",\"sensitive\":false},\"pw\":{\"value\":\"p\",\"sensitive\":true}}";
    let done = read_outputs(text.as_bytes().to_vec());
    assert_eq!(done.outputs.get_str("arn"), Some("a"));
    assert_eq!(done.sensitive_keys, vec!["pw"]);
    let none = read_outputs(b"\xff".to_vec());
    assert!(none.sensitive_keys.is_empty());
}

#[test]
fn terraform_paths_and_states_are_kept_apart() {
    let t = TerraformConnector::new("terraform", "/modules", "/work");
    let mut a = web();
    let mut b = web();
    b.name = "other".to_string();
    assert_ne!(TerraformConnector::state_id(&a), TerraformConnector::state_id(&b));
    assert_ne!(t.work_dir(&a), t.work_dir(&b));
    a.config = json("{\"module\":\"s3\"}");
    assert_eq!(t.path_of_module(&a.config).unwrap(), "/modules/s3");
    assert!(t.path_of_module(&json("{}")).is_err());
    assert!(t.plan(&a).is_ok());
    assert_eq!(join_path("/a", "/b"), "/b");
    assert_eq!(join_path("/a", "b"), "/a/b");
    assert!(!t.dry_run() && t.supports("x") && t.name() == "terraform");
    let t = t.with_state().with_leases(30).with_plugin_cache("/cache".to_string());
    assert!(t.durable && t.leased && t.tf_lease_ttl == 30);
    assert!(matches!(TerraformConnector::lease_held("x"), ProvisionError::Conflict(_)));
    assert!(TerraformConnector::lease_name("x").contains('x'));
}

#[test]
fn runs_are_told_apart() {
    assert!(failed_run("apply", &b"bad".to_vec()).message().contains("bad"));
    assert!(timed_out("init").message().contains("init"));
    let both = combine_output(&b"out".to_vec(), &b"err".to_vec());
    assert!(both.contains("out") && both.contains("err"));
    assert!(apply_outcome(Ok(()), Ok(())).is_ok());
    assert!(apply_outcome(Err(ProvisionError::Backend("a".to_string())), Ok(())).is_err());
    assert!(apply_outcome(Ok(()), Err(ProvisionError::Backend("b".to_string()))).is_err());
    assert!(has_something(true, false) && has_something(false, true) && !has_something(false, false));
    assert!(skips_file(".terraform"));
    assert!(!skips_file("main.tf"));
    assert!(!sweeps(false, "proj"));
}

// --- cost sources -----------------------------------------------------------

fn window() -> CostWindow {
    CostWindow { start: "2026-06-01".to_string(), end: "2026-07-01".to_string() }
}

#[test]
fn sql_filters_by_project_tag_and_window() {
    assert!(USAGE_SQL.contains("system.billing.usage"));
    assert!(USAGE_SQL.contains("custom_tags.project = :pid"));
    assert!(USAGE_SQL.contains(":start") && USAGE_SQL.contains(":end"));
}

fn cost(v: &str) -> Option<f64> {
    parse_cost(&json(v)).and_then(|t| t.parse::<f64>().ok())
}

#[test]
fn parses_succeeded_scalar() {
    let v = "{\"status\":{\"state\":\"SUCCEEDED\"},\"result\":{\"data_array\":[[\"123.45\"]]}}";
    assert_eq!(cost(v), Some(123.45));
}

#[test]
fn succeeded_zero_is_a_real_zero() {
    let v = "{\"status\":{\"state\":\"SUCCEEDED\"},\"result\":{\"data_array\":[[\"0\"]]}}";
    assert_eq!(cost(v), Some(0.0));
}

#[test]
fn non_succeeded_is_not_measured() {
    assert_eq!(cost("{\"status\":{\"state\":\"PENDING\"}}"), None);
    let failed = "{\"status\":{\"state\":\"FAILED\"},\"result\":{\"data_array\":[[\"9\"]]}}";
    assert_eq!(cost(failed), None);
    assert_eq!(state_of(&json(failed)), "FAILED");
    assert_eq!(state_of(&Json::object()), "no result");
}

#[test]
fn the_warehouse_is_asked_with_parameters() {
    let d = DatabricksCostSource::new("https://h/", "tok", "wh");
    assert_eq!(d.name(), "databricks-billing");
    assert!(d.url().ends_with("/api/2.0/sql/statements"));
    let b = d.body("p'1", &window());
    assert_eq!(b.get_str("statement"), Some(USAGE_SQL));
    assert_eq!(b.get_str("warehouse_id"), Some("wh"));
    assert!(b.get("parameters").unwrap().text().contains("p'1"));
    assert!(d.measured(usd(1.0)).actual_usd.is_some());
    assert!(d.unmeasured("x").actual_usd.is_none());
    assert!(d.refused(403).actual_usd.is_none());
}

#[test]
fn parses_nested_and_flat_spend() {
    let spend = |s: &str| parse_key_spend(&json(s)).and_then(|t| t.parse::<f64>().ok());
    assert_eq!(spend("{\"info\":{\"spend\":12.5}}"), Some(12.5));
    assert_eq!(spend("{\"spend\":3.0}"), Some(3.0));
    assert_eq!(spend("{\"key\":\"sk-x\"}"), None);
}

#[test]
fn keys_are_found_by_their_aliases() {
    let rec = |rtype: &str, state: &str| ProvisionedRecord {
        id: "i".to_string(),
        project_id: "p".to_string(),
        rtype: rtype.to_string(),
        name: "k".to_string(),
        spec: Json::object(),
        outputs: json("{\"key_alias\":\"asgard-p-k\"}"),
        tags: SortedMap::new(),
        est_monthly_usd: usd(0.0),
        state: state.to_string(),
        backend: "litellm".to_string(),
        dry_run: false,
        request_id: None,
        created_at: String::new(),
        updated_at: String::new(),
        error: String::new(),
        attempts: 0,
        next_retry_at: None,
    };
    let mut unminted = rec("litellm-key", "provisioning");
    unminted.outputs = Json::object();
    let found =
        aliases(&vec![rec("litellm-key", "provisioned"), rec("s3-bucket", "provisioned"), unminted]);
    assert_eq!(found, vec!["asgard-p-k"]);
    let s = LiteLlmCostSource;
    assert_eq!(s.name(), "litellm");
    assert!(s.measured(usd(1.0)).actual_usd.is_some());
    assert!(s.unmeasured("x").actual_usd.is_none());
    assert!(s.key_unread("a").actual_usd.is_none());
}

#[test]
fn none_flat_and_unconfigured_report_no_actual() {
    assert!(NoneSource::new("none").cost().actual_usd.is_none());
    assert!(FlatSource.cost().actual_usd.is_none());
    let u = UnconfiguredSource::new("gcp-billing");
    assert!(u.cost().actual_usd.is_none());
    assert_eq!(u.name(), "gcp-billing");
}

#[test]
fn default_registry_has_the_free_sources() {
    let d = CostSourceRegistry::default();
    assert!(matches!(d.sources.get("none"), Some(SourceKind::Unmetered(_))));
    assert!(matches!(d.sources.get("flat"), Some(SourceKind::Flat(_))));
    let mut r = CostSourceRegistry::new();
    assert!(r.get("none").is_some());
    assert!(r.get("free").is_some());
    assert!(r.get("flat").is_some());
    assert!(r.get("aws-cost-explorer").is_none());
    r.register("aws-cost-explorer", SourceKind::Feed);
    assert!(r.get("aws-cost-explorer").is_some());
}

#[test]
fn reports_attributed_model_spend() {
    let c = GatewaySource.cost(usd(2.5));
    assert_eq!(c.actual_usd.unwrap().bits, 2.5f64.to_bits());
    assert_eq!(GatewaySource.name(), "gateway");
    let c = service_cost("b", None, "s");
    assert_eq!((c.backend.as_str(), c.source.as_str()), ("b", "s"));
    assert!(unavailable("b", "s", "down").source.contains("down"));
}

#[test]
fn parses_usd_from_stdout() {
    assert_eq!(printed(&b" 12.5\n".to_vec()), "12.5");
    assert_eq!(json_usd("{\"usd\":12.5}").as_deref(), Some("12.5"));
    assert_eq!(json_usd("12.5"), None);
    let e = ExecCostSource::new(vec!["cost".to_string(), "-x".to_string()]);
    let q = e.query("p1", &window()).unwrap();
    assert_eq!(q[0], "cost");
    assert!(q.contains(&"p1".to_string()) && q.contains(&"2026-06-01".to_string()));
    assert_eq!(e.measured(Some(usd(1.0))).actual_usd.unwrap().bits, 1.0f64.to_bits());
    assert!(e.failed().actual_usd.is_none());
    assert_eq!(e.name(), "exec");
}

#[test]
fn empty_command_is_unconfigured() {
    let e = ExecCostSource::new(vec![]);
    assert!(e.query("p1", &window()).is_none());
    assert!(e.unconfigured().actual_usd.is_none());
}

#[test]
fn the_cloud_bill_is_asked_by_tag() {
    let a = AwsCostExplorerSource::new(None, false);
    assert!(a.query("p1", &window()).is_none());
    assert!(a.dry_run_cost().actual_usd.is_none());
    let a = AwsCostExplorerSource::new(Some("prof".to_string()), true);
    let args = a.query("p1", &window()).unwrap();
    let all = args.join(" ");
    assert!(all.contains("get-cost-and-usage") && all.contains("p1") && all.contains("prof"));
    let total = AwsCostExplorerSource::account_total(None, true);
    assert!(!total.query("*", &window()).unwrap().join(" ").contains("Tags"));
    let reply = json(
        "{\"ResultsByTime\":[{\"Total\":{\"UnblendedCost\":{\"Amount\":\"1.5\"}}},\
         {\"Total\":{\"UnblendedCost\":{\"Amount\":\"2\"}}}]}",
    );
    assert_eq!(amounts(&reply), vec!["1.5", "2"]);
    assert!(a.measured(usd(3.5)).actual_usd.is_some());
}
