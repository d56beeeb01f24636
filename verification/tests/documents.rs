use asgard::json::Json;
use asgard::registry::guidance::{
    categories, document_slug, is_found, is_listed, put, slugify, submission_status, tags_column,
    tags_from_column, write_action,
};
use asgard::registry::mcp_servers::{
    create, is_shown, set_state, set_status, states, update, validate, McpServerInput,
};
use asgard::registry::recipes;
use asgard::registry::skills::{self, BundleFacts, Runtimes, SkillInput};
use asgard::registry::standards;
use asgard::registry::versions::{Version, VersionRow, Versions};

const NOW: &str = "2026-06-03T00:00:00.000Z";

#[test]
fn slugify_normalizes() {
    assert_eq!(slugify("Wire Auth0 into a SPA!"), "wire-auth0-into-a-spa");
    assert_eq!(slugify("  --Hello-- "), "hello");
    assert_eq!(slugify("Ünder Größe"), "ünder-größe");
    assert_eq!(slugify("!!!"), "");
}

#[test]
fn a_slug_is_its_own_slug() {
    for title in ["Wire Auth0 into a SPA!", " a--b ", "!!!", "X", "one two  three"] {
        let s = slugify(title);
        assert_eq!(slugify(&s), s);
        let kept: String = s.chars().filter(|c| *c != '-').collect();
        let want: String =
            title.to_lowercase().chars().filter(|c| c.is_alphanumeric()).collect();
        assert_eq!(kept, want);
    }
}

#[test]
fn put_get_list_roundtrip_and_upsert() {
    let tags = vec!["models".to_string(), "gateway".to_string()];
    let g = put(
        None,
        "Choose a model",
        "how to pick",
        "Route through the gateway.",
        &tags,
        "owner@corp.example",
        true,
        "best-practice",
        NOW,
    )
    .unwrap();
    assert_eq!(g.slug, "choose-a-model");
    assert_eq!(g.category, "best-practice");
    assert_eq!(g.title, "Choose a model");
    assert_eq!(g.tags, tags);
    assert_eq!(g.updated_at, NOW);
    let g = put(
        Some("choose-a-model"),
        "Choose a model (v2)",
        "",
        "Updated.",
        &vec![],
        "a@b.c",
        true,
        "",
        NOW,
    )
    .unwrap();
    assert_eq!(g.slug, "choose-a-model");
    assert_eq!(g.category, "guide");
    assert_eq!(document_slug(Some("x y"), "T"), slugify("x y"));
    assert_eq!(write_action(true), "updated");
    assert_eq!(write_action(false), "created");
}

#[test]
fn drafts_are_hidden_until_approved() {
    let mut g = put(None, "Draft doc", "", "body", &vec![], "agent", false, "guide", NOW).unwrap();
    assert!(!is_listed(&g, false, None));
    assert!(is_listed(&g, true, None));
    g.status = "published".to_string();
    assert!(is_listed(&g, false, None));
    assert_eq!(submission_status(true), "published");
    assert_eq!(submission_status(false), g_status_of_draft());
}

fn g_status_of_draft() -> String {
    put(None, "D", "", "", &vec![], "a", false, "guide", NOW).unwrap().status
}

#[test]
fn category_filter_and_search() {
    let file = |title: &str, summary: &str, body: &str, category: &str| {
        put(None, title, summary, body, &vec![], "a", true, category, NOW).unwrap()
    };
    let all = [
        file("Eval harness", "how to eval", "Run offline evals nightly.", "best-practice"),
        file("Glossary", "terms", "Token: a unit of text.", "reference"),
    ];
    let list = |category: Option<&str>, q: Option<&str>| -> Vec<&str> {
        all.iter()
            .filter(|g| is_listed(g, false, category) && is_found(&g.title, &g.summary, &g.body, q))
            .map(|g| g.title.as_str())
            .collect()
    };
    assert_eq!(list(Some("reference"), None), vec!["Glossary"]);
    assert_eq!(list(Some("guide"), None), Vec::<&str>::new());
    assert_eq!(list(None, Some("NIGHTLY")), vec!["Eval harness"]);
    assert_eq!(list(None, Some("glossary terms")), vec!["Glossary"]);
}

#[test]
fn rejects_unknown_category() {
    assert!(put(None, "X", "", "", &vec![], "a", true, "bogus", NOW).is_err());
    assert!(categories().contains(&"guide".to_string()));
}

#[test]
fn tags_survive_their_column() {
    let tags = vec!["a".to_string(), "b c".to_string()];
    assert_eq!(tags_from_column(&tags_column(&tags)), tags);
    assert!(tags_from_column("").is_empty());
    assert_eq!(tags_column(&tags), "a,b c");
}

#[test]
fn put_get_preserves_spec() {
    let spec = Json::parse(
        "{\"inputs\":[{\"name\":\"image\",\"required\":true}],\
         \"steps\":[{\"id\":\"svc\",\"service\":\"ecs-service\",\"inputs\":{\"name\":\"${inputs.image}\"}}]}",
    )
    .unwrap();
    let r = recipes::put(
        None,
        "MCP Server",
        "",
        "# Runbook\n\nStep through it.",
        &spec,
        &vec!["mcp".to_string()],
        "agent",
        true,
        NOW,
    )
    .unwrap();
    assert_eq!(r.slug, "mcp-server");
    let service = r.spec.get("steps").unwrap().get_item(0).unwrap().get_str("service");
    assert_eq!(service, Some("ecs-service"));
    assert!(r.body.contains("Runbook"));
    assert!(r.spec.same(&spec));
}

#[test]
fn drafts_hidden_until_approved_and_search() {
    let mut r = recipes::put(
        None,
        "Realtime Collab",
        "",
        "Build with websockets.",
        &Json::object(),
        &vec![],
        "agent",
        false,
        NOW,
    )
    .unwrap();
    assert!(!recipes::is_listed(&r, false));
    assert!(recipes::is_listed(&r, true));
    r.status = "published".to_string();
    assert!(recipes::is_listed(&r, false));
    assert!(is_found(&r.name, &r.summary, &r.body, Some("WEBSOCKETS")));
    assert!(!is_found(&r.name, &r.summary, &r.body, Some("nope")));
    assert!(is_found(&r.name, &r.summary, &r.body, None));
}

#[test]
fn put_get_list_and_search() {
    let s = standards::put(
        "coding",
        "Engineering Standards",
        "code + tests",
        "Use conventional commits.",
        "asgard",
        NOW,
    )
    .unwrap();
    assert_eq!(s.id, "coding");
    assert_eq!(s.title, "Engineering Standards");
    assert_eq!(s.status, "published");
    let security = standards::put(
        "security",
        "Security",
        "secrets + least privilege",
        "No shadow AI.",
        "asgard",
        NOW,
    )
    .unwrap();
    let again =
        standards::put("coding", "Engineering Standards v2", "", "Updated body.", "admin", NOW)
            .unwrap();
    assert_eq!(again.title, "Engineering Standards v2");
    assert_eq!(again.body, "Updated body.");
    let mut by_id = std::collections::BTreeMap::new();
    for s in [s, security, again] {
        by_id.insert(s.id.clone(), s);
    }
    assert_eq!(by_id.len(), 2);
    let hits: Vec<&str> = by_id
        .values()
        .filter(|s| is_found(&s.title, &s.summary, &s.body, Some("SHADOW")))
        .map(|s| s.id.as_str())
        .collect();
    assert_eq!(hits, vec!["security"]);
}

fn server(name: &str) -> McpServerInput {
    McpServerInput {
        name: name.to_string(),
        summary: "does things".to_string(),
        readme: String::new(),
        install: Json::parse(
            "{\"transport\":\"stdio\",\"command\":\"npx\",\"args\":[\"-y\",\"pkg\"]}",
        )
        .unwrap(),
        repository: String::new(),
        homepage: String::new(),
        version: String::new(),
        tags: vec!["test".to_string()],
    }
}

#[test]
fn create_get_list_roundtrip_keeps_install() {
    let m = create("s1", "alice@corp.example", &server("GitHub"), false, NOW).unwrap();
    assert_eq!(m.status, "community");
    assert_eq!(m.state, "active");
    assert_eq!(m.owner, "alice@corp.example");
    assert_eq!(m.name, "GitHub");
    assert_eq!(m.install.get_str("command"), Some("npx"));
    assert_eq!(m.tags, vec!["test"]);
    assert!(m.approved_at.is_none());
}

#[test]
fn both_tiers_are_visible_and_status_filters() {
    for status in ["community", "approved"] {
        assert!(is_shown("active", status, None, None));
        assert!(is_shown("active", status, None, Some(status)));
    }
    assert!(!is_shown("active", "community", None, Some("approved")));
}

#[test]
fn mcp_servers_approve_sets_stamp_and_unapprove_clears_it() {
    let c = set_status("approved", Some("admin@corp.example"), NOW);
    assert_eq!(c.status, "approved");
    assert_eq!(c.approved_by.as_deref(), Some("admin@corp.example"));
    assert!(c.approved_at.is_some());
    let c = set_status("community", None, NOW);
    assert_eq!(c.status, "community");
    assert_eq!(c.approved_by, None);
    assert_eq!(c.approved_at, None);
}

#[test]
fn update_preserves_owner_and_tier() {
    let m = create("s1", "owner@corp.example", &server("svc"), true, NOW).unwrap();
    let mut edit = server("svc renamed");
    edit.summary = "now does more".to_string();
    let updated = update(m, &edit, "2026-07-01").unwrap();
    assert_eq!(updated.name, "svc renamed");
    assert_eq!(updated.summary, "now does more");
    assert_eq!(updated.owner, "owner@corp.example");
    assert_eq!(updated.status, "approved");
    assert_eq!(updated.state, "active");
    assert_eq!(updated.created_at, NOW);
    assert_eq!(updated.updated_at, "2026-07-01");
}

#[test]
fn disabled_and_archived_drop_from_active_list_and_return() {
    for state in ["disabled", "archived"] {
        assert!(set_state(state).is_ok());
        assert!(!is_shown(state, "approved", None, None));
        assert!(is_shown(state, "approved", Some(state), None));
        assert!(is_shown(state, "approved", Some("all"), None));
    }
    assert!(is_shown("active", "approved", None, None));
    assert_eq!(states(), vec!["active", "disabled", "archived"]);
}

#[test]
fn delete_removes_and_bad_state_rejected() {
    assert!(set_state("bogus").is_err());
}

#[test]
fn name_is_required() {
    assert!(create("s1", "u", &server("  "), false, NOW).is_err());
    assert!(validate(&server("  ")).is_err());
    assert!(validate(&server("x")).is_ok());
}

fn known() -> Runtimes {
    Runtimes { names: vec!["one".to_string(), "two".to_string()], default: "one".to_string() }
}

fn facts(manifest: &str) -> BundleFacts {
    BundleFacts {
        manifest: Json::parse(manifest).unwrap(),
        portability: "portable".to_string(),
        sha256: "abc".to_string(),
        bytes: 10,
    }
}

fn skill(name: &str, summary: &str) -> SkillInput {
    SkillInput {
        name: name.to_string(),
        summary: summary.to_string(),
        readme: String::new(),
        runtime: String::new(),
        repository: String::new(),
        homepage: String::new(),
        version: String::new(),
        tags: vec!["t".to_string()],
    }
}

#[test]
fn create_get_list_roundtrip_keeps_bundle() {
    let f = facts("{\"name\":\"pdf-tools\",\"description\":\"works on PDFs\"}");
    let s = skills::create("k1", "alice", &skill("PDF", "sum"), &f, &known(), false, NOW).unwrap();
    assert_eq!(s.name, "PDF");
    assert_eq!(s.summary, "sum");
    assert_eq!(s.runtime, "one");
    assert_eq!(s.status, "community");
    assert_eq!(s.bundle_sha256, "abc");
    assert_eq!(s.bundle_bytes, 10);
    assert_eq!(s.portability, "portable");
    assert!(s.review_json.is_none());
}

#[test]
fn name_and_summary_fall_back_to_frontmatter() {
    let f = facts("{\"name\":\"pdf-tools\",\"description\":\"works on PDFs\"}");
    let s = skills::create("k1", "alice", &skill(" ", ""), &f, &known(), true, NOW).unwrap();
    assert_eq!(s.name, "pdf-tools");
    assert_eq!(s.summary, "works on PDFs");
    assert_eq!(s.status, "approved");
    assert_eq!(s.approved_by.as_deref(), Some("alice"));
}

#[test]
fn update_preserves_owner_and_tier_and_rederives_bundle() {
    let f = facts("{\"name\":\"a\"}");
    let s = skills::create("k1", "alice", &skill("A", ""), &f, &known(), true, NOW).unwrap();
    let s = skills::set_review(s, &Json::Bool(true), "2026-06-10");
    let mut g = facts("{\"name\":\"b\"}");
    g.sha256 = "def".to_string();
    let mut edit = skill("", "");
    edit.runtime = "two".to_string();
    let u = skills::update(s, &edit, &g, &known(), "2026-07-01").unwrap();
    assert_eq!(u.name, "b");
    assert_eq!(u.owner, "alice");
    assert_eq!(u.status, "approved");
    assert_eq!(u.bundle_sha256, "def");
    assert_eq!(u.runtime, "two");
    assert_eq!(u.reviewed_at.as_deref(), Some("2026-06-10"));
}

#[test]
fn both_tiers_visible_and_status_filters() {
    let f = facts("{}");
    let a = skills::create("k1", "u", &skill("community-one", ""), &f, &known(), false, NOW).unwrap();
    let b = skills::create("k2", "asgard", &skill("approved-one", ""), &f, &known(), true, NOW).unwrap();
    let shown = |status: Option<&str>| {
        [&a, &b].iter().filter(|s| is_shown(&s.state, &s.status, None, status)).count()
    };
    assert_eq!(shown(None), 2);
    assert_eq!(shown(Some("approved")), 1);
    assert_eq!(shown(Some("community")), 1);
}

#[test]
fn skills_approve_sets_stamp_and_unapprove_clears_it() {
    let f = facts("{}");
    let mut s = skills::create("k1", "u", &skill("svc", ""), &f, &known(), false, NOW).unwrap();
    let tier = set_status("approved", Some("admin@corp.example"), NOW);
    (s.status, s.approved_at, s.approved_by) = (tier.status, tier.approved_at, tier.approved_by);
    assert_eq!(s.status, "approved");
    assert_eq!(s.approved_by.as_deref(), Some("admin@corp.example"));
    let tier = set_status("community", None, NOW);
    (s.status, s.approved_at, s.approved_by) = (tier.status, tier.approved_at, tier.approved_by);
    assert_eq!(s.status, "community");
    assert_eq!(s.approved_by, None);
}

#[test]
fn lifecycle_and_review_and_delete() {
    let f = facts("{}");
    let mut s = skills::create("k1", "u", &skill("svc", ""), &f, &known(), true, NOW).unwrap();
    assert!(set_state("disabled").is_ok());
    s.state = "disabled".to_string();
    assert!(!is_shown(&s.state, &s.status, None, None));
    assert!(is_shown(&s.state, &s.status, Some("disabled"), None));
    assert!(set_state("active").is_ok());
    s.state = "active".to_string();
    assert!(set_state("bogus").is_err());
    let s = skills::set_review(s, &Json::parse("{\"passed\":true}").unwrap(), NOW);
    let verdict = s.review_json.unwrap();
    assert!(matches!(verdict.get("passed"), Some(Json::Bool(true))));
    assert!(s.reviewed_at.is_some());
}

#[test]
fn rejects_missing_name_and_bad_runtime() {
    let f = facts("{}");
    assert!(skills::create("k", "a", &skill("", ""), &f, &known(), false, NOW).is_err());
    let mut bad = skill("x", "");
    bad.runtime = "vim".to_string();
    match skills::create("k", "a", &bad, &f, &known(), false, NOW) {
        Err(e) => assert!(e.message().ends_with("runtime must be one of: one, two")),
        Ok(_) => panic!("a runtime that nobody knows"),
    }
}

#[test]
fn append_increments_per_key_and_history_is_newest_first() {
    let mut v = Versions::new();
    let body = |t: &str| {
        let mut j = Json::object();
        j.insert_str("body", t);
        j
    };
    let v1 = v.append("guidance", "g1", "created", "a", body("v1"), NOW);
    let v2 = v.append("guidance", "g1", "updated", "b", body("v2"), NOW);
    assert_eq!((v1, v2), (1, 2));
    let other = v.append("guidance", "g2", "created", "a", Json::object(), NOW);
    assert_eq!(other, 1);
    let hist = v.history("guidance", "g1");
    assert_eq!(hist.len(), 2);
    assert_eq!(hist[0].version, 2);
    assert_eq!(hist[0].action, "updated");
    assert_eq!(hist[0].snapshot.get_str("body"), Some("v2"));
    assert_eq!(hist[1].version, 1);
    assert_eq!(v.current("guidance", "g1"), 2);
    assert_eq!(v.current("guidance", "none"), 0);
}

#[test]
fn versions_are_told_by_number() {
    let row = |version: i64| VersionRow {
        doc_type: "guidance".to_string(),
        slug: "g1".to_string(),
        entry: Version {
            version,
            action: "updated".to_string(),
            author: "a".to_string(),
            changed_at: NOW.to_string(),
            snapshot: Json::Null,
        },
    };
    let v = Versions::from_rows(vec![row(2), row(1), row(3)]);
    let told: Vec<i64> = v.history("guidance", "g1").iter().map(|e| e.version).collect();
    assert_eq!(told, vec![3, 2, 1]);
}

#[test]
fn tags_come_back_as_they_are_stored() {
    let given = vec!["a,b".to_string(), " c ".to_string(), " ".to_string()];
    let mut input = server("GitHub");
    input.tags = given.clone();
    let m = create("s1", "o", &input, false, NOW).unwrap();
    assert_eq!(m.tags, given);
    assert_eq!(update(m, &input, NOW).unwrap().tags, vec!["a", "b", "c"]);
    let f = facts("{}");
    let mut input = skill("PDF", "sum");
    input.tags = given;
    let s = skills::create("k1", "o", &input, &f, &known(), false, NOW).unwrap();
    assert_eq!(s.tags, vec!["a", "b", "c"]);
    assert_eq!(skills::update(s, &input, &f, &known(), NOW).unwrap().tags, vec!["a", "b", "c"]);
}

#[test]
fn approve_action_is_recorded() {
    let mut v = Versions::new();
    v.append("recipes", "r1", "created", "a", Json::object(), NOW);
    assert_eq!(v.append("recipes", "r1", "approved", "admin", Json::object(), NOW), 2);
    assert_eq!(v.history("recipes", "r1")[0].action, "approved");
}
