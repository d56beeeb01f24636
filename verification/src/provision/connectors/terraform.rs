//! The Terraform connector: where a resource's module and working directory are,
//! which variables it is applied with, how its outputs are read, and what becomes
//! of a run that fails halfway.
use vstd::prelude::*;
use vstd::utf8::encode_utf8;

use crate::json::{
    items_view, json_read, json_view, lemma_items_view, strings_view, Json, JsonView,
};
use crate::provision::connectors::{tags_json, tags_object};
use crate::provision::context::text_map;
use crate::provision::outputs::{Plan, Provisioned};
use crate::provision::seal::{read_utf8, utf8_read};
use crate::provision::work::{ProvisionRequest, RequestView};
use crate::provision::{ProvisionError, ProvisionFault};
use crate::sorted_map::{increasing, SortedMap};
use crate::text::{
    after_prefix, before_suffix, begins_with, blank, decimal, decimal_text, ends_with,
    ends_with_char, is_blank, lemma_take_more, pieces, shown, split, starts_with, strip_prefix,
    strip_suffix, text_eq, text_lossy, texts, trim, trimmed,
};

verus! {

/// The longest that one run may take.
pub const RUN_TIMEOUT_SECS: u64 = 3600;

/// How much of a run's output is kept, per stream.
pub const MAX_CAPTURE_BYTES: usize = 4194304;

/// The connector as the operator has set it up.
#[derive(Debug)]
pub struct TerraformConnector {
    pub bin: String,
    pub modules_dir: String,
    pub work_root: String,
    /// State outlives the working directory.
    pub durable: bool,
    /// Replicas take turns on a resource.
    pub leased: bool,
    pub tf_lease_ttl: i64,
    pub plugin_cache: Option<String>,
}

// ---------------------------------------------------------------------------
// Paths
// ---------------------------------------------------------------------------

/// A path behind another one; an absolute path stands for itself.
pub open spec fn joined_path(base: Seq<char>, path: Seq<char>) -> Seq<char> {
    if begins_with(path, "/"@) || base.len() == 0 {
        path
    } else if ends_with_char(base, '/') {
        base + path
    } else {
        base + "/"@ + path
    }
}

/// A path behind another one.
pub fn join_path(base: &str, path: &str) -> (r: String)
    ensures
        r@ == joined_path(base@, path@),
{
    if starts_with(path, "/") || base.is_empty() {
        return path.to_owned();
    }
    let mut p = base.to_owned();
    if !ends_with(base, '/') {
        p.append("/");
    }
    p.append(path);
    p
}

/// The identity of a resource's state.
pub open spec fn state_id_of(req: RequestView) -> Seq<char> {
    req.ctx.project_id + "/"@ + req.resource_type + "/"@ + req.name
}

/// The module that a configuration names, among the operator's modules.
pub open spec fn module_of(modules_dir: Seq<char>, config: JsonView) -> Option<Seq<char>> {
    match config.text_at("module"@) {
        Some(m) => Some(joined_path(modules_dir, m)),
        None => None,
    }
}

/// Whether a file of a module stays out of the working directory: the state and
/// the cache do.
pub open spec fn kept_out(name: Seq<char>) -> bool {
    name == ".terraform"@ || begins_with(name, "terraform.tfstate"@)
}

/// Whether a file of a module stays out of the working directory.
pub fn skips_file(name: &str) -> (r: bool)
    ensures
        r == kept_out(name@),
{
    text_eq(name, ".terraform") || starts_with(name, "terraform.tfstate")
}

// ---------------------------------------------------------------------------
// Variables
// ---------------------------------------------------------------------------

/// The variable of the environment that a default names: `${NAME}` for its text,
/// `${NAME:csv}` for the list in it.
pub open spec fn env_reference(s: Seq<char>) -> Option<(Seq<char>, bool)> {
    match after_prefix(s, "${"@) {
        Some(tail) => match before_suffix(tail, "}"@) {
            Some(inner) => match before_suffix(inner, ":csv"@) {
                Some(name) => Some((name, true)),
                None => Some((inner, false)),
            },
            None => None,
        },
        None => None,
    }
}

fn reference_in(s: &str) -> (r: Option<(String, bool)>)
    ensures
        match r {
            Some(p) => env_reference(s@) == Some((p.0@, p.1)),
            None => env_reference(s@) is None,
        },
{
    let tail = match strip_prefix(s, "${") {
        Some(t) => t,
        None => {
            return None;
        },
    };
    let inner = match strip_suffix(tail.as_str(), "}") {
        Some(t) => t,
        None => {
            return None;
        },
    };
    match strip_suffix(inner.as_str(), ":csv") {
        Some(name) => Some((name, true)),
        None => Some((inner, false)),
    }
}

/// The pieces that are not blank, trimmed.
pub open spec fn filled(items: Seq<Seq<char>>) -> Seq<Seq<char>>
    decreases items.len(),
{
    if items.len() == 0 {
        Seq::empty()
    } else {
        let rest = filled(items.drop_last());
        if trimmed(items.last()).len() == 0 {
            rest
        } else {
            rest.push(trimmed(items.last()))
        }
    }
}

fn csv_items(s: &str) -> (r: Vec<String>)
    ensures
        texts(r@) == filled(pieces(s@, ',')),
{
    let parts = split(s, ',');
    let ghost all = texts(parts@);
    let mut out: Vec<String> = Vec::new();
    let mut i: usize = 0;
    assert(all.take(0) =~= Seq::empty());
    assert(texts(out@) =~= Seq::empty());
    while i < parts.len()
        invariant
            i <= parts@.len(),
            all == texts(parts@),
            texts(out@) == filled(all.take(i as int)),
        decreases parts.len() - i,
    {
        let ghost prev = texts(out@);
        proof {
            assert(all.take(i + 1).drop_last() =~= all.take(i as int));
            assert(all.take(i + 1).last() == parts@[i as int]@);
        }
        let t = trim(parts[i].as_str());
        if !t.as_str().is_empty() {
            let ghost seen = t@;
            out.push(t);
            assert(texts(out@) =~= prev.push(seen));
        }
        i = i + 1;
    }
    assert(all.take(parts@.len() as int) =~= all);
    out
}

/// A default with the environment put in: a reference to a variable that is not
/// set drops out, and so does a list, or an object that had members, that nothing
/// is left of.
pub open spec fn resolved_default(v: JsonView, env: Map<Seq<char>, Seq<char>>) -> Option<JsonView>
    decreases v, 1int,
{
    match v {
        JsonView::Str(s) => match env_reference(s) {
            Some(p) => if !env.contains_key(p.0) {
                None
            } else if p.1 {
                let items = filled(pieces(env[p.0], ','));
                if items.len() == 0 {
                    None
                } else {
                    Some(JsonView::Array(strings_view(items)))
                }
            } else {
                Some(JsonView::Str(env[p.0]))
            },
            None => Some(v),
        },
        JsonView::Array(items) => {
            let left = resolved_items(items, env);
            if left.len() == 0 {
                None
            } else {
                Some(JsonView::Array(left))
            }
        },
        JsonView::Object(m) => {
            let left = resolved_members(v, env);
            if left == Map::<Seq<char>, JsonView>::empty() && m != Map::<
                Seq<char>,
                JsonView,
            >::empty() {
                None
            } else {
                Some(JsonView::Object(left))
            }
        },
        other => Some(other),
    }
}

/// The members of an object that the environment leaves; none of any other value.
pub open spec fn resolved_members(v: JsonView, env: Map<Seq<char>, Seq<char>>) -> Map<
    Seq<char>,
    JsonView,
>
    decreases v, 0int,
{
    match v {
        JsonView::Object(m) => Map::new(
            |k: Seq<char>| m.contains_key(k) && resolved_default(m[k], env) is Some,
            |k: Seq<char>|
                if m.contains_key(k) {
                    resolved_default(m[k], env)->0
                } else {
                    JsonView::Null
                },
        ),
        _ => Map::empty(),
    }
}

/// The defaults of a list that the environment leaves.
pub open spec fn resolved_items(items: Seq<JsonView>, env: Map<Seq<char>, Seq<char>>) -> Seq<
    JsonView,
>
    decreases items, 0int,
{
    if items.len() == 0 {
        Seq::empty()
    } else {
        let rest = resolved_items(items.drop_last(), env);
        match resolved_default(items[items.len() - 1], env) {
            Some(v) => rest.push(v),
            None => rest,
        }
    }
}

/// A default with the environment put in.
pub fn resolve_default(v: &Json, env: &SortedMap<String>) -> (r: Option<Json>)
    ensures
        match r {
            Some(j) => resolved_default(v@, text_map(env@)) == Some(j@),
            None => resolved_default(v@, text_map(env@)) is None,
        },
    decreases v, 1int,
{
    match v {
        Json::Str(s) => match reference_in(s.as_str()) {
            Some(p) => match env.get(p.0.as_str()) {
                Some(val) => {
                    assert(text_map(env@)[p.0@] == val@);
                    if p.1 {
                        let items = csv_items(val.as_str());
                        if items.len() == 0 {
                            None
                        } else {
                            Some(Json::strings(&items))
                        }
                    } else {
                        Some(Json::Str(val.clone()))
                    }
                },
                None => None,
            },
            None => Some(Json::Str(s.clone())),
        },
        Json::Array(items) => {
            let ghost all = items_view(items@);
            let ghost e = text_map(env@);
            proof {
                lemma_items_view(items@);
                assert(all.take(0) =~= Seq::empty());
            }
            let mut out: Vec<Json> = Vec::new();
            let mut i: usize = 0;
            while i < items.len()
                invariant
                    i <= items@.len(),
                    all == items_view(items@),
                    all.len() == items@.len(),
                    e == text_map(env@),
                    forall|k: int|
                        0 <= k < items@.len() ==> #[trigger] all[k] == json_view(items@[k]),
                    items_view(out@) == resolved_items(all.take(i as int), e),
                    decreases_to!(v => items),
                decreases items.len() - i,
            {
                let ghost prev = out@;
                proof {
                    assert(all.take(i + 1).drop_last() =~= all.take(i as int));
                    assert(all.take(i + 1)[i as int] == all[i as int]);
                    assert(decreases_to!(items => items[i as int]));
                }
                match resolve_default(&items[i], env) {
                    Some(j) => {
                        out.push(j);
                        assert(out@.drop_last() =~= prev);
                    },
                    None => {},
                }
                i = i + 1;
            }
            proof {
                assert(all.take(items@.len() as int) =~= all);
                lemma_items_view(out@);
            }
            if out.len() == 0 {
                None
            } else {
                Some(Json::Array(out))
            }
        },
        Json::Object(_) => {
            let left = resolve_members(v, env);
            if left.is_empty_object() && !v.is_empty_object() {
                None
            } else {
                Some(left)
            }
        },
        other => Some(other.copy()),
    }
}

/// The members of an object that the environment leaves.
fn resolve_members(d: &Json, env: &SortedMap<String>) -> (r: Json)
    ensures
        r@ == JsonView::Object(resolved_members(d@, text_map(env@))),
    decreases d, 0int,
{
    let mut out = Json::object();
    let ghost e = text_map(env@);
    let ghost want = resolved_members(d@, e);
    let keys = d.keys();
    let n: usize = keys.len();
    let ghost names = texts(keys@);
    let mut i: usize = 0;
    while i < n
        invariant
            i <= n,
            n == keys@.len(),
            names == texts(keys@),
            e == text_map(env@),
            forall|k: Seq<char>| #[trigger] names.contains(k) <==> d@.at(k) is Some,
            out@ is Object,
            forall|k: Seq<char>| #[trigger]
                out@->Object_0.contains_key(k) <==> names.take(i as int).contains(k)
                    && resolved_default(d@.at(k)->0, e) is Some,
            forall|k: Seq<char>| #[trigger]
                out@->Object_0.contains_key(k) ==> out@->Object_0[k] == resolved_default(
                    d@.at(k)->0,
                    e,
                )->0,
        decreases n - i,
    {
        proof {
            lemma_take_more(names, i as int);
            assert(names.contains(names[i as int]));
        }
        match d.get(keys[i].as_str()) {
            Some(v) => match resolve_default(v, env) {
                Some(j) => out.insert(keys[i].as_str(), j),
                None => {},
            },
            None => {
                assert(false);
            },
        }
        i = i + 1;
    }
    proof {
        assert(names.take(n as int) =~= names);
        let got = out@->Object_0;
        assert forall|k: Seq<char>| #[trigger] got.dom().contains(k) == want.dom().contains(k) by {
            assert(got.contains_key(k) == got.dom().contains(k));
            assert(names.contains(k) <==> d@.at(k) is Some);
        }
        assert forall|k: Seq<char>| #[trigger] got.dom().contains(k) implies got[k] == want[k] by {
            assert(got.contains_key(k));
            assert(names.contains(k) <==> d@.at(k) is Some);
        }
        assert(got =~= want);
    }
    out
}

/// A text stands somewhere in a value.
pub open spec fn has_text(v: JsonView, s: Seq<char>) -> bool
    decreases v,
{
    match v {
        JsonView::Str(t) => t == s,
        JsonView::Array(items) => exists|i: int|
            0 <= i < items.len() && has_text(#[trigger] items[i], s),
        JsonView::Object(m) => exists|k: Seq<char>|
            m.contains_key(k) && has_text(#[trigger] m[k], s),
        _ => false,
    }
}

/// The environment holds a text: as a variable's value, or as a piece of one.
pub open spec fn environment_holds(env: Map<Seq<char>, Seq<char>>, s: Seq<char>) -> bool {
    exists|name: Seq<char>| #[trigger]
        env.contains_key(name) && (env[name] == s || filled(pieces(env[name], ',')).contains(s))
}

/// No reference survives in a default, however deep it stands: a text of the result
/// that looks like one is what the environment itself holds.
pub proof fn law_no_reference_is_left(
    v: JsonView,
    env: Map<Seq<char>, Seq<char>>,
    s: Seq<char>,
)
    requires
        resolved_default(v, env) is Some,
        has_text(resolved_default(v, env)->0, s),
    ensures
        env_reference(s) is None || environment_holds(env, s),
    decreases v, 0int,
{
    let r = resolved_default(v, env)->0;
    match v {
        JsonView::Str(t) => match env_reference(t) {
            Some(p) => {
                assert(env.contains_key(p.0));
                if p.1 {
                    let items = filled(pieces(env[p.0], ','));
                    let i = choose|i: int|
                        0 <= i < r->Array_0.len() && has_text(#[trigger] r->Array_0[i], s);
                    assert(items[i] == s);
                }
            },
            None => {},
        },
        JsonView::Array(items) => {
            let i = choose|i: int|
                0 <= i < r->Array_0.len() && has_text(#[trigger] r->Array_0[i], s);
            lemma_no_reference_in_items(items, env, i, s);
        },
        JsonView::Object(m) => {
            let k = choose|k: Seq<char>|
                r->Object_0.contains_key(k) && has_text(#[trigger] r->Object_0[k], s);
            assert(m.contains_key(k));
            law_no_reference_is_left(m[k], env, s);
        },
        _ => {},
    }
}

proof fn lemma_no_reference_in_items(
    items: Seq<JsonView>,
    env: Map<Seq<char>, Seq<char>>,
    i: int,
    s: Seq<char>,
)
    requires
        0 <= i < resolved_items(items, env).len(),
        has_text(resolved_items(items, env)[i], s),
    ensures
        env_reference(s) is None || environment_holds(env, s),
    decreases items, 0int,
{
    let rest = resolved_items(items.drop_last(), env);
    if i < rest.len() {
        lemma_no_reference_in_items(items.drop_last(), env, i, s);
    } else {
        law_no_reference_is_left(items[items.len() - 1], env, s);
    }
}

/// The defaults of a configuration that the environment leaves.
pub open spec fn defaults_of(config: JsonView, env: Map<Seq<char>, Seq<char>>) -> Map<
    Seq<char>,
    JsonView,
> {
    match config.at("defaults"@) {
        Some(d) => resolved_members(d, env),
        None => Map::empty(),
    }
}

/// The members of an object; none of any other value.
pub open spec fn members_of(j: JsonView) -> Map<Seq<char>, JsonView> {
    match j {
        JsonView::Object(m) => m,
        _ => Map::empty(),
    }
}

/// The variables that a module is applied with: the operator's defaults at the
/// bottom, the spec over them, then the name and the project's tags, and at the
/// top what a suspension puts over everything. No spec reaches the name or the tags;
/// the overrides of a suspension are the operator's own and may.
pub open spec fn tfvars_of(
    req: RequestView,
    tags: Map<Seq<char>, Seq<char>>,
    overrides: JsonView,
    env: Map<Seq<char>, Seq<char>>,
) -> Map<Seq<char>, JsonView> {
    defaults_of(req.config, env).union_prefer_right(members_of(req.spec)).insert(
        "name"@,
        JsonView::Str(req.name),
    ).insert("tags"@, JsonView::Object(tags_object(tags))).union_prefer_right(
        members_of(overrides),
    )
}

fn default_vars(config: &Json, env: &SortedMap<String>) -> (r: Json)
    ensures
        r@ == JsonView::Object(defaults_of(config@, text_map(env@))),
{
    match config.get("defaults") {
        Some(d) => resolve_members(d, env),
        None => Json::object(),
    }
}

/// The variables that a module is applied with.
pub fn tfvars(
    req: &ProvisionRequest,
    plan: &Plan,
    overrides: &Json,
    env: &SortedMap<String>,
) -> (r: Json)
    ensures
        r@ == JsonView::Object(
            tfvars_of(req@, text_map(plan.tags@), overrides@, text_map(env@)),
        ),
{
    let mut m = default_vars(&req.config, env);
    let ghost d = m@->Object_0;
    m.overlay(&req.spec);
    proof {
        assert(d.union_prefer_right(Map::<Seq<char>, JsonView>::empty()) =~= d);
    }
    m.insert_str("name", req.name.as_str());
    m.insert("tags", tags_json(&plan.tags));
    let ghost all = m@->Object_0;
    m.overlay(overrides);
    proof {
        assert(all.union_prefer_right(Map::<Seq<char>, JsonView>::empty()) =~= all);
    }
    m
}

/// What a suspension puts over the variables wins; without it the name and the tags
/// are the resource's, every other variable is the spec's, and the operator's
/// defaults only fill in what the spec leaves open.
pub proof fn law_layers_of_variables(
    req: RequestView,
    tags: Map<Seq<char>, Seq<char>>,
    overrides: JsonView,
    env: Map<Seq<char>, Seq<char>>,
    key: Seq<char>,
)
    ensures
        members_of(overrides).contains_key(key) ==> tfvars_of(req, tags, overrides, env)[key]
            == members_of(overrides)[key],
        !members_of(overrides).contains_key("name"@) ==> tfvars_of(req, tags, overrides, env)["name"@]
            == JsonView::Str(req.name),
        !members_of(overrides).contains_key("tags"@) ==> tfvars_of(req, tags, overrides, env)["tags"@]
            == JsonView::Object(tags_object(tags)),
        !members_of(overrides).contains_key(key) && key != "name"@ && key != "tags"@
            && members_of(req.spec).contains_key(key) ==> tfvars_of(req, tags, overrides, env)[key]
            == members_of(req.spec)[key],
        !members_of(overrides).contains_key(key) && key != "name"@ && key != "tags"@
            && !members_of(req.spec).contains_key(key) ==> (tfvars_of(
            req,
            tags,
            overrides,
            env,
        ).contains_key(key) <==> defaults_of(req.config, env).contains_key(key)),
{
    reveal_strlit("name");
    reveal_strlit("tags");
    assert("name"@ != "tags"@) by {
        assert("name"@[0] != "tags"@[0]);
    }
}

// ---------------------------------------------------------------------------
// Outputs
// ---------------------------------------------------------------------------

/// What a run printed as JSON; null where it is none.
pub open spec fn printed_json(stdout: Seq<u8>) -> JsonView {
    match utf8_read(stdout) {
        Ok(s) => match json_read(s) {
            Ok(j) => j,
            Err(_) => JsonView::Null,
        },
        Err(_) => JsonView::Null,
    }
}

/// The value that a declared output has; null where none is given.
pub open spec fn output_value(decl: JsonView) -> JsonView {
    match decl.at("value"@) {
        Some(v) => v,
        None => JsonView::Null,
    }
}

/// The outputs that a module declares, by name.
pub open spec fn outputs_of(raw: JsonView) -> Map<Seq<char>, JsonView> {
    members_of(raw).map_values(|d: JsonView| output_value(d))
}

/// Whether a module declares an output as sensitive.
pub open spec fn sensitive_in(raw: JsonView, key: Seq<char>) -> bool {
    members_of(raw).contains_key(key) && members_of(raw)[key].at("sensitive"@) == Some(
        JsonView::Bool(true),
    )
}

/// What a module brought up, read from what `terraform output -json` printed.
pub fn read_outputs(stdout: Vec<u8>) -> (r: Provisioned)
    ensures
        r.outputs@ == JsonView::Object(outputs_of(printed_json(stdout@))),
        r.resource_ids@.len() == 0,
        increasing(texts(r.sensitive_keys@)),
        forall|k: Seq<char>| #[trigger]
            texts(r.sensitive_keys@).contains(k) <==> sensitive_in(printed_json(stdout@), k),
{
    let ghost raw_view = printed_json(stdout@);
    let raw = match read_utf8(stdout) {
        Ok(s) => match Json::parse(s.as_str()) {
            Ok(j) => j,
            Err(_) => Json::Null,
        },
        Err(_) => Json::Null,
    };
    assert(raw@ == raw_view);
    let mut outputs = Json::object();
    let mut sensitive: SortedMap<bool> = SortedMap::new();
    let keys = raw.keys();
    let n: usize = keys.len();
    let ghost names = texts(keys@);
    let mut i: usize = 0;
    while i < n
        invariant
            i <= n,
            n == keys@.len(),
            names == texts(keys@),
            raw@ == raw_view,
            forall|k: Seq<char>| #[trigger] names.contains(k) <==> raw@.at(k) is Some,
            outputs@ is Object,
            forall|k: Seq<char>| #[trigger]
                outputs@->Object_0.contains_key(k) <==> names.take(i as int).contains(k),
            forall|k: Seq<char>| #[trigger]
                outputs@->Object_0.contains_key(k) ==> outputs@->Object_0[k] == output_value(
                    raw@.at(k)->0,
                ),
            forall|k: Seq<char>| #[trigger]
                sensitive@.contains_key(k) <==> names.take(i as int).contains(k) && sensitive_in(
                    raw_view,
                    k,
                ),
        decreases n - i,
    {
        proof {
            lemma_take_more(names, i as int);
            assert(names.contains(names[i as int]));
        }
        match raw.get(keys[i].as_str()) {
            Some(decl) => {
                let value = match decl.get("value") {
                    Some(v) => v.copy(),
                    None => Json::Null,
                };
                let marked = match decl.get("sensitive") {
                    Some(Json::Bool(b)) => *b,
                    _ => false,
                };
                if marked {
                    sensitive.insert(keys[i].as_str(), true);
                }
                outputs.insert(keys[i].as_str(), value);
            },
            None => {
                assert(false);
            },
        }
        i = i + 1;
    }
    proof {
        assert(names.take(n as int) =~= names);
        let got = outputs@->Object_0;
        let want = outputs_of(raw_view);
        assert forall|k: Seq<char>| #[trigger] got.dom().contains(k) == want.dom().contains(k) by {
            assert(got.contains_key(k) == got.dom().contains(k));
            assert(names.contains(k) <==> raw@.at(k) is Some);
        }
        assert forall|k: Seq<char>| #[trigger] got.dom().contains(k) implies got[k] == want[k] by {
            assert(got.contains_key(k));
            assert(names.contains(k) <==> raw@.at(k) is Some);
        }
        assert(got =~= want);
    }
    let marked = sensitive.keys();
    proof {
        assert forall|k: Seq<char>| #[trigger]
            texts(marked@).contains(k) <==> sensitive_in(raw_view, k) by {
            assert(sensitive@.contains_key(k) <==> sensitive.names().contains(k));
            assert(names.contains(k) <==> raw@.at(k) is Some);
        }
    }
    Provisioned { outputs, resource_ids: Vec::new(), sensitive_keys: marked }
}

// ---------------------------------------------------------------------------
// Runs
// ---------------------------------------------------------------------------

/// What a failed run is told as.
pub open spec fn run_failure(sub: Seq<char>, stderr: Seq<u8>) -> ProvisionFault {
    ProvisionFault::Backend("terraform "@ + sub + " failed: "@ + trimmed(shown(stderr)))
}

/// What a failed run is told as.
pub fn failed_run(sub: &str, stderr: &Vec<u8>) -> (r: ProvisionError)
    ensures
        r@ == run_failure(sub@, stderr@),
{
    let said = text_lossy(stderr);
    let why = trim(said.as_str());
    let mut m = "terraform ".to_owned();
    m.append(sub);
    m.append(" failed: ");
    m.append(why.as_str());
    ProvisionError::Backend(m)
}

/// What a run that took too long is told as.
pub fn timed_out(sub: &str) -> (r: ProvisionError)
    ensures
        r@ == ProvisionFault::Backend(
            "terraform "@ + sub@ + " timed out after "@ + decimal(3600) + "s; killed"@,
        ),
{
    let mut m = "terraform ".to_owned();
    m.append(sub);
    m.append(" timed out after ");
    let d = decimal_text(RUN_TIMEOUT_SECS);
    m.append(d.as_str());
    m.append("s; killed");
    ProvisionError::Backend(m)
}

/// The log of a run: what it printed, and behind it, on a line of its own, what it
/// complained of.
pub open spec fn run_log(stdout: Seq<u8>, stderr: Seq<u8>) -> Seq<char> {
    let out = shown(stdout);
    let err = shown(stderr);
    if blank(err) {
        out
    } else if out.len() > 0 && !ends_with_char(out, '\n') {
        out.push('\n') + err
    } else {
        out + err
    }
}

/// The log of a run.
pub fn combine_output(stdout: &Vec<u8>, stderr: &Vec<u8>) -> (r: String)
    ensures
        r@ == run_log(stdout@, stderr@),
{
    let mut s = text_lossy(stdout);
    let err = text_lossy(stderr);
    if !is_blank(err.as_str()) {
        if !s.as_str().is_empty() && !ends_with(s.as_str(), '\n') {
            s.push('\n');
        }
        s.append(err.as_str());
    }
    s
}

/// What a stream is cut down to while it is read: its first bytes, and whether
/// there were more.
#[derive(Debug)]
pub struct Capture {
    pub cap: usize,
    pub buf: Vec<u8>,
    pub truncated: bool,
}

/// The first `cap` bytes, or all where there are fewer.
pub open spec fn head(all: Seq<u8>, cap: int) -> Seq<u8> {
    if all.len() <= cap {
        all
    } else {
        all.take(cap)
    }
}

/// The mark behind a stream that was cut.
pub open spec fn cut_mark(cap: int) -> Seq<char> {
    "\n…[output truncated at "@ + decimal(cap as nat) + " bytes]\n"@
}

/// What is left of a stream: all of it, or its first bytes and the mark.
pub open spec fn capped(all: Seq<u8>, cap: int) -> Seq<u8> {
    if all.len() <= cap {
        all
    } else {
        all.take(cap) + encode_utf8(cut_mark(cap))
    }
}

impl Capture {
    /// Whether the capture is what is left of a stream so far.
    pub open spec fn holds(self, all: Seq<u8>) -> bool {
        &&& self.buf@ == head(all, self.cap as int)
        &&& self.truncated == (all.len() > self.cap)
    }

    /// Nothing read yet.
    pub fn new(cap: usize) -> (r: Capture)
        ensures
            r.cap == cap,
            r.holds(Seq::empty()),
    {
        let r = Capture { cap, buf: Vec::new(), truncated: false };
        assert(r.buf@ =~= Seq::empty());
        r
    }

    /// Takes the next piece of the stream in.
    pub fn take_in(&mut self, chunk: &[u8])
        ensures
            final(self).cap == old(self).cap,
            forall|all: Seq<u8>| #[trigger]
                old(self).holds(all) ==> final(self).holds(all + chunk@),
    {
        let ghost was = self.buf@;
        let room: usize = if self.buf.len() < self.cap {
            self.cap - self.buf.len()
        } else {
            0
        };
        let n: usize = if room < chunk.len() {
            room
        } else {
            chunk.len()
        };
        let mut i: usize = 0;
        while i < n
            invariant
                i <= n <= chunk@.len(),
                self.buf@ == was + chunk@.take(i as int),
                self.cap == old(self).cap,
                self.truncated == old(self).truncated,
            decreases n - i,
        {
            self.buf.push(chunk[i]);
            i = i + 1;
            assert(self.buf@ =~= was + chunk@.take(i as int));
        }
        if n < chunk.len() {
            self.truncated = true;
        }
        proof {
            assert forall|all: Seq<u8>| #[trigger] old(self).holds(all) implies self.holds(
                all + chunk@,
            ) by {
                let more = all + chunk@;
                assert(self.buf@ =~= head(more, self.cap as int));
            }
        }
    }

    /// What is left of the stream at its end.
    pub fn finish(self) -> (r: Vec<u8>)
        ensures
            forall|all: Seq<u8>| #[trigger]
                self.holds(all) ==> r@ == capped(all, self.cap as int),
    {
        let mut out = self.buf;
        let ghost kept = out@;
        if self.truncated {
            let mut mark = "\n…[output truncated at ".to_owned();
            let d = decimal_text(self.cap as u64);
            mark.append(d.as_str());
            mark.append(" bytes]\n");
            let bytes = mark.as_str().as_bytes();
            let mut i: usize = 0;
            assert(out@ =~= kept + bytes@.take(0));
            while i < bytes.len()
                invariant
                    i <= bytes@.len(),
                    out@ == kept + bytes@.take(i as int),
                decreases bytes.len() - i,
            {
                out.push(bytes[i]);
                i = i + 1;
                assert(out@ =~= kept + bytes@.take(i as int));
            }
            assert(bytes@.take(bytes@.len() as int) =~= bytes@);
        }
        out
    }
}

/// However long a stream is, no more than the cap and the mark are kept of it,
/// and a stream within the cap is kept as it is.
pub proof fn law_capture_is_bounded(all: Seq<u8>, cap: int)
    requires
        0 <= cap,
    ensures
        capped(all, cap).len() <= cap + encode_utf8(cut_mark(cap)).len(),
        all.len() <= cap ==> capped(all, cap) == all,
        all.len() > cap ==> capped(all, cap).take(cap) == all.take(cap),
{
    if all.len() > cap {
        assert(capped(all, cap).take(cap) =~= all.take(cap));
    }
}

/// What comes of an apply once its state is saved, or not: the apply's own failure
/// counts first, for its state was saved all the same.
pub fn apply_outcome(
    applied: Result<(), ProvisionError>,
    persisted: Result<(), ProvisionError>,
) -> (r: Result<(), ProvisionError>)
    ensures
        match r {
            Ok(_) => applied is Ok && persisted is Ok,
            Err(e) => if applied is Err {
                applied->Err_0@ == e@
            } else {
                persisted is Err && persisted->Err_0@ == e@
            },
        },
        r is Ok <==> applied is Ok && persisted is Ok,
        applied is Err ==> r is Err && r->Err_0@ == applied->Err_0@,
{
    match applied {
        Err(e) => Err(e),
        Ok(_) => persisted,
    }
}

/// Whether there is anything to tear down: a working directory or a saved state.
pub fn has_something(work_dir_exists: bool, has_stored: bool) -> (r: bool)
    ensures
        r == (work_dir_exists || has_stored),
{
    work_dir_exists || has_stored
}

/// Whether a directory under the working root is swept away at the start: not
/// where the directories are the only state, and not the connector's own.
pub fn sweeps(durable: bool, name: &str) -> (r: bool)
    ensures
        r == (durable && !begins_with(name@, "."@)),
        !durable ==> !r,
        "."@.is_prefix_of(name@) ==> !r,
        durable && !"."@.is_prefix_of(name@) ==> r,
{
    durable && !starts_with(name, ".")
}

impl TerraformConnector {
    /// A connector whose state lives in its working directories.
    pub fn new(bin: &str, modules_dir: &str, work_root: &str) -> (r: TerraformConnector)
        ensures
            r.bin@ == bin@,
            r.modules_dir@ == modules_dir@,
            r.work_root@ == work_root@,
            !r.durable,
            !r.leased,
            r.tf_lease_ttl == 600,
            r.plugin_cache is None,
    {
        TerraformConnector {
            bin: bin.to_owned(),
            modules_dir: modules_dir.to_owned(),
            work_root: work_root.to_owned(),
            durable: false,
            leased: false,
            tf_lease_ttl: 600,
            plugin_cache: None,
        }
    }

    /// Keeps state beyond the working directories.
    pub fn with_state(self) -> (r: TerraformConnector)
        ensures
            r == (TerraformConnector { durable: true, ..self }),
    {
        let mut c = self;
        c.durable = true;
        c
    }

    /// Shares one cache of providers between all runs.
    pub fn with_plugin_cache(self, dir: String) -> (r: TerraformConnector)
        ensures
            r == (TerraformConnector { plugin_cache: Some(dir), ..self }),
    {
        let mut c = self;
        c.plugin_cache = Some(dir);
        c
    }

    /// Lets replicas take turns on a resource.
    pub fn with_leases(self, ttl_secs: i64) -> (r: TerraformConnector)
        ensures
            r == (TerraformConnector { leased: true, tf_lease_ttl: ttl_secs, ..self }),
    {
        let mut c = self;
        c.leased = true;
        c.tf_lease_ttl = ttl_secs;
        c
    }

    /// Its name.
    pub fn name(&self) -> (r: &'static str)
        ensures
            r@ == "terraform"@,
    {
        "terraform"
    }

    /// It acts for real.
    pub fn dry_run(&self) -> (r: bool)
        ensures
            !r,
    {
        false
    }

    /// It takes any service.
    pub fn supports(&self, _resource_type: &str) -> (r: bool)
        ensures
            r,
    {
        true
    }

    /// The identity of a resource's state.
    pub fn state_id(req: &ProvisionRequest) -> (r: String)
        ensures
            r@ == state_id_of(req@),
    {
        let mut s = req.ctx.project_id.clone();
        s.append("/");
        s.append(req.resource_type.as_str());
        s.append("/");
        s.append(req.name.as_str());
        s
    }

    /// The name of the lease on a resource's state.
    pub fn lease_name(id: &str) -> (r: String)
        ensures
            r@ == "tf:"@ + id@,
    {
        let mut s = "tf:".to_owned();
        s.append(id);
        s
    }

    /// What a caller is told while another replica holds the lease.
    pub fn lease_held(id: &str) -> (r: ProvisionError)
        ensures
            r@ == ProvisionFault::Conflict(
                "resource "@ + id@ + " is being provisioned by another instance; retry shortly"@,
            ),
    {
        let mut m = "resource ".to_owned();
        m.append(id);
        m.append(" is being provisioned by another instance; retry shortly");
        ProvisionError::Conflict(m)
    }

    /// The path of the module that a configuration names.
    pub fn path_of_module(&self, config: &Json) -> (r: Result<String, ProvisionError>)
        ensures
            match r {
                Ok(p) => module_of(self.modules_dir@, config@) == Some(p@),
                Err(e) => module_of(self.modules_dir@, config@) is None && e@
                    == ProvisionFault::Backend("terraform connector needs config.module"@),
            },
    {
        match config.get_str("module") {
            Some(m) => Ok(join_path(self.modules_dir.as_str(), m)),
            None => Err(
                ProvisionError::Backend("terraform connector needs config.module".to_owned()),
            ),
        }
    }

    /// The working directory of a resource.
    pub fn work_dir(&self, req: &ProvisionRequest) -> (r: String)
        ensures
            r@ == joined_path(
                joined_path(
                    joined_path(self.work_root@, req@.ctx.project_id),
                    req@.resource_type,
                ),
                req@.name,
            ),
    {
        let a = join_path(self.work_root.as_str(), req.ctx.project_id.as_str());
        let b = join_path(a.as_str(), req.resource_type.as_str());
        join_path(b.as_str(), req.name.as_str())
    }

    /// What it would do.
    pub fn plan(&self, req: &ProvisionRequest) -> (r: Result<Plan, ProvisionError>)
        ensures
            match r {
                Ok(p) => {
                    &&& module_of(self.modules_dir@, req@.config) is Some
                    &&& p.summary@ == "terraform apply "@ + module_of(
                        self.modules_dir@,
                        req@.config,
                    )->0 + " for "@ + req@.ctx.project_id + "/"@ + req@.name
                    &&& text_map(p.tags@) == req@.ctx.tag_map()
                    &&& p.estimated_monthly_usd == req@.estimated_monthly_usd
                },
                Err(e) => module_of(self.modules_dir@, req@.config) is None && e@
                    == ProvisionFault::Backend("terraform connector needs config.module"@),
            },
    {
        let module = match self.path_of_module(&req.config) {
            Ok(m) => m,
            Err(e) => {
                return Err(e);
            },
        };
        let mut s = "terraform apply ".to_owned();
        s.append(module.as_str());
        s.append(" for ");
        s.append(req.ctx.project_id.as_str());
        s.append("/");
        s.append(req.name.as_str());
        Ok(
            Plan {
                summary: s,
                tags: req.ctx.tags(),
                estimated_monthly_usd: req.estimated_monthly_usd,
            },
        )
    }

    /// What a suspension puts over the variables; none for a service that has no
    /// stop, which is then neither suspended nor resumed.
    pub fn stop_overrides(&self, req: &ProvisionRequest) -> (r: Option<Json>)
        ensures
            match r {
                Some(j) => req@.config.at("stop_tfvars"@) == Some(j@),
                None => req@.config.at("stop_tfvars"@) is None,
            },
    {
        match req.config.get("stop_tfvars") {
            Some(j) => Some(j.copy()),
            None => None,
        }
    }
}

/// Two resources of one project and type share no state unless they share a name.
pub proof fn law_states_are_apart(a: RequestView, b: RequestView)
    requires
        a.ctx.project_id == b.ctx.project_id,
        a.resource_type == b.resource_type,
        state_id_of(a) == state_id_of(b),
    ensures
        a.name == b.name,
{
    let front = a.ctx.project_id + "/"@ + a.resource_type + "/"@;
    let n = front.len() as int;
    assert(state_id_of(a) == front + a.name);
    assert(state_id_of(b) == front + b.name);
    assert((front + a.name).subrange(n, (front + a.name).len() as int) =~= a.name);
    assert((front + b.name).subrange(n, (front + b.name).len() as int) =~= b.name);
}

/// A path that begins with a slash stands for itself; any other stands behind the base,
/// with one slash between them.
pub proof fn law_paths_stand_behind_the_base(base: Seq<char>, path: Seq<char>)
    ensures
        path.len() > 0 && path[0] == '/' ==> joined_path(base, path) == path,
        base.len() == 0 ==> joined_path(base, path) == path,
        base.len() > 0 && base.last() == '/' && (path.len() == 0 || path[0] != '/') ==> joined_path(
            base,
            path,
        ) == base + path,
        base.len() > 0 && base.last() != '/' && (path.len() == 0 || path[0] != '/') ==> joined_path(
            base,
            path,
        ) == base + "/"@ + path,
{
    reveal_strlit("/");
    assert("/"@ =~= seq!['/']);
    if path.len() > 0 {
        assert(path.subrange(0, 1) =~= seq![path[0]]);
        if path[0] != '/' {
            assert(seq![path[0]][0] != seq!['/'][0]);
        }
    }
}

/// Exactly the provider cache and what begins like a state file stays out of a working
/// directory.
pub proof fn law_what_stays_out(name: Seq<char>)
    ensures
        kept_out(name) <==> name == ".terraform"@ || "terraform.tfstate"@.is_prefix_of(name),
{
    let p = "terraform.tfstate"@;
    if begins_with(name, p) {
        assert(p =~= name.subrange(0, p.len() as int));
    }
}

/// A default refers to a variable of the environment as `${NAME}` for its text and as
/// `${NAME:csv}` for the list in it, and in no other way.
pub proof fn law_how_defaults_refer(s: Seq<char>, name: Seq<char>)
    ensures
        env_reference("${"@ + name + ":csv}"@) == Some((name, true)),
        !":csv"@.is_suffix_of(name) ==> env_reference("${"@ + name + "}"@) == Some((name, false)),
        env_reference(s) matches Some(p) ==> s == "${"@ + p.0 + (if p.1 {
            ":csv}"@
        } else {
            "}"@
        }),
{
    reveal_strlit("${");
    reveal_strlit("}");
    reveal_strlit(":csv");
    reveal_strlit(":csv}");
    let (open, close, csv, both) = ("${"@, "}"@, ":csv"@, ":csv}"@);
    assert(both =~= csv + close);
    let a = open + name + both;
    assert(a.subrange(0, 2) =~= open);
    assert(a.subrange(2, a.len() as int) =~= name + both);
    let t = name + both;
    assert(t.subrange(t.len() - 1, t.len() as int) =~= close);
    assert(t.subrange(0, t.len() - 1) =~= name + csv);
    let u = name + csv;
    assert(u.subrange(u.len() - 4, u.len() as int) =~= csv);
    assert(u.subrange(0, u.len() - 4) =~= name);
    let b = open + name + close;
    assert(b.subrange(0, 2) =~= open);
    assert(b.subrange(2, b.len() as int) =~= name + close);
    let v = name + close;
    assert(v.subrange(v.len() - 1, v.len() as int) =~= close);
    assert(v.subrange(0, v.len() - 1) =~= name);
    if env_reference(s) is Some {
        let tail = after_prefix(s, open)->0;
        let inner = before_suffix(tail, close)->0;
        assert(s =~= open + tail);
        assert(tail =~= inner + close);
        if before_suffix(inner, csv) is Some {
            let n = before_suffix(inner, csv)->0;
            assert(inner =~= n + csv);
            assert(s =~= open + n + both);
        } else {
            assert(s =~= open + inner + close);
        }
    }
}

/// A default that is a reference is what the environment holds, as a text or as the list
/// in it, and drops out where nothing is set; any other text, number, truth value or null
/// stays as it is; and a list drops out where nothing is left of it.
pub proof fn law_what_defaults_become(
    s: Seq<char>,
    n: Seq<char>,
    b: bool,
    items: Seq<JsonView>,
    env: Map<Seq<char>, Seq<char>>,
)
    ensures
        env_reference(s) is None ==> resolved_default(JsonView::Str(s), env) == Some(
            JsonView::Str(s),
        ),
        env_reference(s) matches Some(p) ==> {
            let got = resolved_default(JsonView::Str(s), env);
            &&& !env.contains_key(p.0) ==> got is None
            &&& env.contains_key(p.0) && !p.1 ==> got == Some(JsonView::Str(env[p.0]))
            &&& env.contains_key(p.0) && p.1 ==> {
                let listed = pieces(env[p.0], ',').filter(
                    |x: Seq<char>| trimmed(x).len() > 0,
                ).map_values(|x: Seq<char>| trimmed(x));
                &&& listed.len() == 0 ==> got is None
                &&& listed.len() > 0 ==> got == Some(JsonView::Array(strings_view(listed)))
            }
        },
        resolved_default(JsonView::Number(n), env) == Some(JsonView::Number(n)),
        resolved_default(JsonView::Bool(b), env) == Some(JsonView::Bool(b)),
        resolved_default(JsonView::Null, env) == Some(JsonView::Null),
        resolved_items(items, env).len() == 0 ==> resolved_default(JsonView::Array(items), env) is None,
        resolved_items(items, env).len() > 0 ==> resolved_default(JsonView::Array(items), env)
            == Some(JsonView::Array(resolved_items(items, env))),
{
    if env_reference(s) is Some {
        let p = env_reference(s)->0;
        lemma_filled(pieces(env[p.0], ','));
    }
}

proof fn lemma_filled(items: Seq<Seq<char>>)
    ensures
        filled(items) == items.filter(|x: Seq<char>| trimmed(x).len() > 0).map_values(
            |x: Seq<char>| trimmed(x),
        ),
    decreases items.len(),
{
    reveal(Seq::filter);
    let f = |x: Seq<char>| trimmed(x).len() > 0;
    let g = |x: Seq<char>| trimmed(x);
    if items.len() > 0 {
        let t = items.drop_last();
        lemma_filled(t);
        let last = items.last();
        assert(t.filter(f).push(last).map_values(g) =~= t.filter(f).map_values(g).push(g(last)));
    }
    assert(filled(items) =~= items.filter(f).map_values(g));
}

/// Of an object the members stay that the environment leaves something of, each as it is
/// left.
pub proof fn law_which_members_are_left(
    m: Map<Seq<char>, JsonView>,
    env: Map<Seq<char>, Seq<char>>,
    key: Seq<char>,
)
    ensures
        ({
            let left = resolved_members(JsonView::Object(m), env);
            &&& left.contains_key(key) <==> m.contains_key(key) && resolved_default(
                m[key],
                env,
            ) is Some
            &&& left.contains_key(key) ==> Some(left[key]) == resolved_default(m[key], env)
        }),
{
}

/// An output is the value that the module declares for it, null where it declares none,
/// and a secret exactly where the module marks it sensitive.
pub proof fn law_outputs_are_as_declared(m: Map<Seq<char>, JsonView>, key: Seq<char>)
    ensures
        ({
            let raw = JsonView::Object(m);
            &&& outputs_of(raw).contains_key(key) <==> m.contains_key(key)
            &&& m.contains_key(key) && m[key].at("value"@) is Some ==> outputs_of(raw)[key]
                == m[key].at("value"@)->0
            &&& m.contains_key(key) && m[key].at("value"@) is None ==> outputs_of(raw)[key]
                == JsonView::Null
            &&& sensitive_in(raw, key) <==> m.contains_key(key) && m[key].at("sensitive"@) == Some(
                JsonView::Bool(true),
            )
        }),
{
}

/// A run's log begins with all that it printed and ends with all that it complained of,
/// unless that is blank; between them stands at most one line end.
pub proof fn law_log_has_both_streams(stdout: Seq<u8>, stderr: Seq<u8>)
    ensures
        shown(stdout).is_prefix_of(run_log(stdout, stderr)),
        blank(shown(stderr)) ==> run_log(stdout, stderr) == shown(stdout),
        !blank(shown(stderr)) ==> shown(stderr).is_suffix_of(run_log(stdout, stderr)),
        !blank(shown(stderr)) ==> run_log(stdout, stderr).len() <= shown(stdout).len() + 1 + shown(
            stderr,
        ).len(),
        !blank(shown(stderr)) && shown(stdout).len() > 0 && shown(stdout).last() != '\n'
            ==> run_log(stdout, stderr)[shown(stdout).len() as int] == '\n',
{
    let out = shown(stdout);
    let err = shown(stderr);
    let log = run_log(stdout, stderr);
    assert(out =~= log.subrange(0, out.len() as int));
    if !blank(err) {
        assert(err =~= log.subrange(log.len() - err.len(), log.len() as int));
    }
}

/// A resource's state goes by its project, its type and its name.
pub proof fn law_state_goes_by_the_resource(req: RequestView)
    ensures
        state_id_of(req) == req.ctx.project_id + "/"@ + req.resource_type + "/"@ + req.name,
{
}

/// A module is found among the operator's modules under the name that the configuration
/// has, and a failed run is told by its step and what it complained of.
pub proof fn law_modules_and_failures(
    dir: Seq<char>,
    config: JsonView,
    sub: Seq<char>,
    stderr: Seq<u8>,
    stdout: Seq<u8>,
)
    ensures
        config.text_at("module"@) matches Some(m) ==> module_of(dir, config) == Some(
            joined_path(dir, m),
        ),
        config.text_at("module"@) is None ==> module_of(dir, config) is None,
        run_failure(sub, stderr) == ProvisionFault::Backend(
            "terraform "@ + sub + " failed: "@ + trimmed(shown(stderr)),
        ),
        utf8_read(stdout) matches Ok(s) && json_read(s) is Ok ==> printed_json(stdout) == json_read(
            utf8_read(stdout)->Ok_0,
        )->Ok_0,
        utf8_read(stdout) is Err ==> printed_json(stdout) == JsonView::Null,
{
}

} // verus!
