//! What a connector hands back, and how the secrets among it are taken out before
//! it goes on record.
use vstd::prelude::*;

use crate::json::{json_text, Json, JsonView};
use crate::provision::secrets::{path_of, RefView, SecretRef, SECRET_REF_KEY};
use crate::sorted_map::SortedMap;
use crate::text::{decimal_int, lemma_take_more, texts};
use crate::usd::Usd;

verus! {

/// What a connector would do.
#[derive(Debug)]
pub struct Plan {
    pub summary: String,
    pub tags: SortedMap<String>,
    pub estimated_monthly_usd: Usd,
}

/// What a connector brought up.
#[derive(Debug)]
pub struct Provisioned {
    pub outputs: Json,
    pub resource_ids: Vec<String>,
    /// Outputs that the connector itself marks as sensitive.
    pub sensitive_keys: Vec<String>,
}

/// A secret to be written: its name in the store and its value.
#[derive(Debug)]
pub struct SecretWrite {
    pub name: String,
    pub value: String,
}

/// A secret to be written, by its contents.
pub struct WriteView {
    pub name: Seq<char>,
    pub value: Seq<char>,
}

/// Secrets to be written, by their contents.
pub open spec fn writes_of(m: Map<Seq<char>, SecretWrite>) -> Map<Seq<char>, WriteView> {
    m.map_values(|w: SecretWrite| WriteView { name: w.name@, value: w.value@ })
}

/// The text that a value is kept as: itself where it is a text, else its JSON.
pub open spec fn kept_text(v: JsonView) -> Seq<char> {
    match v {
        JsonView::Str(s) => s,
        other => json_text(other),
    }
}

/// Whether an output is a secret: declared so by the service, or marked so by the
/// connector.
pub open spec fn is_secret(
    declared: Seq<Seq<char>>,
    sensitive: Seq<Seq<char>>,
    key: Seq<char>,
) -> bool {
    declared.contains(key) || sensitive.contains(key)
}

/// The secrets among a resource's outputs, by output.
pub open spec fn secret_writes(
    resource: Seq<char>,
    declared: Seq<Seq<char>>,
    sensitive: Seq<Seq<char>>,
    outputs: JsonView,
) -> Map<Seq<char>, WriteView> {
    match outputs {
        JsonView::Object(m) => Map::new(
            |k: Seq<char>| m.contains_key(k) && is_secret(declared, sensitive, k),
            |k: Seq<char>| WriteView { name: resource + "-"@ + k, value: kept_text(m[k]) },
        ),
        _ => Map::empty(),
    }
}

fn plan_key(
    plan: &mut SortedMap<SecretWrite>,
    resource_name: &str,
    outputs: &Json,
    key: &str,
)
    ensures
        writes_of(final(plan)@) == match outputs@.at(key@) {
            Some(v) => writes_of(old(plan)@).insert(
                key@,
                WriteView { name: resource_name@ + "-"@ + key@, value: kept_text(v) },
            ),
            None => writes_of(old(plan)@),
        },
{
    match outputs.get(key) {
        Some(v) => {
            let value = match v {
                Json::Str(s) => s.clone(),
                other => other.text(),
            };
            let mut name = resource_name.to_owned();
            name.append("-");
            name.append(key);
            let ghost was = plan@;
            let w = SecretWrite { name, value };
            plan.insert(key, w);
            assert(writes_of(was.insert(key@, w)) =~= writes_of(was).insert(
                key@,
                WriteView { name: w.name@, value: w.value@ },
            ));
        },
        None => {},
    }
}

/// The secrets among a resource's outputs, by output in order: what is to be
/// written to the store before the outputs go on record.
pub fn secret_plan(
    resource_name: &str,
    declared: &Vec<String>,
    provisioned: &Provisioned,
) -> (r: SortedMap<SecretWrite>)
    ensures
        writes_of(r@) == secret_writes(
            resource_name@,
            texts(declared@),
            texts(provisioned.sensitive_keys@),
            provisioned.outputs@,
        ),
{
    let mut plan: SortedMap<SecretWrite> = SortedMap::new();
    let outputs = &provisioned.outputs;
    let ghost empty: Seq<Seq<char>> = Seq::empty();
    let ghost sensitive = texts(provisioned.sensitive_keys@);
    assert(writes_of(plan@) =~= secret_writes(resource_name@, empty, empty, outputs@));
    let mut i: usize = 0;
    assert(texts(declared@).take(0) =~= empty);
    while i < declared.len()
        invariant
            i <= declared@.len(),
            empty.len() == 0,
            writes_of(plan@) == secret_writes(
                resource_name@,
                texts(declared@).take(i as int),
                empty,
                outputs@,
            ),
        decreases declared.len() - i,
    {
        plan_key(&mut plan, resource_name, outputs, declared[i].as_str());
        proof {
            lemma_take_more(texts(declared@), i as int);
            assert(writes_of(plan@) =~= secret_writes(
                resource_name@,
                texts(declared@).take(i + 1),
                empty,
                outputs@,
            ));
        }
        i = i + 1;
    }
    assert(texts(declared@).take(declared@.len() as int) =~= texts(declared@));
    let keys = &provisioned.sensitive_keys;
    let mut j: usize = 0;
    assert(sensitive.take(0) =~= empty);
    while j < keys.len()
        invariant
            j <= keys@.len(),
            sensitive == texts(keys@),
            writes_of(plan@) == secret_writes(
                resource_name@,
                texts(declared@),
                sensitive.take(j as int),
                outputs@,
            ),
        decreases keys.len() - j,
    {
        plan_key(&mut plan, resource_name, outputs, keys[j].as_str());
        proof {
            lemma_take_more(sensitive, j as int);
            assert(writes_of(plan@) =~= secret_writes(
                resource_name@,
                texts(declared@),
                sensitive.take(j + 1),
                outputs@,
            ));
        }
        j = j + 1;
    }
    assert(sensitive.take(keys@.len() as int) =~= sensitive);
    plan
}

/// How a reference stands among the outputs.
pub open spec fn ref_json(r: RefView) -> JsonView {
    JsonView::Object(
        Map::empty().insert(
            "secret_ref"@,
            JsonView::Object(
                Map::empty().insert("store"@, JsonView::Str(r.store)).insert(
                    "path"@,
                    JsonView::Str(r.path),
                ).insert("version"@, JsonView::Number(decimal_int(r.version as int))),
            ),
        ),
    )
}

/// How a reference stands among the outputs.
pub fn ref_to_json(r: &SecretRef) -> (j: Json)
    ensures
        j@ == ref_json(r@),
{
    let mut inner = Json::object();
    inner.insert_str("store", r.store.as_str());
    inner.insert_str("path", r.path.as_str());
    inner.insert("version", Json::integer(r.version));
    let mut out = Json::object();
    out.insert(SECRET_REF_KEY, inner);
    out
}

/// Outputs with references in place of the secrets that they name.
pub open spec fn with_refs(outputs: JsonView, refs: Map<Seq<char>, SecretRef>) -> JsonView {
    match outputs {
        JsonView::Object(m) => JsonView::Object(
            m.union_prefer_right(refs.map_values(|r: SecretRef| ref_json(r@))),
        ),
        v => v,
    }
}

/// Puts references in place of the secrets that they name.
pub fn put_refs(outputs: &mut Json, refs: &SortedMap<SecretRef>)
    ensures
        final(outputs)@ == with_refs(old(outputs)@, refs@),
{
    let ghost base = outputs@;
    let keys = refs.keys();
    let n: usize = keys.len();
    let ghost names = refs.names();
    let ghost want = refs@.map_values(|r: SecretRef| ref_json(r@));
    let mut i: usize = 0;
    while i < n
        invariant
            i <= n,
            n == names.len(),
            names == refs.names(),
            base is Object <==> outputs@ is Object,
            !(base is Object) ==> outputs@ == base,
            want == refs@.map_values(|r: SecretRef| ref_json(r@)),
            base is Object ==> forall|k: Seq<char>| #[trigger]
                outputs@->Object_0.contains_key(k) <==> base->Object_0.contains_key(k)
                    || names.take(i as int).contains(k),
            base is Object ==> forall|k: Seq<char>| #[trigger]
                outputs@->Object_0.contains_key(k) ==> outputs@->Object_0[k] == if names.take(
                    i as int,
                ).contains(k) {
                    want[k]
                } else {
                    base->Object_0[k]
                },
        decreases n - i,
    {
        let key = refs.key_at(i);
        let value = refs.value_at(i);
        let ghost before = outputs@;
        outputs.insert(key, ref_to_json(value));
        proof {
            lemma_take_more(names, i as int);
            assert(want[key@] == ref_json(value@));
        }
        i = i + 1;
    }
    proof {
        assert(names.take(n as int) =~= names);
        if base is Object {
            let got = outputs@->Object_0;
            let goal = base->Object_0.union_prefer_right(want);
            assert forall|k: Seq<char>| #[trigger] got.dom().contains(k) == goal.dom().contains(
                k,
            ) by {
                assert(got.contains_key(k) == got.dom().contains(k));
                assert(refs@.contains_key(k) == names.contains(k));
            }
            assert forall|k: Seq<char>| #[trigger] got.dom().contains(k) implies got[k]
                == goal[k] by {
                assert(got.contains_key(k));
                assert(refs@.contains_key(k) == names.contains(k));
            }
            assert(got =~= goal);
        }
    }
}

/// Once every secret among the outputs has its reference, no secret value is left
/// among them, and every other output is as it was.
pub proof fn law_no_secret_is_recorded(
    resource: Seq<char>,
    declared: Seq<Seq<char>>,
    sensitive: Seq<Seq<char>>,
    outputs: JsonView,
    refs: Map<Seq<char>, SecretRef>,
    key: Seq<char>,
)
    requires
        refs.dom() == secret_writes(resource, declared, sensitive, outputs).dom(),
    ensures
        is_secret(declared, sensitive, key) && outputs.at(key) is Some ==> with_refs(
            outputs,
            refs,
        ).at(key) == Some(ref_json(refs[key]@)),
        !is_secret(declared, sensitive, key) ==> with_refs(outputs, refs).at(key) == outputs.at(
            key,
        ),
{
    let writes = secret_writes(resource, declared, sensitive, outputs);
    assert(refs.dom().contains(key) == writes.dom().contains(key));
}

/// The reference under which a project's secret is read, whatever its version.
pub fn current_ref(store: &str, project_id: &str, name: &str) -> (r: SecretRef)
    ensures
        r@ == (RefView { store: store@, path: path_of(project_id@, name@), version: 0 }),
{
    let mut path = project_id.to_owned();
    path.append("/");
    path.append(name);
    SecretRef { store: store.to_owned(), path, version: 0 }
}

/// A secret goes to the store for exactly the outputs that the service declares secret or
/// the connector marks sensitive, under the resource's name and its own, with the value
/// it has; and a reference stands among the outputs as a store, a path and a version.
pub proof fn law_which_outputs_are_secrets(
    resource: Seq<char>,
    declared: Seq<Seq<char>>,
    sensitive: Seq<Seq<char>>,
    outputs: JsonView,
    key: Seq<char>,
    r: RefView,
)
    ensures
        secret_writes(resource, declared, sensitive, outputs).contains_key(key) <==> outputs.at(
            key,
        ) is Some && (declared.contains(key) || sensitive.contains(key)),
        secret_writes(resource, declared, sensitive, outputs).contains_key(key) ==> secret_writes(
            resource,
            declared,
            sensitive,
            outputs,
        )[key].name == resource + "-"@ + key,
        secret_writes(resource, declared, sensitive, outputs).contains_key(key) && outputs.text_at(
            key,
        ) is Some ==> secret_writes(resource, declared, sensitive, outputs)[key].value
            == outputs.text_at(key)->0,
        ref_json(r).at("secret_ref"@) is Some,
        ref_json(r).at("secret_ref"@)->0.text_at("store"@) == Some(r.store),
        ref_json(r).at("secret_ref"@)->0.text_at("path"@) == Some(r.path),
        ref_json(r).at("secret_ref"@)->0.at("version"@) == Some(
            JsonView::Number(decimal_int(r.version as int)),
        ),
{
    reveal_strlit("store");
    reveal_strlit("path");
    reveal_strlit("version");
    assert("store"@.len() == 5);
    assert("path"@.len() == 4);
    assert("version"@.len() == 7);
}

} // verus!
