//! The LiteLLM connector: a virtual key per project, minted on a proxy with the
//! project's id in its alias and metadata, so that its spend can be read back.
use vstd::prelude::*;

use crate::json::{Json, JsonView};
use crate::provision::connectors::exec::{texts_among, texts_of};
use crate::provision::context::text_map;
use crate::provision::outputs::{Plan, Provisioned};
use crate::provision::work::{ProvisionRequest, RequestView};
use crate::provision::{ProvisionError, ProvisionFault};
use crate::text::{
    contents, copy_texts, decimal, decimal_text, text_eq, texts, trim, trim_end_matches, trimmed,
    without_trailing,
};

verus! {

/// The connector to a proxy.
#[derive(Debug)]
pub struct LiteLlmConnector {
    pub base_url: String,
    pub master_key: String,
}

/// The alias of a project's key.
pub open spec fn alias_of(req: RequestView) -> Seq<char> {
    "asgard-"@ + req.ctx.project_id + "-"@ + req.name
}

fn alias_text(req: &ProvisionRequest) -> (r: String)
    ensures
        r@ == alias_of(req@),
{
    let mut a = "asgard-".to_owned();
    a.append(req.ctx.project_id.as_str());
    a.append("-");
    a.append(req.name.as_str());
    a
}

/// What a spec says of the budget: the writing of a number, or a text.
pub open spec fn budget_written(spec: JsonView) -> Option<Seq<char>> {
    match spec.at("max_budget_usd"@) {
        Some(JsonView::Number(n)) => Some(n),
        Some(JsonView::Str(s)) => Some(s),
        _ => None,
    }
}

/// What a spec says of the budget, to be read as a number.
pub fn budget_text(spec: &Json) -> (r: Option<String>)
    ensures
        contents(r) == budget_written(spec@),
{
    match spec.get("max_budget_usd") {
        Some(Json::Number(n)) => Some(n.clone()),
        Some(Json::Str(s)) => Some(s.clone()),
        _ => None,
    }
}

/// The models that a spec names, if it names any.
pub open spec fn models_of(spec: JsonView) -> Option<Seq<Seq<char>>> {
    match spec.at("models"@) {
        Some(JsonView::Array(items)) => if texts_among(items).len() > 0 {
            Some(texts_among(items))
        } else {
            None
        },
        _ => None,
    }
}

/// What a proxy is asked for a project's key.
pub open spec fn generate_body(req: RequestView, max_budget: Option<JsonView>) -> Map<
    Seq<char>,
    JsonView,
> {
    let base = Map::empty().insert("key_alias"@, JsonView::Str(alias_of(req))).insert(
        "metadata"@,
        JsonView::Object(
            Map::empty().insert("project_id"@, JsonView::Str(req.ctx.project_id)).insert(
                "managed_by"@,
                JsonView::Str("asgard"@),
            ),
        ),
    ).insert("budget_duration"@, JsonView::Str("30d"@));
    let budgeted = match max_budget {
        Some(b) => base.insert("max_budget"@, b),
        None => base,
    };
    match models_of(req.spec) {
        Some(m) => budgeted.insert(
            "models"@,
            JsonView::Array(crate::json::strings_view(m)),
        ),
        None => budgeted,
    }
}

/// What a proxy is asked for a project's key; `max_budget` is the number that the
/// spec's budget was read as, if it was.
pub fn build_generate_body(req: &ProvisionRequest, max_budget: Option<Json>) -> (r: Json)
    ensures
        r@ == JsonView::Object(
            generate_body(
                req@,
                match max_budget {
                    Some(b) => Some(b@),
                    None => None,
                },
            ),
        ),
{
    let mut body = Json::object();
    let alias = alias_text(req);
    body.insert_str("key_alias", alias.as_str());
    let mut metadata = Json::object();
    metadata.insert_str("project_id", req.ctx.project_id.as_str());
    metadata.insert_str("managed_by", "asgard");
    body.insert("metadata", metadata);
    body.insert_str("budget_duration", "30d");
    match max_budget {
        Some(b) => body.insert("max_budget", b),
        None => {},
    }
    match req.spec.get("models") {
        Some(Json::Array(items)) => {
            let models = texts_of(items);
            if models.len() > 0 {
                body.insert("models", Json::strings(&models));
            }
        },
        _ => {},
    }
    body
}

/// The key in a proxy's reply.
pub fn parse_generate_response(payload: &Json) -> (r: Result<String, ProvisionError>)
    ensures
        match r {
            Ok(k) => payload@.text_at("key"@) == Some(k@),
            Err(e) => payload@.text_at("key"@) is None && e@ == ProvisionFault::Backend(
                "litellm /key/generate returned no key"@,
            ),
        },
{
    match payload.get_str("key") {
        Some(k) => Ok(k.to_owned()),
        None => Err(
            ProvisionError::Backend("litellm /key/generate returned no key".to_owned()),
        ),
    }
}

impl LiteLlmConnector {
    /// A connector to a proxy.
    pub fn new(base_url: &str, master_key: &str) -> (r: LiteLlmConnector)
        ensures
            r.base_url@ == base_url@,
            r.master_key@ == master_key@,
    {
        LiteLlmConnector { base_url: base_url.to_owned(), master_key: master_key.to_owned() }
    }

    /// Its name.
    pub fn name(&self) -> (r: &'static str)
        ensures
            r@ == "litellm"@,
    {
        "litellm"
    }

    /// It acts for real.
    pub fn dry_run(&self) -> (r: bool)
        ensures
            !r,
    {
        false
    }

    /// It provides keys and nothing else.
    pub fn supports(&self, resource_type: &str) -> (r: bool)
        ensures
            r == (resource_type@ == "litellm-key"@),
    {
        text_eq(resource_type, "litellm-key")
    }

    /// What it would do.
    pub fn plan(&self, req: &ProvisionRequest) -> (r: Plan)
        ensures
            r.summary@ == "mint a litellm virtual key for project "@ + req@.ctx.project_id,
            text_map(r.tags@) == req@.ctx.tag_map(),
            r.estimated_monthly_usd == req@.estimated_monthly_usd,
    {
        let mut s = "mint a litellm virtual key for project ".to_owned();
        s.append(req.ctx.project_id.as_str());
        Plan {
            summary: s,
            tags: req.ctx.tags(),
            estimated_monthly_usd: req.estimated_monthly_usd,
        }
    }

    /// The address of a call: the base without slashes at its end, and the path.
    pub fn url(&self, path: &str) -> (r: String)
        ensures
            r@ == without_trailing(self.base_url@, '/') + path@,
    {
        let mut u = trim_end_matches(self.base_url.as_str(), '/');
        u.append(path);
        u
    }

    /// The refusal of a key, with what the proxy said.
    pub fn generate_refused(&self, status: u16, detail: &str) -> (r: ProvisionError)
        ensures
            r@ == ProvisionFault::Backend(
                "litellm key/generate http "@ + decimal(status as nat) + ": "@ + trimmed(detail@),
            ),
    {
        let mut m = "litellm key/generate http ".to_owned();
        let d = decimal_text(status as u64);
        m.append(d.as_str());
        m.append(": ");
        let t = trim(detail);
        m.append(t.as_str());
        ProvisionError::Backend(m)
    }

    /// The refusal of a deletion.
    pub fn delete_refused(&self, status: u16) -> (r: ProvisionError)
        ensures
            r@ == ProvisionFault::Backend("litellm key/delete http "@ + decimal(status as nat)),
    {
        let mut m = "litellm key/delete http ".to_owned();
        let d = decimal_text(status as u64);
        m.append(d.as_str());
        ProvisionError::Backend(m)
    }

    /// What a minted key amounts to: the key among the outputs, and the alias in
    /// the open so that spend can be read back without unsealing anything.
    pub fn apply(&self, req: &ProvisionRequest, payload: &Json) -> (r: Result<
        Provisioned,
        ProvisionError,
    >)
        ensures
            match r {
                Ok(p) => {
                    &&& payload@.text_at("key"@) is Some
                    &&& p.outputs@ == JsonView::Object(
                        Map::empty().insert(
                            "api_key"@,
                            JsonView::Str(payload@.text_at("key"@)->0),
                        ).insert("key_alias"@, JsonView::Str(alias_of(req@))).insert(
                            "litellm_base_url"@,
                            JsonView::Str(self.base_url@),
                        ),
                    )
                    &&& texts(p.resource_ids@) == seq![alias_of(req@)]
                    &&& texts(p.sensitive_keys@) == req@.secret_outputs
                },
                Err(e) => payload@.text_at("key"@) is None && e@ == ProvisionFault::Backend(
                    "litellm /key/generate returned no key"@,
                ),
            },
    {
        let key = match parse_generate_response(payload) {
            Ok(k) => k,
            Err(e) => {
                return Err(e);
            },
        };
        let alias = alias_text(req);
        let mut outputs = Json::object();
        outputs.insert_str("api_key", key.as_str());
        outputs.insert_str("key_alias", alias.as_str());
        outputs.insert_str("litellm_base_url", self.base_url.as_str());
        let mut ids: Vec<String> = Vec::new();
        ids.push(alias);
        assert(texts(ids@) =~= seq![alias_of(req@)]);
        Ok(
            Provisioned {
                outputs,
                resource_ids: ids,
                sensitive_keys: copy_texts(&req.secret_outputs),
            },
        )
    }

    /// What a proxy is told to forget; nothing where the outputs name no key.
    pub fn destroy(&self, outputs: &Json) -> (r: Option<Json>)
        ensures
            match outputs@.text_at("key_alias"@) {
                Some(a) => r matches Some(j) && j@ == JsonView::Object(
                    Map::empty().insert(
                        "key_aliases"@,
                        JsonView::Array(crate::json::strings_view(seq![a])),
                    ),
                ),
                None => r is None,
            },
    {
        match outputs.get_str("key_alias") {
            Some(a) => {
                let mut aliases: Vec<String> = Vec::new();
                aliases.push(a.to_owned());
                assert(texts(aliases@) =~= seq![a@]);
                let mut j = Json::object();
                j.insert("key_aliases", Json::strings(&aliases));
                Some(j)
            },
            None => None,
        }
    }
}

/// A key is asked for under the project's alias, with the project in its metadata and a
/// budget period of thirty days; with the budget where there is one, and for the models
/// that the spec names where it names any.
pub proof fn law_what_a_key_is_asked_for(req: RequestView, max_budget: Option<JsonView>)
    ensures
        ({
            let body = generate_body(req, max_budget);
            &&& body.contains_pair(
                "key_alias"@,
                JsonView::Str("asgard-"@ + req.ctx.project_id + "-"@ + req.name),
            )
            &&& body.contains_pair("budget_duration"@, JsonView::Str("30d"@))
            &&& body.contains_key("metadata"@)
            &&& body["metadata"@].text_at("project_id"@) == Some(req.ctx.project_id)
            &&& body["metadata"@].text_at("managed_by"@) == Some("asgard"@)
            &&& max_budget matches Some(b) ==> body.contains_pair("max_budget"@, b)
            &&& max_budget is None ==> !body.contains_key("max_budget"@)
            &&& models_of(req.spec) matches Some(m) ==> body.contains_pair(
                "models"@,
                JsonView::Array(crate::json::strings_view(m)),
            )
            &&& models_of(req.spec) is None ==> !body.contains_key("models"@)
        }),
{
    reveal_strlit("key_alias");
    reveal_strlit("metadata");
    reveal_strlit("budget_duration");
    reveal_strlit("max_budget");
    reveal_strlit("models");
    assert("key_alias"@.len() == 9);
    assert("metadata"@.len() == 8);
    assert("budget_duration"@.len() == 15);
    assert("max_budget"@.len() == 10);
    assert("models"@.len() == 6);
    reveal_strlit("project_id");
    reveal_strlit("managed_by");
    assert("project_id"@.len() == 10);
    assert("managed_by"@.len() == 10);
    assert("project_id"@[0] != "managed_by"@[0]);
}

/// A spec's budget is read from a number or from a text, and from nothing else.
pub proof fn law_where_the_budget_is_read(spec: JsonView)
    ensures
        spec.at("max_budget_usd"@) matches Some(JsonView::Number(n)) ==> budget_written(spec)
            == Some(n),
        spec.at("max_budget_usd"@) matches Some(JsonView::Str(s)) ==> budget_written(spec) == Some(s),
        spec.at("max_budget_usd"@) is None ==> budget_written(spec) is None,
{
}

} // verus!
