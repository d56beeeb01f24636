//! Databricks billing: usage of the rows tagged with a project, by one SQL
//! statement over the billing tables.
use vstd::prelude::*;

use crate::calendar::CostWindow;
use crate::json::{Json, JsonView};
use crate::provision::cost::{service_cost, unavailable, CostView, ServiceCost};
use crate::text::{
    contents, decimal, decimal_text, occurs, stands_at, text_eq, trim_end_matches,
    without_trailing,
};
use crate::usd::Usd;

verus! {

/// The connection to a workspace.
#[derive(Debug)]
pub struct DatabricksCostSource {
    pub host: String,
    pub token: String,
    pub warehouse_id: String,
}

/// The sum of usage times list price over a window, for the rows of a project.
/// The window and the project are bound by name.
pub const USAGE_SQL: &'static str =
    "SELECT COALESCE(SUM(u.usage_quantity * lp.pricing.default), 0) AS cost_usd FROM system.billing.usage u JOIN system.billing.list_prices lp ON u.sku_name = lp.sku_name AND u.usage_end_time >= lp.price_start_time AND (lp.price_end_time IS NULL OR u.usage_end_time < lp.price_end_time) WHERE u.usage_date >= CAST(:start AS DATE) AND u.usage_date < CAST(:end AS DATE) AND u.custom_tags.project = :pid";

/// A bound parameter.
pub open spec fn parameter(name: Seq<char>, value: Seq<char>) -> JsonView {
    JsonView::Object(
        Map::empty().insert("name"@, JsonView::Str(name)).insert("value"@, JsonView::Str(value)),
    )
}

/// What a workspace is asked.
pub open spec fn statement_body(
    warehouse_id: Seq<char>,
    project_id: Seq<char>,
    start: Seq<char>,
    end: Seq<char>,
) -> JsonView {
    JsonView::Object(
        Map::empty().insert("warehouse_id"@, JsonView::Str(warehouse_id)).insert(
            "statement"@,
            JsonView::Str(USAGE_SQL@),
        ).insert("wait_timeout"@, JsonView::Str("30s"@)).insert(
            "on_wait_timeout"@,
            JsonView::Str("CANCEL"@),
        ).insert(
            "parameters"@,
            JsonView::Array(
                seq![
                    parameter("start"@, start),
                    parameter("end"@, end),
                    parameter("pid"@, project_id),
                ],
            ),
        ),
    )
}

fn parameter_json(name: &str, value: &str) -> (r: Json)
    ensures
        r@ == parameter(name@, value@),
{
    let mut j = Json::object();
    j.insert_str("name", name);
    j.insert_str("value", value);
    j
}

/// The first of a value's elements: of an array its first, of an object its
/// member `0`.
pub open spec fn first_part(v: JsonView) -> Option<JsonView> {
    match v {
        JsonView::Array(s) => v.item(0),
        _ => v.at("0"@),
    }
}

fn first_of_value(v: &Json) -> (r: Option<&Json>)
    ensures
        match r {
            Some(j) => first_part(v@) == Some(j@),
            None => first_part(v@) is None,
        },
{
    match v {
        Json::Array(_) => v.get_item(0),
        _ => v.get("0"),
    }
}

/// The state of a statement in a reply.
pub open spec fn state_in(payload: JsonView) -> Option<Seq<char>> {
    match payload.at("status"@) {
        Some(s) => s.text_at("state"@),
        None => None,
    }
}

/// The one cell of a reply's result.
pub open spec fn cell_in(payload: JsonView) -> Option<JsonView> {
    match payload.at("result"@) {
        Some(r) => match r.at("data_array"@) {
            Some(rows) => match first_part(rows) {
                Some(row) => first_part(row),
                None => None,
            },
            None => None,
        },
        None => None,
    }
}

/// The writing of the cost in a reply: that of the one cell, and only where the
/// statement succeeded.
pub open spec fn cost_written(payload: JsonView) -> Option<Seq<char>> {
    if state_in(payload) == Some("SUCCEEDED"@) {
        match cell_in(payload) {
            Some(JsonView::Str(s)) => Some(s),
            Some(JsonView::Number(n)) => Some(n),
            _ => None,
        }
    } else {
        None
    }
}

fn state_text(payload: &Json) -> (r: Option<&str>)
    ensures
        match r {
            Some(s) => state_in(payload@) == Some(s@),
            None => state_in(payload@) is None,
        },
{
    match payload.get("status") {
        Some(s) => s.get_str("state"),
        None => None,
    }
}

fn cell_of(payload: &Json) -> (r: Option<&Json>)
    ensures
        match r {
            Some(j) => cell_in(payload@) == Some(j@),
            None => cell_in(payload@) is None,
        },
{
    match payload.get("result") {
        Some(r) => match r.get("data_array") {
            Some(rows) => match first_of_value(rows) {
                Some(row) => first_of_value(row),
                None => None,
            },
            None => None,
        },
        None => None,
    }
}

/// The writing of the cost in a reply, to be read as a number.
pub fn parse_cost(payload: &Json) -> (r: Option<String>)
    ensures
        contents(r) == cost_written(payload@),
{
    match state_text(payload) {
        Some(s) => {
            if !text_eq(s, "SUCCEEDED") {
                return None;
            }
        },
        None => {
            return None;
        },
    }
    match cell_of(payload) {
        Some(Json::Str(s)) => Some(s.clone()),
        Some(Json::Number(n)) => Some(n.clone()),
        _ => None,
    }
}

/// What is told of a reply without a cost: the state of its statement.
pub fn state_of(payload: &Json) -> (r: String)
    ensures
        r@ == match state_in(payload@) {
            Some(s) => s,
            None => "no result"@,
        },
{
    match state_text(payload) {
        Some(s) => s.to_owned(),
        None => "no result".to_owned(),
    }
}

impl DatabricksCostSource {
    /// The connection to a workspace.
    pub fn new(host: &str, token: &str, warehouse_id: &str) -> (r: DatabricksCostSource)
        ensures
            r.host@ == host@,
            r.token@ == token@,
            r.warehouse_id@ == warehouse_id@,
    {
        DatabricksCostSource {
            host: host.to_owned(),
            token: token.to_owned(),
            warehouse_id: warehouse_id.to_owned(),
        }
    }

    /// Its name.
    pub fn name(&self) -> (r: &'static str)
        ensures
            r@ == "databricks-billing"@,
    {
        "databricks-billing"
    }

    /// The address that statements go to.
    pub fn url(&self) -> (r: String)
        ensures
            r@ == without_trailing(self.host@, '/') + "/api/2.0/sql/statements"@,
    {
        let mut u = trim_end_matches(self.host.as_str(), '/');
        u.append("/api/2.0/sql/statements");
        u
    }

    /// What a workspace is asked.
    pub fn body(&self, project_id: &str, window: &CostWindow) -> (r: Json)
        ensures
            r@ == statement_body(self.warehouse_id@, project_id@, window.start@, window.end@),
    {
        let mut b = Json::object();
        b.insert_str("warehouse_id", self.warehouse_id.as_str());
        b.insert_str("statement", USAGE_SQL);
        b.insert_str("wait_timeout", "30s");
        b.insert_str("on_wait_timeout", "CANCEL");
        let mut p: Vec<Json> = Vec::new();
        p.push(parameter_json("start", window.start.as_str()));
        p.push(parameter_json("end", window.end.as_str()));
        p.push(parameter_json("pid", project_id));
        proof {
            crate::json::lemma_items_view(p@);
            assert(crate::json::items_view(p@) =~= seq![
                parameter("start"@, window.start@),
                parameter("end"@, window.end@),
                parameter("pid"@, project_id@),
            ]);
        }
        b.insert("parameters", Json::Array(p));
        b
    }

    /// What is reported of a measured cost.
    pub fn measured(&self, usd: Usd) -> (r: ServiceCost)
        ensures
            r@ == (CostView {
                backend: "databricks"@,
                actual_usd: Some(usd),
                source: "databricks-billing"@,
            }),
    {
        service_cost("databricks", Some(usd), "databricks-billing")
    }

    /// What is reported where nothing was measured.
    pub fn unmeasured(&self, why: &str) -> (r: ServiceCost)
        ensures
            r@ == (CostView {
                backend: "databricks"@,
                actual_usd: None,
                source: "databricks-billing"@ + " unavailable: "@ + why@,
            }),
    {
        unavailable("databricks", "databricks-billing", why)
    }

    /// What is reported where the workspace refused.
    pub fn refused(&self, status: u16) -> (r: ServiceCost)
        ensures
            r@ == (CostView {
                backend: "databricks"@,
                actual_usd: None,
                source: "databricks-billing"@ + " unavailable: "@ + ("http "@ + decimal(
                    status as nat,
                )),
            }),
    {
        let mut why = "http ".to_owned();
        let d = decimal_text(status as u64);
        why.append(d.as_str());
        self.unmeasured(why.as_str())
    }
}

/// Whoever asks, and for whatever days, one fixed statement is sent: it reads the billing
/// table of the rows tagged with the bound project, in the bound days. What a caller
/// gives is bound as a parameter and stands nowhere else.
pub proof fn law_statement_is_fixed(
    warehouse_id: Seq<char>,
    project_id: Seq<char>,
    start: Seq<char>,
    end: Seq<char>,
    other_project_id: Seq<char>,
    other_start: Seq<char>,
    other_end: Seq<char>,
    key: Seq<char>,
)
    ensures
        key != "parameters"@ ==> statement_body(warehouse_id, project_id, start, end).at(key)
            == statement_body(warehouse_id, other_project_id, other_start, other_end).at(key),
        statement_body(warehouse_id, project_id, start, end).at("parameters"@) == Some(
            JsonView::Array(
                seq![
                    parameter("start"@, start),
                    parameter("end"@, end),
                    parameter("pid"@, project_id),
                ],
            ),
        ),
        statement_body(warehouse_id, project_id, start, end).text_at("statement"@) == Some(
            USAGE_SQL@,
        ),
        occurs(USAGE_SQL@, "system.billing.usage"@),
        occurs(USAGE_SQL@, "custom_tags.project = :pid"@),
        occurs(USAGE_SQL@, ":start"@),
        occurs(USAGE_SQL@, ":end"@),
{
    lemma_statement_text();
    reveal_strlit("statement");
    reveal_strlit("parameters");
    reveal_strlit("wait_timeout");
    reveal_strlit("on_wait_timeout");
    assert("statement"@.len() == 9 && "parameters"@.len() == 10 && "wait_timeout"@.len() == 12
        && "on_wait_timeout"@.len() == 15);
}

proof fn lemma_statement_text()
    ensures
        occurs(USAGE_SQL@, "system.billing.usage"@),
        occurs(USAGE_SQL@, "custom_tags.project = :pid"@),
        occurs(USAGE_SQL@, ":start"@),
        occurs(USAGE_SQL@, ":end"@),
{
    reveal_strlit(
        "SELECT COALESCE(SUM(u.usage_quantity * lp.pricing.default), 0) AS cost_usd FROM system.billing.usage u JOIN system.billing.list_prices lp ON u.sku_name = lp.sku_name AND u.usage_end_time >= lp.price_start_time AND (lp.price_end_time IS NULL OR u.usage_end_time < lp.price_end_time) WHERE u.usage_date >= CAST(:start AS DATE) AND u.usage_date < CAST(:end AS DATE) AND u.custom_tags.project = :pid",
    );
    reveal_strlit("system.billing.usage");
    assert(USAGE_SQL@.subrange(80, 100) =~= "system.billing.usage"@);
    assert(stands_at(USAGE_SQL@, "system.billing.usage"@, 80));
    reveal_strlit("custom_tags.project = :pid");
    assert(USAGE_SQL@.subrange(369, 395) =~= "custom_tags.project = :pid"@);
    assert(stands_at(USAGE_SQL@, "custom_tags.project = :pid"@, 369));
    reveal_strlit(":start");
    assert(USAGE_SQL@.subrange(309, 315) =~= ":start"@);
    assert(stands_at(USAGE_SQL@, ":start"@, 309));
    reveal_strlit(":end");
    assert(USAGE_SQL@.subrange(349, 353) =~= ":end"@);
    assert(stands_at(USAGE_SQL@, ":end"@, 349));
}

/// A statement that did not succeed is never a cost, not even of zero.
pub proof fn law_unfinished_is_not_measured(payload: JsonView)
    requires
        state_in(payload) != Some("SUCCEEDED"@),
    ensures
        cost_written(payload) is None,
{
}

/// The cost is the first cell of the first row of a statement that succeeded, a text or a
/// number.
pub proof fn law_cost_is_the_one_cell(payload: JsonView, rows: JsonView, row: JsonView)
    requires
        payload.at("status"@) is Some,
        payload.at("status"@)->0.text_at("state"@) == Some("SUCCEEDED"@),
        payload.at("result"@) is Some,
        payload.at("result"@)->0.at("data_array"@) == Some(rows),
        rows is Array,
        rows.item(0) == Some(row),
        row is Array,
        row.item(0) is Some,
    ensures
        row.item(0)->0 matches JsonView::Str(s) ==> cost_written(payload) == Some(s),
        row.item(0)->0 matches JsonView::Number(n) ==> cost_written(payload) == Some(n),
        !(row.item(0)->0 is Str) && !(row.item(0)->0 is Number) ==> cost_written(payload) is None,
{
}

/// A parameter is bound under its name with its value.
pub proof fn law_parameters_are_bound_by_name(name: Seq<char>, value: Seq<char>)
    ensures
        parameter(name, value).text_at("name"@) == Some(name),
        parameter(name, value).text_at("value"@) == Some(value),
{
    reveal_strlit("name");
    reveal_strlit("value");
    assert("name"@.len() == 4);
    assert("value"@.len() == 5);
}

} // verus!
