//! Questions about cost. A model answers them through tools over the rollup, and
//! sees nothing but what the tools report; without a model there is a briefing.
use vstd::prelude::*;

use super::report::budget_pressure;
use super::rollup::{
    dim_name, latest_forecast, named_dim, newest_forecast, DimRow, ForecastRow, ProjectFact,
    RollupDim,
};
use crate::json::{json_text, reads_as, Json, JsonView};
use crate::sorted_map::SortedMap;
use crate::text::{contains, decimal, decimal_int, decimal_text, occurs, text_eq};
use crate::usd::{total_rank, Usd};

verus! {

/// How often a model may call tools before it has to answer.
pub const MAX_ROUNDS: usize = 4;

/// A tool as a model is told of it.
#[derive(Debug)]
pub struct ToolDef {
    pub name: String,
    pub description: String,
}

/// The names and descriptions of the tools.
pub open spec fn tool_texts() -> Seq<(Seq<char>, Seq<char>)> {
    seq![
        (
            "project_spend"@,
            "Month-to-date spend for one project. args: {\"project_id\"}"@,
        ),
        (
            "org_spend"@,
            "Spend grouped by a dimension (project|owner|manager|group|cost_center|classification|service). args: {\"dimension\"}"@,
        ),
        (
            "top_movers"@,
            "Biggest movers this month vs last, by project and group. args: {}"@,
        ),
        (
            "forecast"@,
            "Latest end-of-month forecast for one project. args: {\"project_id\"}"@,
        ),
        (
            "untagged"@,
            "Tagged spend vs the cloud account total (tagged-%). args: {}"@,
        ),
        (
            "anomalies"@,
            "Recent cost anomalies (a day's spend far from a source's trailing norm). args: {}"@,
        ),
        (
            "budget_status"@,
            "Every project's MTD spend, EOM forecast, monthly budget cap, and whether it is projected over budget. args: {}"@,
        ),
    ]
}

fn tool(name: &str, description: &str) -> (r: ToolDef)
    ensures
        r.name@ == name@,
        r.description@ == description@,
{
    ToolDef { name: name.to_owned(), description: description.to_owned() }
}

/// The tools that a model may call.
pub fn tools() -> (r: Vec<ToolDef>)
    ensures
        r@.len() == tool_texts().len(),
        forall|i: int|
            0 <= i < r@.len() ==> (#[trigger] r@[i]).name@ == tool_texts()[i].0
                && r@[i].description@ == tool_texts()[i].1,
{
    let mut r: Vec<ToolDef> = Vec::new();
    r.push(
        tool(
            "project_spend",
            "Month-to-date spend for one project. args: {\"project_id\"}",
        ),
    );
    r.push(
        tool(
            "org_spend",
            "Spend grouped by a dimension (project|owner|manager|group|cost_center|classification|service). args: {\"dimension\"}",
        ),
    );
    r.push(
        tool("top_movers", "Biggest movers this month vs last, by project and group. args: {}"),
    );
    r.push(
        tool(
            "forecast",
            "Latest end-of-month forecast for one project. args: {\"project_id\"}",
        ),
    );
    r.push(tool("untagged", "Tagged spend vs the cloud account total (tagged-%). args: {}"));
    r.push(
        tool(
            "anomalies",
            "Recent cost anomalies (a day's spend far from a source's trailing norm). args: {}",
        ),
    );
    r.push(
        tool(
            "budget_status",
            "Every project's MTD spend, EOM forecast, monthly budget cap, and whether it is projected over budget. args: {}",
        ),
    );
    r
}

/// What a tool call asks for.
#[derive(Debug)]
pub enum CostQuestion {
    ProjectSpend { project_id: String },
    OrgSpend { dim: RollupDim },
    TopMovers { top: usize },
    Forecast { project_id: String },
    Untagged,
    Anomalies { limit: usize },
    BudgetStatus,
}

/// What a tool call asks for, by contents.
pub enum QuestionView {
    ProjectSpend { project_id: Seq<char> },
    OrgSpend { dim: RollupDim },
    TopMovers { top: int },
    Forecast { project_id: Seq<char> },
    Untagged,
    Anomalies { limit: int },
    BudgetStatus,
}

impl View for CostQuestion {
    type V = QuestionView;

    open spec fn view(&self) -> QuestionView {
        match self {
            CostQuestion::ProjectSpend { project_id } => QuestionView::ProjectSpend {
                project_id: project_id@,
            },
            CostQuestion::OrgSpend { dim } => QuestionView::OrgSpend { dim: *dim },
            CostQuestion::TopMovers { top } => QuestionView::TopMovers { top: *top as int },
            CostQuestion::Forecast { project_id } => QuestionView::Forecast {
                project_id: project_id@,
            },
            CostQuestion::Untagged => QuestionView::Untagged,
            CostQuestion::Anomalies { limit } => QuestionView::Anomalies { limit: *limit as int },
            CostQuestion::BudgetStatus => QuestionView::BudgetStatus,
        }
    }
}

/// What a tool of a name is asked with some arguments; none where there is no such
/// tool.
pub open spec fn asked(name: Seq<char>, args: JsonView) -> Option<QuestionView> {
    if name == "project_spend"@ {
        Some(QuestionView::ProjectSpend { project_id: args.text_or_empty("project_id"@) })
    } else if name == "org_spend"@ {
        Some(
            QuestionView::OrgSpend {
                dim: match named_dim(args.text_or_empty("dimension"@)) {
                    Some(d) => d,
                    None => RollupDim::Project,
                },
            },
        )
    } else if name == "top_movers"@ {
        Some(QuestionView::TopMovers { top: 5 })
    } else if name == "forecast"@ {
        Some(QuestionView::Forecast { project_id: args.text_or_empty("project_id"@) })
    } else if name == "untagged"@ {
        Some(QuestionView::Untagged)
    } else if name == "anomalies"@ {
        Some(QuestionView::Anomalies { limit: 20 })
    } else if name == "budget_status"@ {
        Some(QuestionView::BudgetStatus)
    } else {
        None
    }
}

/// Reads a tool call.
pub fn read_call(name: &str, args: &Json) -> (r: Result<CostQuestion, String>)
    ensures
        match (r, asked(name@, args@)) {
            (Ok(q), Some(v)) => q@ == v,
            (Err(e), None) => e@ == "unknown tool: "@ + name@,
            _ => false,
        },
{
    if text_eq(name, "project_spend") {
        Ok(CostQuestion::ProjectSpend { project_id: args.get_str_or_empty("project_id") })
    } else if text_eq(name, "org_spend") {
        let named = args.get_str_or_empty("dimension");
        match RollupDim::parse(named.as_str()) {
            Some(dim) => Ok(CostQuestion::OrgSpend { dim }),
            None => Ok(CostQuestion::OrgSpend { dim: RollupDim::Project }),
        }
    } else if text_eq(name, "top_movers") {
        Ok(CostQuestion::TopMovers { top: 5 })
    } else if text_eq(name, "forecast") {
        Ok(CostQuestion::Forecast { project_id: args.get_str_or_empty("project_id") })
    } else if text_eq(name, "untagged") {
        Ok(CostQuestion::Untagged)
    } else if text_eq(name, "anomalies") {
        Ok(CostQuestion::Anomalies { limit: 20 })
    } else if text_eq(name, "budget_status") {
        Ok(CostQuestion::BudgetStatus)
    } else {
        let mut m = "unknown tool: ".to_owned();
        m.append(name);
        Err(m)
    }
}

/// Every tool that a model is told of can be called, and nothing else.
pub proof fn law_every_tool_answers(name: Seq<char>, args: JsonView)
    ensures
        asked(name, args) is Some <==> exists|i: int|
            0 <= i < tool_texts().len() && (#[trigger] tool_texts()[i]).0 == name,
{
    let all = tool_texts();
    assert(all[0].0 == "project_spend"@ && all[1].0 == "org_spend"@ && all[2].0 == "top_movers"@
        && all[3].0 == "forecast"@ && all[4].0 == "untagged"@ && all[5].0 == "anomalies"@
        && all[6].0 == "budget_status"@);
    if exists|i: int| 0 <= i < tool_texts().len() && (#[trigger] tool_texts()[i]).0 == name {
        let i = choose|i: int| 0 <= i < tool_texts().len() && (#[trigger] tool_texts()[i]).0 == name;
        assert(i == 0 || i == 1 || i == 2 || i == 3 || i == 4 || i == 5 || i == 6);
    }
}

/// The month-to-date spend of a project among facts; zero where it has none.
pub open spec fn spend_of(facts: Seq<ProjectFact>, project_id: Seq<char>) -> Usd
    decreases facts.len(),
{
    if facts.len() == 0 {
        Usd { bits: 0 }
    } else if facts[0].project_id@ == project_id {
        facts[0].mtd_usd
    } else {
        spend_of(facts.subrange(1, facts.len() as int), project_id)
    }
}

/// The month-to-date spend of a project.
pub fn project_spend(facts: &Vec<ProjectFact>, project_id: &str) -> (r: Usd)
    ensures
        r == spend_of(facts@, project_id@),
{
    let mut i: usize = 0;
    assert(facts@.subrange(0, facts@.len() as int) =~= facts@);
    while i < facts.len()
        invariant
            i <= facts@.len(),
            spend_of(facts@, project_id@) == spend_of(
                facts@.subrange(i as int, facts@.len() as int),
                project_id@,
            ),
        decreases facts.len() - i,
    {
        let ghost rest = facts@.subrange(i as int, facts@.len() as int);
        assert(rest[0] == facts@[i as int]);
        assert(rest.subrange(1, rest.len() as int) =~= facts@.subrange(
            i + 1,
            facts@.len() as int,
        ));
        if text_eq(facts[i].project_id.as_str(), project_id) {
            return facts[i].mtd_usd;
        }
        i = i + 1;
    }
    Usd::zero()
}

/// What was found in answer to a question. Figures come as JSON numbers, rows as JSON
/// arrays.
#[derive(Debug)]
pub enum Finding {
    ProjectSpend { project_id: String, mtd: Json },
    OrgSpend { dim: RollupDim, rows: Json },
    TopMovers { by_project: Json, by_group: Json },
    Forecast { project_id: String, forecast: Option<ForecastFigures> },
    Untagged { tagged: Json, account_total: Option<Json>, pct: Option<Json> },
    Anomalies { rows: Json },
    BudgetStatus { rows: Json },
}

/// A project's latest forecast, its figures as JSON numbers.
#[derive(Debug)]
pub struct ForecastFigures {
    pub as_of_day: String,
    pub method: String,
    pub eom: Json,
    pub low: Json,
    pub high: Json,
    pub r2: Option<Json>,
    pub n_days: i64,
}

/// A figure, or null where there is none.
pub open spec fn figure(j: Option<Json>) -> JsonView {
    match j {
        Some(v) => v@,
        None => JsonView::Null,
    }
}

/// What a tool reports of what was found. A project without a forecast has not enough
/// history; the tagged share is told only where there is an account total to share in.
pub open spec fn report_of(f: Finding) -> Map<Seq<char>, JsonView> {
    let none = Map::<Seq<char>, JsonView>::empty();
    match f {
        Finding::ProjectSpend { project_id, mtd } => none.insert(
            "project_id"@,
            JsonView::Str(project_id@),
        ).insert("mtd_usd"@, mtd@),
        Finding::OrgSpend { dim, rows } => none.insert("by"@, JsonView::Str(dim_name(dim))).insert(
            "rows"@,
            rows@,
        ),
        Finding::TopMovers { by_project, by_group } => none.insert(
            "by_project"@,
            by_project@,
        ).insert("by_group"@, by_group@),
        Finding::Forecast { project_id, forecast: Some(c) } => none.insert(
            "project_id"@,
            JsonView::Str(project_id@),
        ).insert("as_of_day"@, JsonView::Str(c.as_of_day@)).insert(
            "method"@,
            JsonView::Str(c.method@),
        ).insert("eom_usd"@, c.eom@).insert("low_usd"@, c.low@).insert("high_usd"@, c.high@).insert(
            "r2"@,
            figure(c.r2),
        ).insert("n_days"@, JsonView::Number(decimal_int(c.n_days as int))),
        Finding::Forecast { project_id, forecast: None } => none.insert(
            "project_id"@,
            JsonView::Str(project_id@),
        ).insert("forecast"@, JsonView::Str("insufficient history"@)),
        Finding::Untagged { tagged, account_total, pct } => none.insert(
            "tagged_usd"@,
            tagged@,
        ).insert("account_total_usd"@, figure(account_total)).insert(
            "tagged_pct"@,
            if account_total is Some {
                figure(pct)
            } else {
                JsonView::Null
            },
        ),
        Finding::Anomalies { rows } => none.insert("anomalies"@, rows@),
        Finding::BudgetStatus { rows } => none.insert("projects"@, rows@),
    }
}

fn figure_or_null(j: Option<Json>) -> (r: Json)
    ensures
        r@ == figure(j),
{
    match j {
        Some(v) => v,
        None => Json::Null,
    }
}

/// What a tool reports of what was found.
pub fn report(f: Finding) -> (r: Json)
    ensures
        r@ == JsonView::Object(report_of(f)),
{
    let mut r = Json::object();
    match f {
        Finding::ProjectSpend { project_id, mtd } => {
            r.insert_str("project_id", project_id.as_str());
            r.insert("mtd_usd", mtd);
        },
        Finding::OrgSpend { dim, rows } => {
            r.insert_str("by", dim.as_str());
            r.insert("rows", rows);
        },
        Finding::TopMovers { by_project, by_group } => {
            r.insert("by_project", by_project);
            r.insert("by_group", by_group);
        },
        Finding::Forecast { project_id, forecast } => {
            r.insert_str("project_id", project_id.as_str());
            match forecast {
                Some(c) => {
                    r.insert_str("as_of_day", c.as_of_day.as_str());
                    r.insert_str("method", c.method.as_str());
                    r.insert("eom_usd", c.eom);
                    r.insert("low_usd", c.low);
                    r.insert("high_usd", c.high);
                    r.insert("r2", figure_or_null(c.r2));
                    r.insert("n_days", Json::integer(c.n_days));
                },
                None => r.insert_str("forecast", "insufficient history"),
            }
        },
        Finding::Untagged { tagged, account_total, pct } => {
            let known = account_total.is_some();
            r.insert("tagged_usd", tagged);
            r.insert("account_total_usd", figure_or_null(account_total));
            if known {
                r.insert("tagged_pct", figure_or_null(pct));
            } else {
                r.insert("tagged_pct", Json::Null);
            }
        },
        Finding::Anomalies { rows } => r.insert("anomalies", rows),
        Finding::BudgetStatus { rows } => r.insert("projects", rows),
    }
    r
}

/// A tool's answer: the JSON text of its report. It is read back as the report where
/// the report's numbers are integers in 64 bits.
pub fn answer_text(f: Finding) -> (r: String)
    ensures
        r@ == json_text(JsonView::Object(report_of(f))),
        r@.len() > 0,
        JsonView::Object(report_of(f)).plain(127) ==> reads_as(
            r@,
            JsonView::Object(report_of(f)),
        ),
{
    report(f).text()
}

/// Without an account total the tagged share is null, whatever share was worked out.
pub proof fn law_no_total_no_share(tagged: Json, pct: Option<Json>)
    ensures
        report_of(Finding::Untagged { tagged, account_total: None, pct })["tagged_pct"@]
            == JsonView::Null,
{
}

// ---------------------------------------------------------------------------
// Budgets
// ---------------------------------------------------------------------------

/// A project's budget, and the forecast above which it counts as spent.
#[derive(Debug, Clone, Copy)]
pub struct BudgetLimit {
    pub budget: Usd,
    pub threshold: Usd,
}

/// Whether a project is projected over its budget: it has one, and its latest
/// forecast is above the threshold.
pub open spec fn over_budget(
    project_id: Seq<char>,
    limits: Map<Seq<char>, BudgetLimit>,
    forecasts: Seq<ForecastRow>,
) -> bool {
    limits.contains_key(project_id) && limits[project_id].budget.positive()
        && match newest_forecast(forecasts, project_id) {
        Some(k) => limits[project_id].threshold.less(forecasts[k].eom_usd),
        None => false,
    }
}

/// Whether a project is projected over its budget.
pub fn is_over_budget(
    project_id: &str,
    limits: &SortedMap<BudgetLimit>,
    forecasts: &Vec<ForecastRow>,
) -> (r: bool)
    ensures
        r == over_budget(project_id@, limits@, forecasts@),
{
    match limits.get(project_id) {
        Some(l) => match latest_forecast(forecasts, project_id) {
            Some(k) => budget_pressure(&l.budget, &l.threshold, &forecasts[k].eom_usd),
            None => false,
        },
        None => false,
    }
}

/// How many projects are projected over their budgets.
pub open spec fn count_over(
    facts: Seq<ProjectFact>,
    limits: Map<Seq<char>, BudgetLimit>,
    forecasts: Seq<ForecastRow>,
) -> nat
    decreases facts.len(),
{
    if facts.len() == 0 {
        0
    } else {
        count_over(facts.drop_last(), limits, forecasts) + if over_budget(
            facts.last().project_id@,
            limits,
            forecasts,
        ) {
            1nat
        } else {
            0nat
        }
    }
}

/// How many projects are projected over their budgets.
pub fn projects_over_budget(
    facts: &Vec<ProjectFact>,
    limits: &SortedMap<BudgetLimit>,
    forecasts: &Vec<ForecastRow>,
) -> (r: usize)
    ensures
        r == count_over(facts@, limits@, forecasts@),
{
    let mut n: usize = 0;
    let mut i: usize = 0;
    assert(facts@.take(0) =~= Seq::empty());
    while i < facts.len()
        invariant
            n <= i <= facts@.len(),
            n == count_over(facts@.take(i as int), limits@, forecasts@),
        decreases facts.len() - i,
    {
        assert(facts@.take(i + 1).drop_last() =~= facts@.take(i as int));
        if is_over_budget(facts[i].project_id.as_str(), limits, forecasts) {
            n = n + 1;
        }
        i = i + 1;
    }
    assert(facts@.take(facts@.len() as int) =~= facts@);
    n
}

// ---------------------------------------------------------------------------
// The briefing
// ---------------------------------------------------------------------------

/// The place of the group with the most measured spend, the last of equal ones.
pub fn top_group(groups: &Vec<DimRow>) -> (r: Option<usize>)
    ensures
        match r {
            Some(k) => k < groups@.len() && forall|i: int|
                0 <= i < groups@.len() ==> total_rank((#[trigger] groups@[i]).actual_usd.bits)
                    <= total_rank(groups@[k as int].actual_usd.bits) && (i > k ==> total_rank(
                    groups@[i].actual_usd.bits,
                ) < total_rank(groups@[k as int].actual_usd.bits)),
            None => groups@.len() == 0,
        },
{
    if groups.len() == 0 {
        return None;
    }
    let mut k: usize = 0;
    let mut i: usize = 1;
    while i < groups.len()
        invariant
            k < i <= groups@.len(),
            forall|j: int|
                0 <= j < i ==> total_rank((#[trigger] groups@[j]).actual_usd.bits) <= total_rank(
                    groups@[k as int].actual_usd.bits,
                ) && (j > k ==> total_rank(groups@[j].actual_usd.bits) < total_rank(
                    groups@[k as int].actual_usd.bits,
                )),
        decreases groups.len() - i,
    {
        if !groups[i].actual_usd.is_before(&groups[k].actual_usd) {
            k = i;
        }
        i = i + 1;
    }
    Some(k)
}

/// What a briefing tells, with its figures written out.
#[derive(Debug)]
pub struct Briefing {
    pub total: String,
    pub projects: usize,
    /// The group with the most spend, and how much.
    pub top_group: Option<(String, String)>,
    /// What moved most, by how many percent and by how much.
    pub top_mover: Option<(String, String, String)>,
    pub anomalies: usize,
    pub over_budget: usize,
}

/// The sentence on the group with the most spend.
pub open spec fn group_sentence(g: Option<(String, String)>) -> Seq<char> {
    match g {
        Some((key, amount)) => " Highest group is "@ + key@ + " at "@ + amount@ + "."@,
        None => Seq::empty(),
    }
}

/// The sentence on what moved most.
pub open spec fn mover_sentence(m: Option<(String, String, String)>) -> Seq<char> {
    match m {
        Some((key, pct, amount)) => " Biggest mover vs last month: "@ + key@ + " ("@ + pct@ + "%, "@
            + amount@ + ")."@,
        None => Seq::empty(),
    }
}

/// The sentence on anomalies.
pub open spec fn anomaly_sentence(n: int) -> Seq<char> {
    if n == 0 {
        " No cost anomalies are open."@
    } else {
        " "@ + decimal(n as nat) + " cost anomaly(ies) are open."@
    }
}

/// The sentence on budgets; there is none where none is exceeded.
pub open spec fn budget_sentence(n: int) -> Seq<char> {
    if n == 0 {
        Seq::empty()
    } else {
        " "@ + decimal(n as nat) + " project(s) projected over budget."@
    }
}

impl Briefing {
    /// The briefing as text.
    pub fn text(&self) -> (r: String)
        ensures
            r@ == "Month-to-date spend is "@ + self.total@ + " across "@ + decimal(
                self.projects as nat,
            ) + " project(s)."@ + group_sentence(self.top_group) + mover_sentence(self.top_mover)
                + anomaly_sentence(self.anomalies as int) + budget_sentence(
                self.over_budget as int,
            ) + " (Deterministic briefing — wire a reasoning model for free-form Q&A.)"@,
    {
        let mut s = "Month-to-date spend is ".to_owned();
        s.append(self.total.as_str());
        s.append(" across ");
        s.append(decimal_text(self.projects as u64).as_str());
        s.append(" project(s).");
        let ghost head = s@;
        match &self.top_group {
            Some((key, amount)) => {
                s.append(" Highest group is ");
                s.append(key.as_str());
                s.append(" at ");
                s.append(amount.as_str());
                s.append(".");
            },
            None => {},
        }
        assert(s@ =~= head + group_sentence(self.top_group));
        let ghost head = s@;
        match &self.top_mover {
            Some((key, pct, amount)) => {
                s.append(" Biggest mover vs last month: ");
                s.append(key.as_str());
                s.append(" (");
                s.append(pct.as_str());
                s.append("%, ");
                s.append(amount.as_str());
                s.append(").");
            },
            None => {},
        }
        assert(s@ =~= head + mover_sentence(self.top_mover));
        let ghost head = s@;
        if self.anomalies == 0 {
            s.append(" No cost anomalies are open.");
        } else {
            s.append(" ");
            s.append(decimal_text(self.anomalies as u64).as_str());
            s.append(" cost anomaly(ies) are open.");
        }
        assert(s@ =~= head + anomaly_sentence(self.anomalies as int));
        let ghost head = s@;
        if self.over_budget > 0 {
            s.append(" ");
            s.append(decimal_text(self.over_budget as u64).as_str());
            s.append(" project(s) projected over budget.");
        }
        assert(s@ =~= head + budget_sentence(self.over_budget as int));
        s.append(" (Deterministic briefing — wire a reasoning model for free-form Q&A.)");
        s
    }
}

/// Whether a question is answered by the briefing: a mock model cannot reason over
/// tools.
pub fn is_briefed(model: &str) -> (r: bool)
    ensures
        r == occurs(model@, "mock"@),
{
    contains(model, "mock")
}

/// What a model is told before a question.
pub fn grounding(as_of_day: &str) -> (r: String)
    ensures
        r@ == "You are Frontkeep's cost assistant. Today is "@ + as_of_day@
            + ". Answer questions about cloud infrastructure and model spend strictly from the cost tools."@,
{
    let mut s = "You are Frontkeep's cost assistant. Today is ".to_owned();
    s.append(as_of_day);
    s.append(
        ". Answer questions about cloud infrastructure and model spend strictly from the cost tools.",
    );
    s
}

/// Each tool asks what its name says: for the project that the arguments name, by the
/// dimension that they name or else by project, for the five largest movers, or for the
/// latest twenty anomalies.
pub proof fn law_tools_ask_what_they_are_named_for(args: JsonView)
    ensures
        asked("project_spend"@, args) == Some(
            QuestionView::ProjectSpend { project_id: args.text_or_empty("project_id"@) },
        ),
        asked("forecast"@, args) == Some(
            QuestionView::Forecast { project_id: args.text_or_empty("project_id"@) },
        ),
        named_dim(args.text_or_empty("dimension"@)) matches Some(d) ==> asked("org_spend"@, args)
            == Some(QuestionView::OrgSpend { dim: d }),
        named_dim(args.text_or_empty("dimension"@)) is None ==> asked("org_spend"@, args) == Some(
            QuestionView::OrgSpend { dim: RollupDim::Project },
        ),
        asked("top_movers"@, args) == Some(QuestionView::TopMovers { top: 5 }),
        asked("anomalies"@, args) == Some(QuestionView::Anomalies { limit: 20 }),
        asked("untagged"@, args) == Some(QuestionView::Untagged),
        asked("budget_status"@, args) == Some(QuestionView::BudgetStatus),
{
    reveal_strlit("project_spend");
    reveal_strlit("org_spend");
    reveal_strlit("top_movers");
    reveal_strlit("forecast");
    reveal_strlit("untagged");
    reveal_strlit("anomalies");
    reveal_strlit("budget_status");
    assert("project_spend"@.len() == 13);
    assert("org_spend"@.len() == 9);
    assert("top_movers"@.len() == 10);
    assert("forecast"@.len() == 8);
    assert("untagged"@.len() == 8);
    assert("anomalies"@.len() == 9);
    assert("budget_status"@.len() == 13);
    assert("project_spend"@[0] != "budget_status"@[0]);
    assert("org_spend"@[0] != "anomalies"@[0]);
    assert("forecast"@[0] != "untagged"@[0]);
}

/// The spend that is told of a project is that of its first fact, and zero where it has
/// none.
pub proof fn law_spend_is_the_projects_own(facts: Seq<ProjectFact>, project_id: Seq<char>, k: int)
    ensures
        0 <= k < facts.len() && facts[k].project_id@ == project_id && (forall|i: int|
            0 <= i < k ==> (#[trigger] facts[i]).project_id@ != project_id) ==> spend_of(
            facts,
            project_id,
        ) == facts[k].mtd_usd,
        (forall|i: int| 0 <= i < facts.len() ==> (#[trigger] facts[i]).project_id@ != project_id)
            ==> spend_of(facts, project_id).bits == 0,
    decreases facts.len(),
{
    if facts.len() > 0 && facts[0].project_id@ != project_id {
        let t = facts.subrange(1, facts.len() as int);
        law_spend_is_the_projects_own(t, project_id, k - 1);
        assert forall|i: int| 0 <= i < t.len() implies #[trigger] t[i] == facts[i + 1] by {}
    }
}

/// A report has each figure under its own name.
pub proof fn law_reports_say_what_was_found(
    project_id: String,
    a: Json,
    b: Json,
    total: Option<Json>,
    pct: Option<Json>,
    c: ForecastFigures,
    dim: RollupDim,
)
    ensures
        ({
            let r = report_of(Finding::ProjectSpend { project_id, mtd: a });
            r.contains_pair("project_id"@, JsonView::Str(project_id@)) && r.contains_pair(
                "mtd_usd"@,
                a@,
            )
        }),
        ({
            let r = report_of(Finding::OrgSpend { dim, rows: a });
            r.contains_pair("by"@, JsonView::Str(dim_name(dim))) && r.contains_pair("rows"@, a@)
        }),
        ({
            let r = report_of(Finding::TopMovers { by_project: a, by_group: b });
            r.contains_pair("by_project"@, a@) && r.contains_pair("by_group"@, b@)
        }),
        ({
            let r = report_of(Finding::Forecast { project_id, forecast: Some(c) });
            &&& r.contains_pair("project_id"@, JsonView::Str(project_id@))
            &&& r.contains_pair("as_of_day"@, JsonView::Str(c.as_of_day@))
            &&& r.contains_pair("method"@, JsonView::Str(c.method@))
            &&& r.contains_pair("eom_usd"@, c.eom@)
            &&& r.contains_pair("low_usd"@, c.low@)
            &&& r.contains_pair("high_usd"@, c.high@)
            &&& r.contains_pair("n_days"@, JsonView::Number(decimal_int(c.n_days as int)))
            &&& c.r2 matches Some(v) ==> r.contains_pair("r2"@, v@)
            &&& c.r2 is None ==> r.contains_pair("r2"@, JsonView::Null)
        }),
        ({
            let r = report_of(Finding::Forecast { project_id, forecast: None });
            r.contains_pair("project_id"@, JsonView::Str(project_id@)) && r.contains_pair(
                "forecast"@,
                JsonView::Str("insufficient history"@),
            )
        }),
        ({
            let r = report_of(Finding::Untagged { tagged: a, account_total: total, pct });
            &&& r.contains_pair("tagged_usd"@, a@)
            &&& total matches Some(t) ==> r.contains_pair("account_total_usd"@, t@)
            &&& total is None ==> r.contains_pair("account_total_usd"@, JsonView::Null)
            &&& total is Some && pct is Some ==> r.contains_pair("tagged_pct"@, pct->0@)
        }),
        report_of(Finding::Anomalies { rows: a }).contains_pair("anomalies"@, a@),
        report_of(Finding::BudgetStatus { rows: a }).contains_pair("projects"@, a@),
{
    reveal_strlit("project_id");
    reveal_strlit("as_of_day");
    reveal_strlit("method");
    reveal_strlit("eom_usd");
    reveal_strlit("low_usd");
    reveal_strlit("high_usd");
    reveal_strlit("r2");
    reveal_strlit("n_days");
    reveal_strlit("forecast");
    reveal_strlit("mtd_usd");
    reveal_strlit("by");
    reveal_strlit("rows");
    reveal_strlit("by_project");
    reveal_strlit("by_group");
    reveal_strlit("tagged_usd");
    reveal_strlit("account_total_usd");
    reveal_strlit("tagged_pct");
    reveal_strlit("anomalies");
    reveal_strlit("projects");
    assert("project_id"@.len() == 10);
    assert("as_of_day"@.len() == 9);
    assert("method"@.len() == 6);
    assert("eom_usd"@.len() == 7);
    assert("low_usd"@.len() == 7);
    assert("high_usd"@.len() == 8);
    assert("r2"@.len() == 2);
    assert("n_days"@.len() == 6);
    assert("forecast"@.len() == 8);
    assert("mtd_usd"@.len() == 7);
    assert("by"@.len() == 2);
    assert("rows"@.len() == 4);
    assert("by_project"@.len() == 10);
    assert("by_group"@.len() == 8);
    assert("tagged_usd"@.len() == 10);
    assert("account_total_usd"@.len() == 17);
    assert("tagged_pct"@.len() == 10);
    assert("anomalies"@.len() == 9);
    assert("projects"@.len() == 8);
    assert("project_id"@[0] != "by_project"@[0]);
    assert("project_id"@[0] != "tagged_usd"@[0]);
    assert("project_id"@[0] != "tagged_pct"@[0]);
    assert("as_of_day"@[1] != "anomalies"@[1]);
    assert("method"@[0] != "n_days"@[0]);
    assert("eom_usd"@[0] != "low_usd"@[0]);
    assert("eom_usd"@[0] != "mtd_usd"@[0]);
    assert("low_usd"@[0] != "mtd_usd"@[0]);
    assert("high_usd"@[0] != "forecast"@[0]);
    assert("high_usd"@[0] != "by_group"@[0]);
    assert("high_usd"@[0] != "projects"@[0]);
    assert("r2"@[0] != "by"@[0]);
    assert("forecast"@[0] != "by_group"@[0]);
    assert("forecast"@[0] != "projects"@[0]);
    assert("by_project"@[0] != "tagged_usd"@[0]);
    assert("by_project"@[0] != "tagged_pct"@[0]);
    assert("by_group"@[0] != "projects"@[0]);
    assert("tagged_usd"@[7] != "tagged_pct"@[7]);
}

/// A project is projected over its budget exactly when it has one above zero and its
/// latest forecast is above the threshold; without a forecast it never is. What is
/// counted are those projects.
pub proof fn law_who_is_over_budget(
    project_id: Seq<char>,
    facts: Seq<ProjectFact>,
    limits: Map<Seq<char>, BudgetLimit>,
    forecasts: Seq<ForecastRow>,
)
    ensures
        over_budget(project_id, limits, forecasts) <==> {
            &&& limits.contains_key(project_id)
            &&& limits[project_id].budget.positive()
            &&& newest_forecast(forecasts, project_id) is Some
            &&& limits[project_id].threshold.less(
                forecasts[newest_forecast(forecasts, project_id)->0].eom_usd,
            )
        },
        count_over(facts, limits, forecasts) == facts.filter(
            |f: ProjectFact| over_budget(f.project_id@, limits, forecasts),
        ).len(),
    decreases facts.len(),
{
    reveal(Seq::filter);
    if facts.len() > 0 {
        law_who_is_over_budget(project_id, facts.drop_last(), limits, forecasts);
    }
}

/// A briefing names the group with the most spend and what moved most, where there are
/// such; says that no anomaly is open or how many are; and counts the projects over
/// their budgets, unless there is none.
pub proof fn law_what_a_briefing_says(
    key: String,
    amount: String,
    pct: String,
    n: int,
)
    requires
        n > 0,
    ensures
        group_sentence(Some((key, amount))) == " Highest group is "@ + key@ + " at "@ + amount@
            + "."@,
        group_sentence(None).len() == 0,
        mover_sentence(Some((key, pct, amount))) == " Biggest mover vs last month: "@ + key@ + " ("@
            + pct@ + "%, "@ + amount@ + ")."@,
        mover_sentence(None).len() == 0,
        anomaly_sentence(0) == " No cost anomalies are open."@,
        anomaly_sentence(n) == " "@ + decimal(n as nat) + " cost anomaly(ies) are open."@,
        budget_sentence(0).len() == 0,
        budget_sentence(n) == " "@ + decimal(n as nat) + " project(s) projected over budget."@,
{
}

} // verus!
