//! AWS Cost Explorer: spend filtered by the project's tag, or the whole account's.
use vstd::prelude::*;

use crate::calendar::CostWindow;
use crate::json::{
    items_view, json_read, json_view, json_text, lemma_items_view, strings_view, Json, JsonView,
};
use crate::provision::cost::{service_cost, unavailable, CostView, ServiceCost};
use crate::provision::{ProvisionError, ProvisionFault};
use crate::text::{
    blank, contains, contents, is_blank, occurs, pieces, shown, split, text_lossy, texts, trim,
    trimmed,
};
use crate::usd::Usd;

verus! {

/// The source as the operator has set it up.
#[derive(Debug)]
pub struct AwsCostExplorerSource {
    pub profile: Option<String>,
    /// Costs are really asked for.
    pub execute: bool,
    /// The whole account counts, not one project.
    pub whole_account: bool,
    pub name: String,
}

/// The filter for a project's tag.
pub open spec fn tag_filter(project_id: Seq<char>) -> JsonView {
    JsonView::Object(
        Map::empty().insert(
            "Tags"@,
            JsonView::Object(
                Map::empty().insert("Key"@, JsonView::Str("project"@)).insert(
                    "Values"@,
                    JsonView::Array(strings_view(seq![project_id])),
                ),
            ),
        ),
    )
}

/// What the command line tool is asked.
pub open spec fn ce_args(
    s: AwsCostExplorerSource,
    project_id: Seq<char>,
    start: Seq<char>,
    end: Seq<char>,
) -> Seq<Seq<char>> {
    let base = seq![
        "ce"@,
        "get-cost-and-usage"@,
        "--time-period"@,
        "Start="@ + start + ",End="@ + end,
        "--granularity"@,
        "MONTHLY"@,
        "--metrics"@,
        "UnblendedCost"@,
        "--region"@,
        "us-east-1"@,
    ];
    let filtered = if s.whole_account {
        base
    } else {
        base + seq!["--filter"@, json_text(tag_filter(project_id))]
    };
    match s.profile {
        Some(p) => filtered + seq!["--profile"@, p@],
        None => filtered,
    }
}

/// The line that tells best what went wrong: the last one that speaks of an error,
/// else all of it.
pub open spec fn telling_line(lines: Seq<Seq<char>>, all: Seq<char>) -> Seq<char>
    decreases lines.len(),
{
    if lines.len() == 0 {
        trimmed(all)
    } else if occurs(lines.last(), "error"@) {
        trimmed(lines.last())
    } else {
        telling_line(lines.drop_last(), all)
    }
}

/// What the tool's end means. No output, or output that is no JSON, counts as
/// null.
pub open spec fn ce_reply(ok: bool, stdout: Seq<u8>, stderr: Seq<u8>) -> Result<
    JsonView,
    ProvisionFault,
> {
    if !ok {
        Err(
            ProvisionFault::Backend(
                "aws ce failed: "@ + telling_line(pieces(shown(stderr), '\n'), shown(stderr)),
            ),
        )
    } else if blank(shown(stdout)) {
        Ok(JsonView::Null)
    } else {
        match json_read(shown(stdout)) {
            Ok(j) => Ok(j),
            Err(_) => Ok(JsonView::Null),
        }
    }
}

fn tell(stderr: &str) -> (r: String)
    ensures
        r@ == telling_line(pieces(stderr@, '\n'), stderr@),
{
    let lines = split(stderr, '\n');
    let ghost all = texts(lines@);
    let mut n: usize = lines.len();
    assert(all.take(n as int) =~= all);
    while n > 0
        invariant
            n <= lines@.len(),
            all == texts(lines@),
            all == pieces(stderr@, '\n'),
            telling_line(all.take(n as int), stderr@) == telling_line(all, stderr@),
        decreases n,
    {
        proof {
            assert(all.take(n as int).drop_last() =~= all.take(n - 1));
            assert(all.take(n as int).last() == lines@[n - 1]@);
        }
        if contains(lines[n - 1].as_str(), "error") {
            return trim(lines[n - 1].as_str());
        }
        n = n - 1;
    }
    assert(all.take(0).len() == 0);
    trim(stderr)
}

/// What the tool's end means.
pub fn read_reply(ok: bool, stdout: &Vec<u8>, stderr: &Vec<u8>) -> (r: Result<
    Json,
    ProvisionError,
>)
    ensures
        match r {
            Ok(j) => ce_reply(ok, stdout@, stderr@) == Ok::<_, ProvisionFault>(j@),
            Err(e) => ce_reply(ok, stdout@, stderr@) == Err::<JsonView, _>(e@),
        },
{
    if !ok {
        let said = text_lossy(stderr);
        let why = tell(said.as_str());
        let mut m = "aws ce failed: ".to_owned();
        m.append(why.as_str());
        return Err(ProvisionError::Backend(m));
    }
    let said = text_lossy(stdout);
    if is_blank(said.as_str()) {
        return Ok(Json::Null);
    }
    match Json::parse(said.as_str()) {
        Ok(j) => Ok(j),
        Err(_) => Ok(Json::Null),
    }
}

/// The amount of one billing period, as it is written.
pub open spec fn period_amount(p: JsonView) -> Option<Seq<char>> {
    match p.at("Total"@) {
        Some(t) => match t.at("UnblendedCost"@) {
            Some(u) => u.text_at("Amount"@),
            None => None,
        },
        None => None,
    }
}

/// The amounts of some billing periods, without those that have none.
pub open spec fn amounts_among(periods: Seq<JsonView>) -> Seq<Seq<char>>
    decreases periods.len(),
{
    if periods.len() == 0 {
        Seq::empty()
    } else {
        let rest = amounts_among(periods.drop_last());
        match period_amount(periods.last()) {
            Some(a) => rest.push(a),
            None => rest,
        }
    }
}

/// The amounts in a reply, as they are written; their sum is the cost.
pub open spec fn amounts_in(reply: JsonView) -> Seq<Seq<char>> {
    match reply.at("ResultsByTime"@) {
        Some(JsonView::Array(p)) => amounts_among(p),
        _ => Seq::empty(),
    }
}

fn amount_of(p: &Json) -> (r: Option<String>)
    ensures
        contents(r) == period_amount(p@),
{
    match p.get("Total") {
        Some(t) => match t.get("UnblendedCost") {
            Some(u) => match u.get_str("Amount") {
                Some(a) => Some(a.to_owned()),
                None => None,
            },
            None => None,
        },
        None => None,
    }
}

/// The amounts in a reply, as they are written.
pub fn amounts(reply: &Json) -> (r: Vec<String>)
    ensures
        texts(r@) == amounts_in(reply@),
{
    let mut out: Vec<String> = Vec::new();
    match reply.get("ResultsByTime") {
        Some(Json::Array(items)) => {
            let ghost all = items_view(items@);
            proof {
                lemma_items_view(items@);
                assert(all.take(0) =~= Seq::empty());
                assert(texts(out@) =~= Seq::empty());
            }
            let mut i: usize = 0;
            while i < items.len()
                invariant
                    i <= items@.len(),
                    all == items_view(items@),
                    all.len() == items@.len(),
                    forall|k: int|
                        0 <= k < items@.len() ==> #[trigger] all[k] == json_view(items@[k]),
                    texts(out@) == amounts_among(all.take(i as int)),
                decreases items.len() - i,
            {
                let ghost prev = texts(out@);
                proof {
                    assert(all.take(i + 1).drop_last() =~= all.take(i as int));
                    assert(all.take(i + 1).last() == all[i as int]);
                }
                match amount_of(&items[i]) {
                    Some(a) => {
                        let ghost seen = a@;
                        out.push(a);
                        assert(texts(out@) =~= prev.push(seen));
                    },
                    None => {},
                }
                i = i + 1;
            }
            assert(all.take(items@.len() as int) =~= all);
        },
        _ => {
            assert(texts(out@) =~= Seq::empty());
        },
    }
    out
}

fn push_text(v: &mut Vec<String>, s: &str)
    ensures
        texts(final(v)@) == texts(old(v)@).push(s@),
{
    let ghost prev = texts(v@);
    v.push(s.to_owned());
    assert(texts(v@) =~= prev.push(s@));
}

impl AwsCostExplorerSource {
    /// The source of one project's spend.
    pub fn new(profile: Option<String>, execute: bool) -> (r: AwsCostExplorerSource)
        ensures
            r.profile == profile,
            r.execute == execute,
            !r.whole_account,
            r.name@ == "aws-cost-explorer"@,
    {
        AwsCostExplorerSource {
            profile,
            execute,
            whole_account: false,
            name: "aws-cost-explorer".to_owned(),
        }
    }

    /// The source of the whole account's spend.
    pub fn account_total(profile: Option<String>, execute: bool) -> (r: AwsCostExplorerSource)
        ensures
            r.profile == profile,
            r.execute == execute,
            r.whole_account,
            r.name@ == "account-total"@,
    {
        AwsCostExplorerSource {
            profile,
            execute,
            whole_account: true,
            name: "account-total".to_owned(),
        }
    }

    /// Its name.
    pub fn name(&self) -> (r: &str)
        ensures
            r@ == self.name@,
    {
        self.name.as_str()
    }

    /// What the command line tool is asked; nothing where costs are not really
    /// asked for.
    pub fn query(&self, project_id: &str, window: &CostWindow) -> (r: Option<Vec<String>>)
        ensures
            match r {
                Some(a) => self.execute && texts(a@) == ce_args(
                    *self,
                    project_id@,
                    window.start@,
                    window.end@,
                ),
                None => !self.execute,
            },
    {
        if !self.execute {
            return None;
        }
        let mut period = "Start=".to_owned();
        period.append(window.start.as_str());
        period.append(",End=");
        period.append(window.end.as_str());
        let mut args: Vec<String> = Vec::new();
        assert(texts(args@) =~= Seq::empty());
        push_text(&mut args, "ce");
        push_text(&mut args, "get-cost-and-usage");
        push_text(&mut args, "--time-period");
        push_text(&mut args, period.as_str());
        push_text(&mut args, "--granularity");
        push_text(&mut args, "MONTHLY");
        push_text(&mut args, "--metrics");
        push_text(&mut args, "UnblendedCost");
        push_text(&mut args, "--region");
        push_text(&mut args, "us-east-1");
        let ghost base = texts(args@);
        if !self.whole_account {
            let mut values: Vec<String> = Vec::new();
            values.push(project_id.to_owned());
            assert(texts(values@) =~= seq![project_id@]);
            let mut tags = Json::object();
            tags.insert_str("Key", "project");
            tags.insert("Values", Json::strings(&values));
            let mut filter = Json::object();
            filter.insert("Tags", tags);
            let text = filter.text();
            push_text(&mut args, "--filter");
            push_text(&mut args, text.as_str());
            assert(texts(args@) =~= base + seq!["--filter"@, text@]);
        }
        let ghost filtered = texts(args@);
        match &self.profile {
            Some(p) => {
                push_text(&mut args, "--profile");
                push_text(&mut args, p.as_str());
                assert(texts(args@) =~= filtered + seq!["--profile"@, p@]);
            },
            None => {},
        }
        proof {
            assert(base =~= seq![
                "ce"@,
                "get-cost-and-usage"@,
                "--time-period"@,
                "Start="@ + window.start@ + ",End="@ + window.end@,
                "--granularity"@,
                "MONTHLY"@,
                "--metrics"@,
                "UnblendedCost"@,
                "--region"@,
                "us-east-1"@,
            ]);
        }
        Some(args)
    }

    /// What is reported where costs are not really asked for.
    pub fn dry_run_cost(&self) -> (r: ServiceCost)
        ensures
            r@ == (CostView { backend: "aws"@, actual_usd: None, source: "dry-run"@ }),
    {
        service_cost("aws", None, "dry-run")
    }

    /// What is reported of a measured total.
    pub fn measured(&self, total: Usd) -> (r: ServiceCost)
        ensures
            r@ == (CostView {
                backend: "aws"@,
                actual_usd: Some(total),
                source: "aws-cost-explorer"@,
            }),
    {
        service_cost("aws", Some(total), "aws-cost-explorer")
    }

    /// What is reported where the tool failed: the failure, and no figure. Any other
    /// error is passed on.
    pub fn failed(&self, e: ProvisionError) -> (r: Result<ServiceCost, ProvisionError>)
        ensures
            match e@ {
                ProvisionFault::Backend(m) => r matches Ok(c) && c@ == (CostView {
                    backend: "aws"@,
                    actual_usd: None,
                    source: "aws-cost-explorer unavailable: "@ + m,
                }),
                f => r matches Err(x) && x@ == f,
            },
    {
        match e {
            ProvisionError::Backend(m) => {
                proof {
                    reveal_strlit("aws-cost-explorer");
                    reveal_strlit(" unavailable: ");
                    reveal_strlit("aws-cost-explorer unavailable: ");
                    assert("aws-cost-explorer"@ + " unavailable: "@
                        =~= "aws-cost-explorer unavailable: "@);
                }
                Ok(unavailable("aws", "aws-cost-explorer", m.as_str()))
            },
            other => Err(other),
        }
    }
}

/// A query is for the days of the window, by month, and for the rows tagged with the
/// project unless the whole account counts; under the operator's profile where there is
/// one.
pub proof fn law_query_is_for_the_projects_tag(
    s: AwsCostExplorerSource,
    project_id: Seq<char>,
    start: Seq<char>,
    end: Seq<char>,
)
    ensures
        ({
            let a = ce_args(s, project_id, start, end);
            &&& a.len() >= 10
            &&& a[2] == "--time-period"@ && a[3] == "Start="@ + start + ",End="@ + end
            &&& a[6] == "--metrics"@ && a[7] == "UnblendedCost"@
            &&& !s.whole_account ==> a.len() >= 12 && a[10] == "--filter"@ && a[11] == json_text(
                tag_filter(project_id),
            )
            &&& s.profile matches Some(p) ==> a.last() == p@ && a[a.len() - 2] == "--profile"@
            &&& s.whole_account && s.profile is None ==> a.len() == 10
            &&& !s.whole_account && s.profile is None ==> a.len() == 12
        }),
        tag_filter(project_id).at("Tags"@) is Some,
        tag_filter(project_id).at("Tags"@)->0.text_at("Key"@) == Some("project"@),
        tag_filter(project_id).at("Tags"@)->0.at("Values"@) == Some(
            JsonView::Array(strings_view(seq![project_id])),
        ),
{
    reveal_strlit("Key");
    reveal_strlit("Values");
    assert("Key"@.len() == 3);
    assert("Values"@.len() == 6);
}

/// The cost is the sum of the unblended amounts of the billing periods in the reply, one
/// for each period that has one, in order.
pub proof fn law_which_amounts_are_summed(reply: JsonView, periods: Seq<JsonView>)
    ensures
        reply.at("ResultsByTime"@) == Some(JsonView::Array(periods)) ==> amounts_in(reply)
            == periods.filter(|p: JsonView| billed(p) is Some).map_values(
            |p: JsonView| billed(p)->0,
        ),
        reply.at("ResultsByTime"@) is None ==> amounts_in(reply).len() == 0,
{
    lemma_amounts_among(periods);
}

/// The text at `Total`, `UnblendedCost`, `Amount` of a billing period.
pub open spec fn billed(p: JsonView) -> Option<Seq<char>> {
    if p.at("Total"@) is Some && p.at("Total"@)->0.at("UnblendedCost"@) is Some {
        p.at("Total"@)->0.at("UnblendedCost"@)->0.text_at("Amount"@)
    } else {
        None
    }
}

proof fn lemma_amounts_among(periods: Seq<JsonView>)
    ensures
        amounts_among(periods) == periods.filter(|p: JsonView| billed(p) is Some).map_values(
            |p: JsonView| billed(p)->0,
        ),
    decreases periods.len(),
{
    reveal(Seq::filter);
    let f = |p: JsonView| billed(p) is Some;
    let g = |p: JsonView| billed(p)->0;
    if periods.len() > 0 {
        let t = periods.drop_last();
        lemma_amounts_among(t);
        let last = periods.last();
        assert(t.filter(f).push(last).map_values(g) =~= t.filter(f).map_values(g).push(g(last)));
    }
    assert(amounts_among(periods) =~= periods.filter(f).map_values(g));
}

/// What is told of a failure is the last line that speaks of an error, or all of it where
/// none does.
pub proof fn law_last_error_is_told(lines: Seq<Seq<char>>, all: Seq<char>, k: int)
    ensures
        0 <= k < lines.len() && occurs(lines[k], "error"@) && (forall|i: int|
            k < i < lines.len() ==> !occurs(#[trigger] lines[i], "error"@)) ==> telling_line(
            lines,
            all,
        ) == trimmed(lines[k]),
        (forall|i: int| 0 <= i < lines.len() ==> !occurs(#[trigger] lines[i], "error"@))
            ==> telling_line(lines, all) == trimmed(all),
    decreases lines.len(),
{
    if lines.len() > 0 {
        let t = lines.drop_last();
        law_last_error_is_told(t, all, k);
        assert forall|i: int| 0 <= i < t.len() implies #[trigger] t[i] == lines[i] by {}
        assert(lines[lines.len() - 1] == lines.last());
    }
}

/// A tool that fails has no reply; any other has the JSON that it prints, and null where
/// it prints nothing or no JSON.
pub proof fn law_what_the_tool_replies(ok: bool, stdout: Seq<u8>, stderr: Seq<u8>)
    ensures
        ce_reply(ok, stdout, stderr) is Ok <==> ok,
        ok && !blank(shown(stdout)) && json_read(shown(stdout)) is Ok ==> ce_reply(
            ok,
            stdout,
            stderr,
        ) == Ok::<_, ProvisionFault>(json_read(shown(stdout))->Ok_0),
        ok && (blank(shown(stdout)) || json_read(shown(stdout)) is Err) ==> ce_reply(
            ok,
            stdout,
            stderr,
        ) == Ok::<_, ProvisionFault>(JsonView::Null),
{
}

} // verus!
