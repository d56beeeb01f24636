//! What a project's infrastructure costs, and what the daily rollup records of it.
use vstd::prelude::*;

use super::rollup::{add_amount, lists, RollupRow};
use super::ServiceCost;
use crate::calendar::{
    day_before, day_of, day_of_month, day_written, days_in_month, first_of_month, max_day,
    minus_days, month_days, month_start_str, month_to_date_window, CostWindow,
};
use crate::ordering::lemma_one_more_place;
use crate::provision::manifest::{ServiceCatalog, ServiceManifest};
use crate::provision::repo::{
    counted_estimates, law_estimates_that_count, linked_source, linked_source_of,
    ProvisionedRecord, ResourceRow,
};
use crate::registry::Registration;
use crate::sorted_map::{increasing, SortedMap};
use crate::text::{contents, join, joined, later, text_eq, texts};
use crate::usd::Usd;

verus! {

/// A live resource and its estimate.
#[derive(Debug)]
pub struct InfraResourceCost {
    pub rtype: String,
    pub name: String,
    pub backend: String,
    pub est_monthly_usd: Usd,
    pub state: String,
}

/// Whether a resource costs something: it is provisioned, or linked from outside.
pub open spec fn live(r: ProvisionedRecord) -> bool {
    r.state@ == "provisioned"@ || r.state@ == "linked"@
}

fn is_live(r: &ProvisionedRecord) -> (b: bool)
    ensures
        b == live(*r),
{
    text_eq(r.state.as_str(), "provisioned") || text_eq(r.state.as_str(), "linked")
}

/// The places of the live resources.
pub open spec fn live_places(records: Seq<ProvisionedRecord>) -> Seq<int>
    decreases records.len(),
{
    if records.len() == 0 {
        Seq::empty()
    } else if live(records.last()) {
        live_places(records.drop_last()).push(records.len() - 1)
    } else {
        live_places(records.drop_last())
    }
}

/// Whether an entry is of a record.
pub open spec fn entry_of(e: InfraResourceCost, r: ProvisionedRecord) -> bool {
    e.rtype@ == r.rtype@ && e.name@ == r.name@ && e.backend@ == r.backend@ && e.est_monthly_usd
        == r.est_monthly_usd && e.state@ == r.state@
}

/// The live resources of a project with their estimates.
pub fn infra_resources(records: &Vec<ProvisionedRecord>) -> (r: Vec<InfraResourceCost>)
    ensures
        r@.len() == live_places(records@).len(),
        forall|i: int|
            0 <= i < r@.len() ==> entry_of(#[trigger] r@[i], records@[live_places(records@)[i]]),
{
    let mut out: Vec<InfraResourceCost> = Vec::new();
    let mut i: usize = 0;
    assert(records@.take(0) =~= Seq::empty());
    while i < records.len()
        invariant
            i <= records@.len(),
            out@.len() == live_places(records@.take(i as int)).len(),
            forall|k: int|
                0 <= k < out@.len() ==> entry_of(
                    #[trigger] out@[k],
                    records@[live_places(records@.take(i as int))[k]],
                ),
        decreases records.len() - i,
    {
        assert(records@.take(i + 1).drop_last() =~= records@.take(i as int));
        let ghost was = out@;
        let ghost seen = live_places(records@.take(i as int));
        let ghost now = live_places(records@.take(i + 1));
        let r = &records[i];
        if is_live(r) {
            let e = InfraResourceCost {
                rtype: r.rtype.clone(),
                name: r.name.clone(),
                backend: r.backend.clone(),
                est_monthly_usd: r.est_monthly_usd,
                state: r.state.clone(),
            };
            out.push(e);
        }
        proof {
            assert forall|k: int| 0 <= k < out@.len() implies entry_of(
                #[trigger] out@[k],
                records@[now[k]],
            ) by {
                if k < was.len() {
                    assert(out@[k] == was[k] && now[k] == seen[k]);
                }
            }
        }
        i = i + 1;
    }
    assert(records@.take(records@.len() as int) =~= records@);
    out
}

// ---------------------------------------------------------------------------
// Sources
// ---------------------------------------------------------------------------

/// The cost source of a resource: what a linked record names, else what its
/// manifest declares.
pub open spec fn source_of(
    r: ProvisionedRecord,
    catalog: Map<Seq<char>, ServiceManifest>,
) -> Option<Seq<char>> {
    match linked_source_of(r) {
        Some(s) => Some(s),
        None => if catalog.contains_key(r.rtype@) {
            Some(catalog[r.rtype@].cost.source.source_type@)
        } else {
            None
        },
    }
}

fn source_for(r: &ProvisionedRecord, catalog: &ServiceCatalog) -> (s: Option<String>)
    ensures
        contents(s) == source_of(*r, catalog@),
{
    match linked_source(r) {
        Some(s) => Some(s),
        None => match catalog.get(r.rtype.as_str()) {
            Some(m) => Some(m.cost.source.source_type.clone()),
            None => None,
        },
    }
}

/// Whether a live resource has a source.
pub open spec fn has_source(
    records: Seq<ProvisionedRecord>,
    catalog: Map<Seq<char>, ServiceManifest>,
    source: Seq<char>,
) -> bool {
    exists|i: int|
        0 <= i < records.len() && live(#[trigger] records[i]) && source_of(records[i], catalog)
            == Some(source)
}

/// The cost sources of a project's live resources, each once and in order: each is
/// asked once.
pub fn project_sources(records: &Vec<ProvisionedRecord>, catalog: &ServiceCatalog) -> (r: Vec<
    String,
>)
    ensures
        increasing(texts(r@)),
        forall|k: Seq<char>| #[trigger]
            texts(r@).contains(k) <==> has_source(records@, catalog@, k),
{
    let mut found: SortedMap<bool> = SortedMap::new();
    let mut i: usize = 0;
    while i < records.len()
        invariant
            i <= records@.len(),
            forall|k: Seq<char>| #[trigger]
                found@.contains_key(k) <==> has_source(records@.take(i as int), catalog@, k),
        decreases records.len() - i,
    {
        let ghost before = records@.take(i as int);
        let ghost now = records@.take(i + 1);
        let ghost was = found@;
        let r = &records[i];
        if is_live(r) {
            match source_for(r, catalog) {
                Some(s) => {
                    found.insert(s.as_str(), true);
                },
                None => {},
            }
        }
        proof {
            assert forall|k: Seq<char>| #[trigger]
                found@.contains_key(k) <==> has_source(now, catalog@, k) by {
                if has_source(before, catalog@, k) {
                    let j = choose|j: int|
                        0 <= j < before.len() && live(#[trigger] before[j]) && source_of(
                            before[j],
                            catalog@,
                        ) == Some(k);
                    assert(now[j] == before[j]);
                    assert(was.contains_key(k));
                }
                if has_source(now, catalog@, k) {
                    let j = choose|j: int|
                        0 <= j < now.len() && live(#[trigger] now[j]) && source_of(
                            now[j],
                            catalog@,
                        ) == Some(k);
                    if j < i {
                        assert(before[j] == now[j]);
                        assert(was.contains_key(k));
                    } else {
                        assert(now[j] == records@[i as int]);
                    }
                }
                if found@.contains_key(k) && !was.contains_key(k) {
                    assert(now[i as int] == records@[i as int]);
                }
            }
        }
        i = i + 1;
    }
    assert(records@.take(records@.len() as int) =~= records@);
    let names = found.keys();
    proof {
        assert forall|k: Seq<char>| #[trigger]
            texts(names@).contains(k) <==> has_source(records@, catalog@, k) by {
            assert(found@.contains_key(k) <==> found.names().contains(k));
        }
    }
    names
}

/// What a project's sources measured together.
#[derive(Debug)]
pub struct InfraActual {
    pub backend: String,
    /// The figures that were measured, to be summed; nothing was measured where
    /// there is none.
    pub amounts: Vec<Usd>,
    pub source: String,
}

/// How an answer is told: by its own account, or as not configured.
pub open spec fn label_of(source: Seq<char>, answer: Option<ServiceCost>) -> Seq<char> {
    match answer {
        Some(c) => c.source@,
        None => source + " (unconfigured)"@,
    }
}

/// How the answers are told.
pub open spec fn labels_of(sources: Seq<Seq<char>>, answers: Seq<Option<ServiceCost>>) -> Seq<
    Seq<char>,
> {
    Seq::new(sources.len(), |i: int| label_of(sources[i], answers[i]))
}

/// The figures that were measured, in order.
pub open spec fn measured_of(answers: Seq<Option<ServiceCost>>) -> Seq<Usd>
    decreases answers.len(),
{
    if answers.len() == 0 {
        Seq::empty()
    } else {
        let rest = measured_of(answers.drop_last());
        match answers.last() {
            Some(c) => match c.actual_usd {
                Some(a) => rest.push(a),
                None => rest,
            },
            None => rest,
        }
    }
}

/// The sources' answers as one. There is no answer from a source that is not
/// configured in this deployment.
pub fn combine_costs(sources: &Vec<String>, answers: &Vec<Option<ServiceCost>>) -> (r: InfraActual)
    requires
        sources@.len() == answers@.len(),
    ensures
        r.amounts@ == measured_of(answers@),
        r.source@ == if sources@.len() == 0 {
            "none"@
        } else {
            joined(labels_of(texts(sources@), answers@), ", "@)
        },
        sources@.len() != 1 ==> r.backend@ == "multi"@,
        sources@.len() == 1 ==> r.backend@ == match answers@[0] {
            Some(c) => c.backend@,
            None => Seq::<char>::empty(),
        },
{
    let ghost names = texts(sources@);
    let mut labels: Vec<String> = Vec::new();
    let mut amounts: Vec<Usd> = Vec::new();
    let mut i: usize = 0;
    assert(answers@.take(0) =~= Seq::empty());
    while i < sources.len()
        invariant
            i <= sources@.len(),
            sources@.len() == answers@.len(),
            names == texts(sources@),
            labels@.len() == i,
            forall|k: int|
                0 <= k < i ==> (#[trigger] labels@[k])@ == label_of(names[k], answers@[k]),
            amounts@ == measured_of(answers@.take(i as int)),
        decreases sources.len() - i,
    {
        assert(answers@.take(i + 1).drop_last() =~= answers@.take(i as int));
        match &answers[i] {
            Some(c) => {
                match c.actual_usd {
                    Some(a) => amounts.push(a),
                    None => {},
                }
                labels.push(c.source.clone());
            },
            None => {
                let mut s = sources[i].clone();
                s.append(" (unconfigured)");
                labels.push(s);
            },
        }
        i = i + 1;
    }
    assert(answers@.take(answers@.len() as int) =~= answers@);
    assert(texts(labels@) =~= labels_of(names, answers@));
    let backend = if sources.len() == 1 {
        match &answers[0] {
            Some(c) => c.backend.clone(),
            None => String::new(),
        }
    } else {
        "multi".to_owned()
    };
    let source = if sources.len() == 0 {
        "none".to_owned()
    } else {
        join(&labels, ", ")
    };
    InfraActual { backend, amounts, source }
}

// ---------------------------------------------------------------------------
// The daily rollup
// ---------------------------------------------------------------------------

/// What a run of the rollup did.
#[derive(Debug)]
pub struct RollupSummary {
    pub day: String,
    pub projects: usize,
    pub rows: usize,
    pub forecasts: usize,
    pub anomalies: usize,
}

impl RollupSummary {
    /// The summary of a run that has done nothing yet.
    pub fn new(day: &str) -> (r: RollupSummary)
        ensures
            r.day@ == day@,
            r.projects == 0,
            r.rows == 0,
            r.forecasts == 0,
            r.anomalies == 0,
    {
        RollupSummary { day: day.to_owned(), projects: 0, rows: 0, forecasts: 0, anomalies: 0 }
    }

    /// Counts a project in.
    pub fn add_project(&mut self, rows: usize, anomalies: usize, forecast: bool)
        requires
            old(self).projects < usize::MAX,
            old(self).forecasts < usize::MAX,
            old(self).rows + rows <= usize::MAX,
            old(self).anomalies + anomalies <= usize::MAX,
        ensures
            final(self).day == old(self).day,
            final(self).projects == old(self).projects + 1,
            final(self).rows == old(self).rows + rows,
            final(self).anomalies == old(self).anomalies + anomalies,
            final(self).forecasts == old(self).forecasts + if forecast {
                1int
            } else {
                0
            },
    {
        self.projects = self.projects + 1;
        self.rows = self.rows + rows;
        self.anomalies = self.anomalies + anomalies;
        if forecast {
            self.forecasts = self.forecasts + 1;
        }
    }
}

/// What a run of the rollup for a day goes by.
#[derive(Debug)]
pub struct RollupPlan {
    /// What the sources are asked for.
    pub window: CostWindow,
    pub month_start: String,
    /// The first day of the history that is looked at.
    pub from_day: String,
    pub day_index: u32,
    pub days_in_month: u32,
}

/// The plan for a day; none where it leaves the calendar.
pub fn rollup_plan(day: &str, window_days: i64) -> (r: Option<RollupPlan>)
    ensures
        match (r, day_before(day_of(day@), -1), day_before(day_of(day@), window_days as int)) {
            (Some(p), Some(end), Some(back)) => {
                let start = day_written(first_of_month(day_of(day@)));
                &&& p.window.start@ == start
                &&& p.window.end@ == day_written(end)
                &&& p.month_start@ == start
                &&& p.from_day@ == later(start, day_written(back))
                &&& p.day_index == day_of(day@).day
                &&& p.days_in_month == month_days(
                    day_of(day@).year as int,
                    day_of(day@).month as int,
                )
            },
            (Some(_), _, _) => false,
            (None, Some(_), Some(_)) => false,
            (None, _, _) => true,
        },
{
    let window = match month_to_date_window(day) {
        Some(w) => w,
        None => {
            return None;
        },
    };
    let month_start = month_start_str(day);
    match minus_days(day, window_days) {
        Some(back) => {
            let from_day = max_day(month_start.as_str(), back.as_str());
            Some(
                RollupPlan {
                    window,
                    month_start,
                    from_day,
                    day_index: day_of_month(day),
                    days_in_month: days_in_month(day),
                },
            )
        },
        None => None,
    }
}

/// The estimate that counts for a resource: a linked record's own, else its
/// manifest's.
pub open spec fn estimate_of(
    r: ProvisionedRecord,
    catalog: Map<Seq<char>, ServiceManifest>,
) -> Usd {
    if linked_source_of(r) is Some {
        r.est_monthly_usd
    } else {
        catalog[r.rtype@].cost.estimated_monthly_usd
    }
}

/// The estimates of the live resources by source.
pub open spec fn estimates(
    records: Seq<ProvisionedRecord>,
    catalog: Map<Seq<char>, ServiceManifest>,
) -> Map<Seq<char>, Seq<Usd>>
    decreases records.len(),
{
    if records.len() == 0 {
        Map::empty()
    } else {
        let rest = estimates(records.drop_last(), catalog);
        let r = records.last();
        match source_of(r, catalog) {
            Some(s) => if live(r) {
                rest.insert(
                    s,
                    if rest.contains_key(s) {
                        rest[s].push(estimate_of(r, catalog))
                    } else {
                        seq![estimate_of(r, catalog)]
                    },
                )
            } else {
                rest
            },
            None => rest,
        }
    }
}

/// The estimates by source, with the gateway among the sources where it is wired.
pub open spec fn estimates_with(
    m: Map<Seq<char>, Seq<Usd>>,
    gateway_wired: bool,
) -> Map<Seq<char>, Seq<Usd>> {
    if gateway_wired && !m.contains_key("gateway"@) {
        m.insert("gateway"@, Seq::empty())
    } else {
        m
    }
}

/// The estimates of a project's live resources by source, to be summed. Model
/// spend is a source of every project where the gateway is wired.
pub fn estimates_by_source(
    records: &Vec<ProvisionedRecord>,
    catalog: &ServiceCatalog,
    gateway_wired: bool,
) -> (r: SortedMap<Vec<Usd>>)
    ensures
        lists(r@) == estimates_with(estimates(records@, catalog@), gateway_wired),
{
    let mut m: SortedMap<Vec<Usd>> = SortedMap::new();
    let mut i: usize = 0;
    assert(records@.take(0) =~= Seq::empty());
    assert(lists(m@) =~= Map::empty());
    while i < records.len()
        invariant
            i <= records@.len(),
            lists(m@) == estimates(records@.take(i as int), catalog@),
        decreases records.len() - i,
    {
        assert(records@.take(i + 1).drop_last() =~= records@.take(i as int));
        let r = &records[i];
        if is_live(r) {
            match linked_source(r) {
                Some(s) => {
                    assert(m@.contains_key(s@) == lists(m@).contains_key(s@));
                    add_amount(&mut m, s.as_str(), r.est_monthly_usd);
                },
                None => {
                    match catalog.get(r.rtype.as_str()) {
                        Some(found) => {
                            let s = found.cost.source.source_type.as_str();
                            assert(m@.contains_key(s@) == lists(m@).contains_key(s@));
                            add_amount(&mut m, s, found.cost.estimated_monthly_usd);
                        },
                        None => {},
                    }
                },
            }
        }
        i = i + 1;
    }
    assert(records@.take(records@.len() as int) =~= records@);
    let ghost was = m@;
    assert(was.contains_key("gateway"@) == lists(was).contains_key("gateway"@));
    if gateway_wired && !m.contains("gateway") {
        let none: Vec<Usd> = Vec::new();
        let ghost empty = none;
        m.insert("gateway", none);
        assert(lists(was.insert("gateway"@, empty)) =~= lists(was).insert("gateway"@, empty@));
        assert(empty@ =~= Seq::empty());
    }
    m
}

/// A day's row of a project at a source.
pub fn daily_row(
    reg: &Registration,
    day: &str,
    source: &str,
    estimated: Usd,
    actual: Option<Usd>,
    cumulative: Option<Usd>,
) -> (r: RollupRow)
    ensures
        r.project_id@ == reg.project_id@,
        r.day@ == day@,
        r.service@ == source@,
        r.source@ == source@,
        r.estimated_usd == estimated,
        r.actual_usd == actual,
        r.cumulative_usd == cumulative,
        r.owner@ == reg.owner@,
        r.manager@ == reg.manager@,
        r.cost_group@ == reg.group@,
        r.cost_center@ == reg.cost_center@,
        r.classification@ == reg.classification@,
{
    RollupRow {
        project_id: reg.project_id.clone(),
        day: day.to_owned(),
        service: source.to_owned(),
        source: source.to_owned(),
        estimated_usd: estimated,
        actual_usd: actual,
        cumulative_usd: cumulative,
        owner: reg.owner.clone(),
        manager: reg.manager.clone(),
        cost_group: reg.group.clone(),
        cost_center: reg.cost_center.clone(),
        classification: reg.classification.clone(),
    }
}

/// How grave a deviation is: none up to the limit, high from the high limit on,
/// and medium between the two.
pub fn severity(deviation: &Usd, limit: &Usd, high_limit: &Usd) -> (r: Option<&'static str>)
    ensures
        match r {
            Some(s) => !deviation.within(*limit) && s@ == if high_limit.within(*deviation) {
                "high"@
            } else {
                "medium"@
            },
            None => deviation.within(*limit),
        },
        r is None <==> deviation.within(*limit),
        limit.less(*deviation) && deviation.less(*high_limit) ==> (r matches Some(s) && s@
            == "medium"@),
        limit.less(*deviation) && high_limit.within(*deviation) ==> (r matches Some(s) && s@
            == "high"@),
{
    if deviation.is_within(limit) {
        None
    } else if high_limit.is_within(deviation) {
        Some("high")
    } else {
        Some("medium")
    }
}

/// The days of a month so far, and those of the month before.
#[derive(Debug)]
pub struct MonthPair {
    pub from: String,
    pub previous_from: String,
    pub previous_until: String,
}

/// The month of a day and the month before it; none for the first month of the
/// calendar.
pub fn month_pair(as_of_day: &str) -> (r: Option<MonthPair>)
    ensures
        ({
            let from = day_written(first_of_month(day_of(as_of_day@)));
            match (r, day_before(day_of(from), 1)) {
                (Some(p), Some(until)) => p.from@ == from && p.previous_until@ == day_written(
                    until,
                ) && p.previous_from@ == day_written(first_of_month(day_of(day_written(until)))),
                (None, None) => true,
                _ => false,
            }
        }),
{
    let from = month_start_str(as_of_day);
    match minus_days(from.as_str(), 1) {
        Some(until) => {
            let previous_from = month_start_str(until.as_str());
            Some(MonthPair { from, previous_from, previous_until: until })
        },
        None => None,
    }
}

/// Estimates by project are those that count as live, for exactly the projects that
/// have any.
pub open spec fn live_by_project(
    m: Map<Seq<char>, Seq<Usd>>,
    rows: Seq<ResourceRow>,
) -> bool {
    forall|p: Seq<char>|
        if counted_estimates(rows, p, false).len() > 0 {
            #[trigger] m.contains_key(p) && m[p] == counted_estimates(rows, p, false)
        } else {
            !m.contains_key(p)
        }
}

/// The monthly estimates of the live resources, by project.
pub fn infra_cost_by_project(rows: &Vec<ResourceRow>) -> (r: SortedMap<Vec<Usd>>)
    ensures
        live_by_project(lists(r@), rows@),
{
    let mut m: SortedMap<Vec<Usd>> = SortedMap::new();
    let mut i: usize = 0;
    assert(rows@.take(0) =~= Seq::empty());
    while i < rows.len()
        invariant
            i <= rows@.len(),
            live_by_project(lists(m@), rows@.take(i as int)),
        decreases rows.len() - i,
    {
        let ghost was = lists(m@);
        let ghost seen = rows@.take(i as int);
        let ghost now = rows@.take(i + 1);
        assert(now.drop_last() =~= seen);
        let rec = &rows[i].rec;
        if text_eq(rec.state.as_str(), "provisioned") {
            assert(m@.contains_key(rec.project_id@) == was.contains_key(rec.project_id@));
            add_amount(&mut m, rec.project_id.as_str(), rec.est_monthly_usd);
            proof {
                if !was.contains_key(rec.project_id@) {
                    assert(counted_estimates(seen, rec.project_id@, false) =~= Seq::empty());
                    assert(seq![rec.est_monthly_usd] =~= Seq::empty().push(rec.est_monthly_usd));
                }
            }
        }
        assert forall|p: Seq<char>|
            if counted_estimates(now, p, false).len() > 0 {
                #[trigger] lists(m@).contains_key(p) && lists(m@)[p] == counted_estimates(
                    now,
                    p,
                    false,
                )
            } else {
                !lists(m@).contains_key(p)
            } by {
            let before = counted_estimates(seen, p, false);
            assert(now.last() == rows@[i as int]);
            assert(if before.len() > 0 {
                was.contains_key(p) && was[p] == before
            } else {
                !was.contains_key(p)
            });
            if rec.state@ == "provisioned"@ && rec.project_id@ == p {
                assert(counted_estimates(now, p, false) == before.push(rec.est_monthly_usd));
                if before.len() == 0 {
                    assert(before.push(rec.est_monthly_usd) =~= seq![rec.est_monthly_usd]);
                }
            } else {
                assert(counted_estimates(now, p, false) == before);
            }
        }
        i = i + 1;
    }
    assert(rows@.take(rows@.len() as int) =~= rows@);
    m
}

/// Exactly the `provisioned` and the `linked` resources are listed as costing something,
/// in order.
pub proof fn law_what_costs_something(records: Seq<ProvisionedRecord>)
    ensures
        forall|i: int, j: int|
            0 <= i < j < live_places(records).len() ==> #[trigger] live_places(records)[i]
                < #[trigger] live_places(records)[j],
        forall|i: int|
            0 <= i < live_places(records).len() ==> 0 <= #[trigger] live_places(records)[i]
                < records.len(),
        forall|k: int|
            0 <= k < records.len() ==> (#[trigger] live_places(records).contains(k)
                <==> records[k].state@ == "provisioned"@ || records[k].state@ == "linked"@),
    decreases records.len(),
{
    if records.len() > 0 {
        let t = records.drop_last();
        law_what_costs_something(t);
        lemma_one_more_place(
            live_places(t),
            live_places(records),
            records.len() - 1,
            live(records.last()),
        );
        assert forall|k: int| 0 <= k < t.len() implies t[k] == #[trigger] records[k] by {}
    }
}

/// An entry tells the resource as it is on record.
pub proof fn law_entry_is_of_the_record(e: InfraResourceCost, r: ProvisionedRecord)
    requires
        entry_of(e, r),
    ensures
        e.rtype@ == r.rtype@,
        e.name@ == r.name@,
        e.backend@ == r.backend@,
        e.est_monthly_usd == r.est_monthly_usd,
        e.state@ == r.state@,
{
}

/// A linked resource is billed through the source that its spec names and by its own
/// estimate; any other through the source that its manifest declares and by the
/// manifest's estimate.
pub proof fn law_whose_source_and_estimate_count(
    r: ProvisionedRecord,
    catalog: Map<Seq<char>, ServiceManifest>,
)
    ensures
        r.state@ == "linked"@ && r.spec@.text_at("cost_source"@) is Some ==> source_of(r, catalog)
            == r.spec@.text_at("cost_source"@) && estimate_of(r, catalog) == r.est_monthly_usd,
        r.state@ != "linked"@ && catalog.contains_key(r.rtype@) ==> source_of(r, catalog) == Some(
            catalog[r.rtype@].cost.source.source_type@,
        ) && estimate_of(r, catalog) == catalog[r.rtype@].cost.estimated_monthly_usd,
        r.state@ != "linked"@ && !catalog.contains_key(r.rtype@) ==> source_of(r, catalog) is None,
{
}

/// A project's measured cost is of the sources that answered with a figure, one for each,
/// in order; and an answer is told by its own account, or as not configured.
pub proof fn law_only_figures_are_summed(answers: Seq<Option<ServiceCost>>)
    ensures
        measured_of(answers) == answers.filter(
            |a: Option<ServiceCost>| a is Some && a->0.actual_usd is Some,
        ).map_values(|a: Option<ServiceCost>| a->0.actual_usd->0),
    decreases answers.len(),
{
    reveal(Seq::filter);
    let f = |a: Option<ServiceCost>| a is Some && a->0.actual_usd is Some;
    let g = |a: Option<ServiceCost>| a->0.actual_usd->0;
    if answers.len() > 0 {
        let t = answers.drop_last();
        law_only_figures_are_summed(t);
        let last = answers.last();
        assert(t.filter(f).push(last).map_values(g) =~= t.filter(f).map_values(g).push(g(last)));
    }
    assert(measured_of(answers) =~= answers.filter(f).map_values(g));
}

/// Each source has the estimates of the resources that cost something and are billed
/// through it, in order, and a source without such a resource is not among them.
pub proof fn law_sources_hold_their_estimates(
    records: Seq<ProvisionedRecord>,
    catalog: Map<Seq<char>, ServiceManifest>,
    source: Seq<char>,
)
    ensures
        ({
            let own = records.filter(
                |r: ProvisionedRecord|
                    (r.state@ == "provisioned"@ || r.state@ == "linked"@) && source_of(r, catalog)
                        == Some(source),
            ).map_values(|r: ProvisionedRecord| estimate_of(r, catalog));
            &&& estimates(records, catalog).contains_key(source) <==> own.len() > 0
            &&& own.len() > 0 ==> estimates(records, catalog)[source] == own
        }),
    decreases records.len(),
{
    reveal(Seq::filter);
    let f = |r: ProvisionedRecord|
        (r.state@ == "provisioned"@ || r.state@ == "linked"@) && source_of(r, catalog) == Some(
            source,
        );
    let g = |r: ProvisionedRecord| estimate_of(r, catalog);
    if records.len() > 0 {
        let t = records.drop_last();
        law_sources_hold_their_estimates(t, catalog, source);
        let last = records.last();
        assert(t.filter(f).push(last).map_values(g) =~= t.filter(f).map_values(g).push(g(last)));
        if f(last) {
            let own = t.filter(f).map_values(g);
            assert(own.len() == 0 ==> own.push(g(last)) =~= seq![g(last)]);
        }
    }
}

/// Where the gateway is wired it is a source of every project; else, and for every other
/// source, nothing is added.
pub proof fn law_gateway_is_everybodys_source(m: Map<Seq<char>, Seq<Usd>>, wired: bool, k: Seq<char>)
    ensures
        wired ==> estimates_with(m, wired).contains_key("gateway"@),
        k != "gateway"@ || !wired || m.contains_key(k) ==> (estimates_with(m, wired).contains_key(k)
            <==> m.contains_key(k)),
        m.contains_key(k) ==> estimates_with(m, wired)[k] == m[k],
{
}

/// Each project's estimates are those of its `provisioned` resources, and a project
/// without one is not among them.
pub proof fn law_projects_hold_their_estimates(
    m: Map<Seq<char>, Seq<Usd>>,
    rows: Seq<ResourceRow>,
    project_id: Seq<char>,
)
    requires
        live_by_project(m, rows),
    ensures
        ({
            let own = rows.filter(
                |r: ResourceRow| r.rec.project_id@ == project_id && r.rec.state@ == "provisioned"@,
            ).map_values(|r: ResourceRow| r.rec.est_monthly_usd);
            &&& m.contains_key(project_id) <==> own.len() > 0
            &&& own.len() > 0 ==> m[project_id] == own
        }),
{
    law_estimates_that_count(rows, project_id);
    assert(m.contains_key(project_id) || !m.contains_key(project_id));
}

/// An answer is told by its own account, and a source that gave none as not configured;
/// and a project's sources are those of its resources that cost something.
pub proof fn law_how_answers_are_told(
    source: Seq<char>,
    c: ServiceCost,
    records: Seq<ProvisionedRecord>,
    catalog: Map<Seq<char>, ServiceManifest>,
)
    ensures
        label_of(source, Some(c)) == c.source@,
        label_of(source, None) == source + " (unconfigured)"@,
        has_source(records, catalog, source) <==> exists|i: int|
            0 <= i < records.len() && source_of(#[trigger] records[i], catalog) == Some(source) && (
            records[i].state@ == "provisioned"@ || records[i].state@ == "linked"@),
{
    if has_source(records, catalog, source) {
        let i = choose|i: int|
            0 <= i < records.len() && live(#[trigger] records[i]) && source_of(records[i], catalog)
                == Some(source);
        assert(source_of(records[i], catalog) == Some(source) && live(records[i]));
    }
    if exists|i: int|
        0 <= i < records.len() && source_of(#[trigger] records[i], catalog) == Some(source) && (
        records[i].state@ == "provisioned"@ || records[i].state@ == "linked"@) {
        let i = choose|i: int|
            0 <= i < records.len() && source_of(#[trigger] records[i], catalog) == Some(source) && (
            records[i].state@ == "provisioned"@ || records[i].state@ == "linked"@);
        assert(live(records[i]));
    }
}

} // verus!
