//! The daily cost rollup, the forecasts and the anomalies, and what is read from
//! them. Every row carries the project's place in the organisation, so that every
//! report is a grouping of rows.
use vstd::prelude::*;

use crate::ordering::{
    arranged, at_most, in_order, keep_first, law_arranged_is_in_order, lemma_arranged,
    lemma_at_most_in_order, lemma_one_more_place, lemma_slot_found, numbers, orders, put_at,
};
use crate::sorted_map::SortedMap;
use crate::text::{
    before, chars_of, contents, contents_ref, later, lemma_before_irreflexive, lemma_before_total,
    lemma_before_transitive, list_contains, text_before, text_between, text_eq, texts,
};
use crate::usd::Usd;

verus! {

/// One day's cost of a project at a service and a source. The actual figure is the
/// day's own; the cumulative one is what the source reported for the month so far.
#[derive(Debug)]
pub struct RollupRow {
    pub project_id: String,
    pub day: String,
    pub service: String,
    pub source: String,
    pub estimated_usd: Usd,
    pub actual_usd: Option<Usd>,
    pub cumulative_usd: Option<Usd>,
    pub owner: String,
    pub manager: String,
    pub cost_group: String,
    pub cost_center: String,
    pub classification: String,
}

/// A projection to the end of the month.
#[derive(Debug)]
pub struct ForecastRow {
    pub project_id: String,
    pub as_of_day: String,
    pub method: String,
    pub eom_usd: Usd,
    pub low_usd: Usd,
    pub high_usd: Usd,
    pub r2: Option<Usd>,
    pub n_days: i64,
}

/// A day that is far from the norm.
#[derive(Debug)]
pub struct AnomalyRow {
    pub project_id: String,
    pub day: String,
    pub service: String,
    pub expected_usd: Usd,
    pub actual_usd: Usd,
    pub z_score: Usd,
    pub severity: String,
    pub created_at: String,
}

// ---------------------------------------------------------------------------
// Dimensions
// ---------------------------------------------------------------------------

/// What spend is rolled up by.
#[derive(Debug, Clone, Copy, PartialEq, Eq, Structural)]
pub enum RollupDim {
    Project,
    Owner,
    Manager,
    Group,
    CostCenter,
    Classification,
    Service,
}

/// The dimension that a name stands for.
pub open spec fn named_dim(s: Seq<char>) -> Option<RollupDim> {
    if s == "project"@ || s == "project_id"@ {
        Some(RollupDim::Project)
    } else if s == "owner"@ {
        Some(RollupDim::Owner)
    } else if s == "manager"@ {
        Some(RollupDim::Manager)
    } else if s == "group"@ || s == "cost_group"@ {
        Some(RollupDim::Group)
    } else if s == "cost_center"@ || s == "cost-center"@ {
        Some(RollupDim::CostCenter)
    } else if s == "classification"@ || s == "tier"@ {
        Some(RollupDim::Classification)
    } else if s == "service"@ {
        Some(RollupDim::Service)
    } else {
        None
    }
}

/// The name of a dimension.
pub open spec fn dim_name(d: RollupDim) -> Seq<char> {
    match d {
        RollupDim::Project => "project"@,
        RollupDim::Owner => "owner"@,
        RollupDim::Manager => "manager"@,
        RollupDim::Group => "group"@,
        RollupDim::CostCenter => "cost_center"@,
        RollupDim::Classification => "classification"@,
        RollupDim::Service => "service"@,
    }
}

/// The column that a dimension is read from.
pub open spec fn dim_column(d: RollupDim) -> Seq<char> {
    match d {
        RollupDim::Project => "project_id"@,
        RollupDim::Owner => "owner"@,
        RollupDim::Manager => "manager"@,
        RollupDim::Group => "cost_group"@,
        RollupDim::CostCenter => "cost_center"@,
        RollupDim::Classification => "classification"@,
        RollupDim::Service => "service"@,
    }
}

/// What a row has in a dimension.
pub open spec fn dim_value(r: RollupRow, d: RollupDim) -> Seq<char> {
    match d {
        RollupDim::Project => r.project_id@,
        RollupDim::Owner => r.owner@,
        RollupDim::Manager => r.manager@,
        RollupDim::Group => r.cost_group@,
        RollupDim::CostCenter => r.cost_center@,
        RollupDim::Classification => r.classification@,
        RollupDim::Service => r.service@,
    }
}

impl RollupDim {
    /// The dimension that a name stands for.
    pub fn parse(s: &str) -> (r: Option<RollupDim>)
        ensures
            r == named_dim(s@),
    {
        if text_eq(s, "project") || text_eq(s, "project_id") {
            Some(RollupDim::Project)
        } else if text_eq(s, "owner") {
            Some(RollupDim::Owner)
        } else if text_eq(s, "manager") {
            Some(RollupDim::Manager)
        } else if text_eq(s, "group") || text_eq(s, "cost_group") {
            Some(RollupDim::Group)
        } else if text_eq(s, "cost_center") || text_eq(s, "cost-center") {
            Some(RollupDim::CostCenter)
        } else if text_eq(s, "classification") || text_eq(s, "tier") {
            Some(RollupDim::Classification)
        } else if text_eq(s, "service") {
            Some(RollupDim::Service)
        } else {
            None
        }
    }

    /// The column of the dimension.
    pub fn column(&self) -> (r: &'static str)
        ensures
            r@ == dim_column(*self),
    {
        match self {
            RollupDim::Project => "project_id",
            RollupDim::Owner => "owner",
            RollupDim::Manager => "manager",
            RollupDim::Group => "cost_group",
            RollupDim::CostCenter => "cost_center",
            RollupDim::Classification => "classification",
            RollupDim::Service => "service",
        }
    }

    /// The name of the dimension.
    pub fn as_str(&self) -> (r: &'static str)
        ensures
            r@ == dim_name(*self),
    {
        match self {
            RollupDim::Project => "project",
            RollupDim::Owner => "owner",
            RollupDim::Manager => "manager",
            RollupDim::Group => "group",
            RollupDim::CostCenter => "cost_center",
            RollupDim::Classification => "classification",
            RollupDim::Service => "service",
        }
    }

    /// What a row has in the dimension.
    pub fn of<'a>(&self, r: &'a RollupRow) -> (s: &'a str)
        ensures
            s@ == dim_value(*r, *self),
    {
        match self {
            RollupDim::Project => r.project_id.as_str(),
            RollupDim::Owner => r.owner.as_str(),
            RollupDim::Manager => r.manager.as_str(),
            RollupDim::Group => r.cost_group.as_str(),
            RollupDim::CostCenter => r.cost_center.as_str(),
            RollupDim::Classification => r.classification.as_str(),
            RollupDim::Service => r.service.as_str(),
        }
    }
}

/// A dimension is found again under its name, and under the column it is read from.
pub proof fn law_dim_names_round_trip(d: RollupDim)
    ensures
        named_dim(dim_name(d)) == Some(d),
        named_dim(dim_column(d)) == Some(d),
{
    reveal_strlit("project");
    reveal_strlit("project_id");
    reveal_strlit("owner");
    reveal_strlit("manager");
    reveal_strlit("group");
    reveal_strlit("cost_group");
    reveal_strlit("cost_center");
    reveal_strlit("cost-center");
    reveal_strlit("classification");
    reveal_strlit("tier");
    reveal_strlit("service");
    assert("project"@.len() == 7 && "project"@[0] == 'p' && "project_id"@.len() == 10);
    assert("owner"@.len() == 5 && "owner"@[0] == 'o' && "manager"@.len() == 7);
    assert("manager"@[0] == 'm' && "group"@.len() == 5 && "group"@[0] == 'g');
    assert("cost_group"@.len() == 10 && "cost_center"@.len() == 11 && "cost-center"@.len() == 11);
    assert("classification"@.len() == 14 && "tier"@.len() == 4 && "service"@.len() == 7);
    assert("service"@[0] == 's' && "project_id"@[0] == 'p' && "cost_group"@[0] == 'c');
}

// ---------------------------------------------------------------------------
// Writing
// ---------------------------------------------------------------------------

/// Whether two rows are of the same day, project, service and source.
pub open spec fn same_key(a: RollupRow, b: RollupRow) -> bool {
    a.project_id@ == b.project_id@ && a.day@ == b.day@ && a.service@ == b.service@ && a.source@
        == b.source@
}

/// No two rows have the same key.
pub open spec fn keyed(rows: Seq<RollupRow>) -> bool {
    forall|i: int, j: int|
        0 <= i < j < rows.len() ==> !same_key(#[trigger] rows[i], #[trigger] rows[j])
}

fn is_same_key(a: &RollupRow, b: &RollupRow) -> (r: bool)
    ensures
        r == same_key(*a, *b),
{
    text_eq(a.project_id.as_str(), b.project_id.as_str()) && text_eq(
        a.day.as_str(),
        b.day.as_str(),
    ) && text_eq(a.service.as_str(), b.service.as_str()) && text_eq(
        a.source.as_str(),
        b.source.as_str(),
    )
}

/// Rows with one written: in place of the first row that it replaces, or behind
/// all.
pub open spec fn put_by<T>(rows: Seq<T>, r: T, same: spec_fn(T, T) -> bool) -> Seq<T>
    decreases rows.len(),
{
    if rows.len() == 0 {
        seq![r]
    } else if same(rows[0], r) {
        rows.update(0, r)
    } else {
        seq![rows[0]] + put_by(rows.subrange(1, rows.len() as int), r, same)
    }
}

proof fn lemma_put_by<T>(rows: Seq<T>, r: T, same: spec_fn(T, T) -> bool, k: int)
    requires
        0 <= k <= rows.len(),
        forall|i: int| 0 <= i < k ==> !same(#[trigger] rows[i], r),
        k < rows.len() ==> same(rows[k], r),
    ensures
        put_by(rows, r, same) == if k < rows.len() {
            rows.update(k, r)
        } else {
            rows.push(r)
        },
    decreases rows.len(),
{
    if rows.len() == 0 {
        assert(rows.push(r) =~= seq![r]);
    } else if !same(rows[0], r) {
        let t = rows.subrange(1, rows.len() as int);
        assert forall|i: int| 0 <= i < k - 1 implies !same(#[trigger] t[i], r) by {
            assert(t[i] == rows[i + 1]);
        }
        lemma_put_by(t, r, same, k - 1);
        if k < rows.len() {
            assert(seq![rows[0]] + t.update(k - 1, r) =~= rows.update(k, r));
        } else {
            assert(seq![rows[0]] + t.push(r) =~= rows.push(r));
        }
    }
}

/// Rows with a day's row written.
pub open spec fn upserted(rows: Seq<RollupRow>, r: RollupRow) -> Seq<RollupRow> {
    put_by(rows, r, |a: RollupRow, b: RollupRow| same_key(a, b))
}

/// Writes a day's row: a second run of the same day overwrites the first.
pub fn upsert_daily(rows: &mut Vec<RollupRow>, r: RollupRow)
    ensures
        final(rows)@ == upserted(old(rows)@, r),
        keyed(old(rows)@) ==> keyed(final(rows)@),
{
    let mut i: usize = 0;
    let ghost was = rows@;
    let ghost same = |a: RollupRow, b: RollupRow| same_key(a, b);
    while i < rows.len()
        invariant
            i <= rows@.len(),
            rows@ == was,
            same == (|a: RollupRow, b: RollupRow| same_key(a, b)),
            forall|k: int| 0 <= k < i ==> !same_key(#[trigger] rows@[k], r),
            was == old(rows)@,
        decreases rows.len() - i,
    {
        if is_same_key(&rows[i], &r) {
            proof {
                lemma_put_by(was, r, same, i as int);
            }
            rows[i] = r;
            proof {
                if keyed(was) {
                    assert forall|a: int, b: int| 0 <= a < b < rows@.len() implies !same_key(
                        #[trigger] rows@[a],
                        #[trigger] rows@[b],
                    ) by {
                        assert(!same_key(was[a], was[b]));
                    }
                }
            }
            return ;
        }
        i = i + 1;
    }
    proof {
        lemma_put_by(was, r, same, i as int);
    }
    rows.push(r);
}

/// Writing a row twice is the same as writing it once.
pub proof fn law_rollup_is_idempotent(rows: Seq<RollupRow>, r: RollupRow)
    ensures
        upserted(upserted(rows, r), r) == upserted(rows, r),
    decreases rows.len(),
{
    if rows.len() == 0 {
        assert(seq![r].update(0, r) =~= seq![r]);
    } else if same_key(rows[0], r) {
        assert(rows.update(0, r).update(0, r) =~= rows.update(0, r));
    } else {
        let t = rows.subrange(1, rows.len() as int);
        law_rollup_is_idempotent(t, r);
        let u = upserted(rows, r);
        assert(u[0] == rows[0]);
        assert(u.subrange(1, u.len() as int) =~= upserted(t, r));
    }
}

// ---------------------------------------------------------------------------
// Reading
// ---------------------------------------------------------------------------

/// Whether a reader may see a row: everybody's where there is no scope, else what
/// the reader owns or manages.
pub open spec fn visible(r: RollupRow, scope: Option<Seq<char>>) -> bool {
    match scope {
        Some(e) => r.owner@ == e || r.manager@ == e,
        None => true,
    }
}

/// Whether a day lies in a range, both ends included.
pub open spec fn in_days(day: Seq<char>, from: Seq<char>, until: Seq<char>) -> bool {
    !before(day, from) && !before(until, day)
}

fn is_visible(r: &RollupRow, scope: &Option<String>) -> (b: bool)
    ensures
        b == visible(*r, contents(*scope)),
{
    match scope {
        Some(e) => text_eq(r.owner.as_str(), e.as_str()) || text_eq(
            r.manager.as_str(),
            e.as_str(),
        ),
        None => true,
    }
}

fn is_in_days(day: &str, from: &str, until: &str) -> (b: bool)
    ensures
        b == in_days(day@, from@, until@),
{
    !text_before(day, from) && !text_before(until, day)
}

/// The place of the latest row of a project, service and source before a day that
/// holds a figure of its source.
pub open spec fn latest_before(
    rows: Seq<RollupRow>,
    project_id: Seq<char>,
    service: Seq<char>,
    source: Seq<char>,
    day: Seq<char>,
) -> Option<int>
    decreases rows.len(),
{
    if rows.len() == 0 {
        None
    } else {
        let rest = latest_before(rows.drop_last(), project_id, service, source, day);
        let r = rows.last();
        if r.project_id@ == project_id && r.service@ == service && r.source@ == source
            && r.cumulative_usd is Some && before(r.day@, day) && match rest {
            Some(k) => before(rows[k].day@, r.day@),
            None => true,
        } {
            Some(rows.len() - 1)
        } else {
            rest
        }
    }
}

fn place_before(
    rows: &Vec<RollupRow>,
    project_id: &str,
    service: &str,
    source: &str,
    day: &str,
) -> (r: Option<usize>)
    ensures
        match r {
            Some(k) => k < rows@.len() && latest_before(
                rows@,
                project_id@,
                service@,
                source@,
                day@,
            ) == Some(k as int),
            None => latest_before(
                rows@,
                project_id@,
                service@,
                source@,
                day@,
            ) is None,
        },
{
    let mut best: Option<usize> = None;
    let mut i: usize = 0;
    assert(rows@.take(0) =~= Seq::empty());
    while i < rows.len()
        invariant
            i <= rows@.len(),
            match best {
                Some(k) => k < i && latest_before(
                    rows@.take(i as int),
                    project_id@,
                    service@,
                    source@,
                    day@,
                ) == Some(k as int),
                None => latest_before(
                    rows@.take(i as int),
                    project_id@,
                    service@,
                    source@,
                    day@,
                ) is None,
            },
        decreases rows.len() - i,
    {
        assert(rows@.take(i + 1).drop_last() =~= rows@.take(i as int));
        let r = &rows[i];
        if text_eq(r.project_id.as_str(), project_id) && text_eq(r.service.as_str(), service)
            && text_eq(r.source.as_str(), source) && r.cumulative_usd.is_some()
            && text_before(r.day.as_str(), day) {
            match best {
                Some(k) => {
                    if text_before(rows[k].day.as_str(), r.day.as_str()) {
                        best = Some(i);
                    }
                },
                None => {
                    best = Some(i);
                },
            }
        }
        i = i + 1;
    }
    assert(rows@.take(rows@.len() as int) =~= rows@);
    best
}

/// The latest figure of a source before a day.
pub fn cumulative_for(
    rows: &Vec<RollupRow>,
    project_id: &str,
    service: &str,
    source: &str,
    day: &str,
) -> (r: Option<Usd>)
    ensures
        r == match latest_before(rows@, project_id@, service@, source@, day@) {
            Some(k) => rows@[k].cumulative_usd,
            None => None,
        },
{
    match place_before(rows, project_id, service, source, day) {
        Some(k) => rows[k].cumulative_usd,
        None => None,
    }
}

/// The month of a day label: the year and the month at its front.
pub open spec fn month_of(day: Seq<char>) -> Seq<char> {
    if day.len() < 7 {
        day
    } else {
        day.take(7)
    }
}

fn month_label(day: &str) -> (r: String)
    ensures
        r@ == month_of(day@),
{
    let c = chars_of(day);
    if c.len() < 7 {
        return day.to_owned();
    }
    let r = text_between(&c, 0, 7);
    assert(r@ =~= day@.take(7));
    r
}

/// Whether a source's figure never starts over: what the gateway and LiteLLM report
/// is all that was ever spent. Every other source reports the month so far.
pub open spec fn lifetime_source(source: Seq<char>) -> bool {
    source == "gateway"@ || source == "litellm"@
}

/// Whether a source's figure counts from nothing again since an earlier day: a new
/// month has begun.
pub open spec fn starts_anew(
    source: Seq<char>,
    earlier_day: Seq<char>,
    day: Seq<char>,
) -> bool {
    !lifetime_source(source) && month_of(earlier_day) != month_of(day)
}

/// What a source's figure of a day is measured against to find the day's own: the
/// latest figure before the day, or nothing where there is none or the figure has
/// started anew. A day without a figure in between is passed over.
pub open spec fn baseline_of(
    rows: Seq<RollupRow>,
    project_id: Seq<char>,
    service: Seq<char>,
    source: Seq<char>,
    day: Seq<char>,
) -> Option<Usd> {
    match latest_before(rows, project_id, service, source, day) {
        Some(k) => if starts_anew(source, rows[k].day@, day) {
            None
        } else {
            rows[k].cumulative_usd
        },
        None => None,
    }
}

/// What a source's figure of a day is measured against to find the day's own; the
/// whole figure is the day's where there is nothing.
pub fn day_baseline(
    rows: &Vec<RollupRow>,
    project_id: &str,
    service: &str,
    source: &str,
    day: &str,
) -> (r: Option<Usd>)
    ensures
        r == baseline_of(rows@, project_id@, service@, source@, day@),
{
    match place_before(rows, project_id, service, source, day) {
        Some(k) => {
            let lifetime = text_eq(source, "gateway") || text_eq(source, "litellm");
            let here = month_label(day);
            let there = month_label(rows[k].day.as_str());
            if !lifetime && !text_eq(there.as_str(), here.as_str()) {
                return None;
            }
            rows[k].cumulative_usd
        },
        None => None,
    }
}

/// The latest row is one of those it was sought among.
proof fn lemma_latest_before(
    rows: Seq<RollupRow>,
    project_id: Seq<char>,
    service: Seq<char>,
    source: Seq<char>,
    day: Seq<char>,
)
    ensures
        match latest_before(rows, project_id, service, source, day) {
            Some(k) => 0 <= k < rows.len() && before(rows[k].day@, day)
                && rows[k].cumulative_usd is Some,
            None => true,
        },
    decreases rows.len(),
{
    if rows.len() > 0 {
        lemma_latest_before(rows.drop_last(), project_id, service, source, day);
    }
}

/// A day label of a calendar: year, month and day of the month, the days counted
/// from one.
pub open spec fn dated(day: Seq<char>) -> bool {
    day.len() == 10 && !before(day.subrange(7, 10), "-01"@)
}

proof fn lemma_before_behind(a: Seq<char>, b: Seq<char>, n: int)
    requires
        0 <= n <= a.len(),
        n <= b.len(),
        a.take(n) == b.take(n),
    ensures
        before(a, b) == before(a.subrange(n, a.len() as int), b.subrange(n, b.len() as int)),
    decreases n,
{
    if n == 0 {
        assert(a.subrange(0, a.len() as int) =~= a);
        assert(b.subrange(0, b.len() as int) =~= b);
    } else {
        assert(a[0] == a.take(n)[0] && b[0] == b.take(n)[0]);
        let a1 = a.subrange(1, a.len() as int);
        let b1 = b.subrange(1, b.len() as int);
        assert(a1.take(n - 1) =~= a.take(n).subrange(1, n));
        assert(b1.take(n - 1) =~= b.take(n).subrange(1, n));
        lemma_before_behind(a1, b1, n - 1);
        assert(a1.subrange(n - 1, a1.len() as int) =~= a.subrange(n, a.len() as int));
        assert(b1.subrange(n - 1, b1.len() as int) =~= b.subrange(n, b.len() as int));
    }
}

/// On the first of a month a figure for the month so far is the day's own: nothing
/// of the month before is taken off it.
pub proof fn law_month_starts_anew(
    rows: Seq<RollupRow>,
    project_id: Seq<char>,
    service: Seq<char>,
    source: Seq<char>,
    month: Seq<char>,
)
    requires
        !lifetime_source(source),
        month.len() == 7,
        forall|i: int| 0 <= i < rows.len() ==> dated((#[trigger] rows[i]).day@),
    ensures
        baseline_of(rows, project_id, service, source, month + "-01"@) is None,
{
    let day = month + "-01"@;
    reveal_strlit("-01");
    lemma_latest_before(rows, project_id, service, source, day);
    match latest_before(rows, project_id, service, source, day) {
        Some(k) => {
            let d = rows[k].day@;
            assert(dated(d));
            if month_of(d) == month_of(day) {
                lemma_before_behind(d, day, 7);
                assert(day.subrange(7, 10) =~= "-01"@);
            }
        },
        None => {},
    }
}

/// The figures of a month, read day after day, tell each day apart: a figure is
/// measured against the latest one of the same month, whether it has grown or fallen.
pub proof fn law_figure_counts_from_the_latest(
    rows: Seq<RollupRow>,
    last: RollupRow,
    day: Seq<char>,
)
    requires
        last.cumulative_usd is Some,
        before(last.day@, day),
        month_of(last.day@) == month_of(day),
        forall|i: int|
            0 <= i < rows.len() ==> before((#[trigger] rows[i]).day@, last.day@),
    ensures
        baseline_of(
            rows.push(last),
            last.project_id@,
            last.service@,
            last.source@,
            day,
        ) == last.cumulative_usd,
{
    lemma_latest_before(rows, last.project_id@, last.service@, last.source@, day);
    assert(rows.push(last).drop_last() =~= rows);
}

/// Whether a row comes before another: by day, then service, then source.
pub open spec fn row_before(a: RollupRow, b: RollupRow) -> bool {
    before(a.day@, b.day@) || (a.day@ == b.day@ && (before(a.service@, b.service@) || (a.service@
        == b.service@ && before(a.source@, b.source@))))
}

/// The order of rows, by their places.
pub open spec fn by_row(rows: Seq<RollupRow>) -> spec_fn(int, int) -> bool {
    |a: int, b: int| row_before(rows[a], rows[b])
}

/// The places of a project's rows of some days that a reader may see.
pub open spec fn rows_of(
    rows: Seq<RollupRow>,
    project_id: Seq<char>,
    from: Seq<char>,
    until: Seq<char>,
    scope: Option<Seq<char>>,
) -> Seq<int>
    decreases rows.len(),
{
    if rows.len() == 0 {
        Seq::empty()
    } else {
        let rest = rows_of(rows.drop_last(), project_id, from, until, scope);
        let r = rows.last();
        if r.project_id@ == project_id && in_days(r.day@, from, until) && visible(r, scope) {
            rest.push(rows.len() - 1)
        } else {
            rest
        }
    }
}

fn is_row_before(a: &RollupRow, b: &RollupRow) -> (r: bool)
    ensures
        r == row_before(*a, *b),
{
    if text_before(a.day.as_str(), b.day.as_str()) {
        return true;
    }
    if !text_eq(a.day.as_str(), b.day.as_str()) {
        return false;
    }
    if text_before(a.service.as_str(), b.service.as_str()) {
        return true;
    }
    text_eq(a.service.as_str(), b.service.as_str()) && text_before(
        a.source.as_str(),
        b.source.as_str(),
    )
}

/// The places of a project's rows of some days, in order.
pub fn series(
    rows: &Vec<RollupRow>,
    project_id: &str,
    from_day: &str,
    to_day: &str,
    scope: &Option<String>,
) -> (r: Vec<usize>)
    ensures
        numbers(r@) == arranged(
            rows_of(rows@, project_id@, from_day@, to_day@, contents(*scope)),
            by_row(rows@),
        ),
        forall|k: int| 0 <= k < r@.len() ==> (#[trigger] r@[k]) < rows@.len(),
{
    let ghost less = by_row(rows@);
    let ghost s = contents(*scope);
    let mut order: Vec<usize> = Vec::new();
    let mut i: usize = 0;
    assert(rows@.take(0) =~= Seq::empty());
    assert(numbers(order@) =~= Seq::empty());
    while i < rows.len()
        invariant
            i <= rows@.len(),
            less == by_row(rows@),
            s == contents(*scope),
            numbers(order@) == arranged(
                rows_of(rows@.take(i as int), project_id@, from_day@, to_day@, s),
                less,
            ),
            forall|k: int| 0 <= k < order@.len() ==> (#[trigger] order@[k]) < i,
        decreases rows.len() - i,
    {
        let ghost found = rows_of(rows@.take(i as int), project_id@, from_day@, to_day@, s);
        assert(rows@.take(i + 1).drop_last() =~= rows@.take(i as int));
        let row = &rows[i];
        if text_eq(row.project_id.as_str(), project_id) && is_in_days(
            row.day.as_str(),
            from_day,
            to_day,
        ) && is_visible(row, scope) {
            let mut at: usize = order.len();
            while at > 0 && is_row_before(&rows[i], &rows[order[at - 1]])
                invariant
                    at <= order@.len(),
                    i < rows@.len(),
                    less == by_row(rows@),
                    forall|k: int| 0 <= k < order@.len() ==> (#[trigger] order@[k]) < i,
                    forall|k: int|
                        at <= k < order@.len() ==> less(i as int, #[trigger] numbers(order@)[k]),
                decreases at,
            {
                assert(numbers(order@)[at - 1] == order@[at - 1] as int);
                at = at - 1;
            }
            proof {
                if at > 0 {
                    assert(numbers(order@)[at - 1] == order@[at - 1] as int);
                }
                lemma_slot_found(numbers(order@), at as int, i as int, less);
                assert(found.push(i as int).drop_last() =~= found);
            }
            let ghost was = order@;
            put_at(&mut order, at, i);
            proof {
                assert forall|k: int| 0 <= k < order@.len() implies (#[trigger] order@[k])
                    < i + 1 by {
                    if k < at {
                        assert(order@[k] == was[k]);
                    } else if k > at {
                        assert(order@[k] == was[k - 1]);
                    }
                }
            }
        }
        i = i + 1;
    }
    assert(rows@.take(rows@.len() as int) =~= rows@);
    order
}

proof fn lemma_text_order(a: Seq<char>, b: Seq<char>, c: Seq<char>)
    ensures
        before(a, b) ==> !before(b, a),
        before(a, b) && before(b, c) ==> before(a, c),
        before(a, b) || before(b, a) || a == b,
        !before(a, a),
{
    lemma_before_total(a, b);
    lemma_before_irreflexive(a);
    if before(a, b) && before(b, a) {
        lemma_before_transitive(a, b, a);
    }
    if before(a, b) && before(b, c) {
        lemma_before_transitive(a, b, c);
    }
}

proof fn lemma_row_order(a: RollupRow, b: RollupRow, c: RollupRow)
    ensures
        row_before(a, b) ==> !row_before(b, a),
        !row_before(b, a) && !row_before(c, b) ==> !row_before(c, a),
{
    let (x, y, z) = (a.day@, b.day@, c.day@);
    lemma_text_order(x, y, z);
    lemma_text_order(y, z, x);
    lemma_text_order(z, x, y);
    lemma_text_order(z, y, x);
    lemma_text_order(y, x, z);
    lemma_text_order(x, z, y);
    let (x, y, z) = (a.service@, b.service@, c.service@);
    lemma_text_order(x, y, z);
    lemma_text_order(y, z, x);
    lemma_text_order(z, x, y);
    lemma_text_order(z, y, x);
    lemma_text_order(y, x, z);
    lemma_text_order(x, z, y);
    let (x, y, z) = (a.source@, b.source@, c.source@);
    lemma_text_order(x, y, z);
    lemma_text_order(y, z, x);
    lemma_text_order(z, x, y);
    lemma_text_order(z, y, x);
    lemma_text_order(y, x, z);
    lemma_text_order(x, z, y);
}

/// A project's rows are read day by day.
pub proof fn law_series_is_in_order(
    rows: Seq<RollupRow>,
    project_id: Seq<char>,
    from: Seq<char>,
    until: Seq<char>,
    scope: Option<Seq<char>>,
)
    ensures
        in_order(
            arranged(rows_of(rows, project_id, from, until, scope), by_row(rows)),
            by_row(rows),
        ),
{
    let less = by_row(rows);
    assert(orders(rows_of(rows, project_id, from, until, scope), less)) by {
        assert forall|a: int, b: int| #[trigger] less(a, b) implies !less(b, a) by {
            lemma_row_order(rows[a], rows[b], rows[a]);
        }
        assert forall|a: int, b: int, c: int|
            !(#[trigger] less(b, a)) && !(#[trigger] less(c, b)) implies !less(c, a) by {
            lemma_row_order(rows[a], rows[b], rows[c]);
        }
    }
    law_arranged_is_in_order(rows_of(rows, project_id, from, until, scope), less);
}

// ---------------------------------------------------------------------------
// Groups
// ---------------------------------------------------------------------------

/// Amounts that are to be summed: the measured ones, and the estimates.
#[derive(Debug)]
pub struct Amounts {
    pub actual: Vec<Usd>,
    pub estimated: Vec<Usd>,
}

/// The rows that count for a report: those of its days that a reader may see.
pub open spec fn counts(
    r: RollupRow,
    from: Seq<char>,
    until: Seq<char>,
    scope: Option<Seq<char>>,
) -> bool {
    in_days(r.day@, from, until) && visible(r, scope)
}

/// The values that rows have in a dimension, each once, in the order in which they
/// first occur.
pub open spec fn values_of(
    rows: Seq<RollupRow>,
    dim: RollupDim,
    from: Seq<char>,
    until: Seq<char>,
    scope: Option<Seq<char>>,
) -> Seq<Seq<char>>
    decreases rows.len(),
{
    if rows.len() == 0 {
        Seq::empty()
    } else {
        let rest = values_of(rows.drop_last(), dim, from, until, scope);
        let v = dim_value(rows.last(), dim);
        if counts(rows.last(), from, until, scope) && !rest.contains(v) {
            rest.push(v)
        } else {
            rest
        }
    }
}

/// The measured amounts of the rows with a value, in order.
pub open spec fn actuals_of(
    rows: Seq<RollupRow>,
    dim: RollupDim,
    value: Seq<char>,
    from: Seq<char>,
    until: Seq<char>,
    scope: Option<Seq<char>>,
) -> Seq<Usd>
    decreases rows.len(),
{
    if rows.len() == 0 {
        Seq::empty()
    } else {
        let rest = actuals_of(rows.drop_last(), dim, value, from, until, scope);
        let r = rows.last();
        match r.actual_usd {
            Some(a) => if counts(r, from, until, scope) && dim_value(r, dim) == value {
                rest.push(a)
            } else {
                rest
            },
            None => rest,
        }
    }
}

/// The estimates of the rows with a value, in order.
pub open spec fn estimates_of(
    rows: Seq<RollupRow>,
    dim: RollupDim,
    value: Seq<char>,
    from: Seq<char>,
    until: Seq<char>,
    scope: Option<Seq<char>>,
) -> Seq<Usd>
    decreases rows.len(),
{
    if rows.len() == 0 {
        Seq::empty()
    } else {
        let rest = estimates_of(rows.drop_last(), dim, value, from, until, scope);
        let r = rows.last();
        if counts(r, from, until, scope) && dim_value(r, dim) == value {
            rest.push(r.estimated_usd)
        } else {
            rest
        }
    }
}

fn does_count(r: &RollupRow, from: &str, until: &str, scope: &Option<String>) -> (b: bool)
    ensures
        b == counts(*r, from@, until@, contents(*scope)),
{
    is_in_days(r.day.as_str(), from, until) && is_visible(r, scope)
}

fn amounts_for(
    rows: &Vec<RollupRow>,
    dim: RollupDim,
    value: &str,
    from: &str,
    until: &str,
    scope: &Option<String>,
) -> (r: Amounts)
    ensures
        r.actual@ == actuals_of(rows@, dim, value@, from@, until@, contents(*scope)),
        r.estimated@ == estimates_of(rows@, dim, value@, from@, until@, contents(*scope)),
{
    let ghost s = contents(*scope);
    let mut actual: Vec<Usd> = Vec::new();
    let mut estimated: Vec<Usd> = Vec::new();
    let mut i: usize = 0;
    assert(rows@.take(0) =~= Seq::empty());
    while i < rows.len()
        invariant
            i <= rows@.len(),
            s == contents(*scope),
            actual@ == actuals_of(rows@.take(i as int), dim, value@, from@, until@, s),
            estimated@ == estimates_of(rows@.take(i as int), dim, value@, from@, until@, s),
        decreases rows.len() - i,
    {
        assert(rows@.take(i + 1).drop_last() =~= rows@.take(i as int));
        let r = &rows[i];
        if does_count(r, from, until, scope) && text_eq(dim.of(r), value) {
            match r.actual_usd {
                Some(a) => actual.push(a),
                None => {},
            }
            estimated.push(r.estimated_usd);
        }
        i = i + 1;
    }
    assert(rows@.take(rows@.len() as int) =~= rows@);
    Amounts { actual, estimated }
}

fn distinct_values(
    rows: &Vec<RollupRow>,
    dim: RollupDim,
    from: &str,
    until: &str,
    scope: &Option<String>,
) -> (r: Vec<String>)
    ensures
        texts(r@) == values_of(rows@, dim, from@, until@, contents(*scope)),
{
    let ghost s = contents(*scope);
    let mut out: Vec<String> = Vec::new();
    let mut i: usize = 0;
    assert(rows@.take(0) =~= Seq::empty());
    assert(texts(out@) =~= Seq::empty());
    while i < rows.len()
        invariant
            i <= rows@.len(),
            s == contents(*scope),
            texts(out@) == values_of(rows@.take(i as int), dim, from@, until@, s),
        decreases rows.len() - i,
    {
        assert(rows@.take(i + 1).drop_last() =~= rows@.take(i as int));
        let ghost prev = texts(out@);
        let r = &rows[i];
        if does_count(r, from, until, scope) && !list_contains(&out, dim.of(r)) {
            let v = dim.of(r).to_owned();
            let ghost seen = v@;
            out.push(v);
            assert(texts(out@) =~= prev.push(seen));
        }
        i = i + 1;
    }
    assert(rows@.take(rows@.len() as int) =~= rows@);
    out
}

/// One value of a dimension and the amounts of its rows.
#[derive(Debug)]
pub struct DimGroup {
    /// The value; `unknown` where it is blank.
    pub key: String,
    pub amounts: Amounts,
}

/// How a value of a dimension is shown.
pub open spec fn shown_value(v: Seq<char>) -> Seq<char> {
    if v.len() == 0 {
        "unknown"@
    } else {
        v
    }
}

/// The amounts of the rows of some days by a dimension, in the order in which its
/// values first occur.
pub fn by_dimension(
    rows: &Vec<RollupRow>,
    dim: RollupDim,
    from_day: &str,
    until_day: &str,
    scope: &Option<String>,
) -> (r: Vec<DimGroup>)
    ensures
        ({
            let values = values_of(rows@, dim, from_day@, until_day@, contents(*scope));
            &&& r@.len() == values.len()
            &&& forall|i: int|
                0 <= i < r@.len() ==> (#[trigger] r@[i]).key@ == shown_value(values[i])
                    && r@[i].amounts.actual@ == actuals_of(
                    rows@,
                    dim,
                    values[i],
                    from_day@,
                    until_day@,
                    contents(*scope),
                ) && r@[i].amounts.estimated@ == estimates_of(
                    rows@,
                    dim,
                    values[i],
                    from_day@,
                    until_day@,
                    contents(*scope),
                )
        }),
{
    let values = distinct_values(rows, dim, from_day, until_day, scope);
    let ghost all = texts(values@);
    let mut out: Vec<DimGroup> = Vec::new();
    let mut i: usize = 0;
    while i < values.len()
        invariant
            i <= values@.len(),
            all == texts(values@),
            out@.len() == i,
            forall|k: int|
                0 <= k < i ==> (#[trigger] out@[k]).key@ == shown_value(all[k])
                    && out@[k].amounts.actual@ == actuals_of(
                    rows@,
                    dim,
                    all[k],
                    from_day@,
                    until_day@,
                    contents(*scope),
                ) && out@[k].amounts.estimated@ == estimates_of(
                    rows@,
                    dim,
                    all[k],
                    from_day@,
                    until_day@,
                    contents(*scope),
                ),
        decreases values.len() - i,
    {
        let v = values[i].as_str();
        assert(all[i as int] == v@);
        let key = if v.is_empty() {
            "unknown".to_owned()
        } else {
            v.to_owned()
        };
        let amounts = amounts_for(rows, dim, v, from_day, until_day, scope);
        out.push(DimGroup { key, amounts });
        i = i + 1;
    }
    out
}

/// One value of a dimension and its sums.
#[derive(Debug)]
pub struct DimRow {
    pub key: String,
    pub actual_usd: Usd,
    pub estimated_usd: Usd,
}

/// Whether a sum is shown before another: the larger measured one first, and of
/// equal ones the larger estimate.
pub open spec fn dim_before(a: DimRow, b: DimRow) -> bool {
    b.actual_usd.less(a.actual_usd) || (!a.actual_usd.less(b.actual_usd)
        && b.estimated_usd.less(a.estimated_usd))
}

/// The order of sums, by their places.
pub open spec fn by_sum(rows: Seq<DimRow>) -> spec_fn(int, int) -> bool {
    |a: int, b: int| dim_before(rows[a], rows[b])
}

/// The places from zero on.
pub open spec fn all_places(n: nat) -> Seq<int> {
    Seq::new(n, |i: int| i)
}

/// The order in which the sums of a dimension are shown.
pub fn rank_dims(rows: &Vec<DimRow>) -> (r: Vec<usize>)
    ensures
        numbers(r@) == arranged(all_places(rows@.len()), by_sum(rows@)),
        forall|k: int| 0 <= k < r@.len() ==> (#[trigger] r@[k]) < rows@.len(),
{
    let ghost less = by_sum(rows@);
    let mut order: Vec<usize> = Vec::new();
    let mut i: usize = 0;
    assert(numbers(order@) =~= Seq::empty());
    assert(all_places(0) =~= Seq::empty());
    while i < rows.len()
        invariant
            i <= rows@.len(),
            less == by_sum(rows@),
            numbers(order@) == arranged(all_places(i as nat), less),
            forall|k: int| 0 <= k < order@.len() ==> (#[trigger] order@[k]) < i,
        decreases rows.len() - i,
    {
        let mut at: usize = order.len();
        while at > 0 && is_dim_before(&rows[i], &rows[order[at - 1]])
            invariant
                at <= order@.len(),
                i < rows@.len(),
                less == by_sum(rows@),
                forall|k: int| 0 <= k < order@.len() ==> (#[trigger] order@[k]) < i,
                forall|k: int|
                    at <= k < order@.len() ==> less(i as int, #[trigger] numbers(order@)[k]),
            decreases at,
        {
            assert(numbers(order@)[at - 1] == order@[at - 1] as int);
            at = at - 1;
        }
        proof {
            if at > 0 {
                assert(numbers(order@)[at - 1] == order@[at - 1] as int);
            }
            lemma_slot_found(numbers(order@), at as int, i as int, less);
            assert(all_places((i + 1) as nat).drop_last() =~= all_places(i as nat));
        }
        let ghost was = order@;
        put_at(&mut order, at, i);
        proof {
            assert forall|k: int| 0 <= k < order@.len() implies (#[trigger] order@[k]) < i + 1 by {
                if k < at {
                    assert(order@[k] == was[k]);
                } else if k > at {
                    assert(order@[k] == was[k - 1]);
                }
            }
        }
        i = i + 1;
    }
    order
}

/// The sums of a dimension are shown from the largest down, where every one of them
/// is a number.
pub proof fn law_sums_are_in_order(rows: Seq<DimRow>)
    requires
        forall|i: int|
            0 <= i < rows.len() ==> (#[trigger] rows[i]).actual_usd.numeric()
                && rows[i].estimated_usd.numeric(),
    ensures
        in_order(arranged(all_places(rows.len()), by_sum(rows)), by_sum(rows)),
{
    let places = all_places(rows.len());
    let less = by_sum(rows);
    assert forall|a: int| #[trigger] places.contains(a) implies 0 <= a < rows.len()
        && rows[a].actual_usd.numeric() && rows[a].estimated_usd.numeric() by {
        let k = choose|k: int| 0 <= k < places.len() && places[k] == a;
        assert(a == k);
    }
    law_arranged_is_in_order(places, less);
}

fn is_dim_before(a: &DimRow, b: &DimRow) -> (r: bool)
    ensures
        r == dim_before(*a, *b),
{
    b.actual_usd.is_less(&a.actual_usd) || (!a.actual_usd.is_less(&b.actual_usd)
        && b.estimated_usd.is_less(&a.estimated_usd))
}

// ---------------------------------------------------------------------------
// Facts of projects
// ---------------------------------------------------------------------------

/// A project's place in the organisation and its sums over some days.
#[derive(Debug)]
pub struct ProjectFact {
    pub project_id: String,
    pub owner: String,
    pub manager: String,
    pub cost_group: String,
    pub cost_center: String,
    pub classification: String,
    pub mtd_usd: Usd,
    pub estimated_usd: Usd,
}

/// A project's place in the organisation and the amounts of its rows.
#[derive(Debug)]
pub struct ProjectRows {
    pub project_id: String,
    pub owner: String,
    pub manager: String,
    pub cost_group: String,
    pub cost_center: String,
    pub classification: String,
    pub amounts: Amounts,
}

/// The greatest value that a project's rows have in a dimension.
pub open spec fn top_value(
    rows: Seq<RollupRow>,
    dim: RollupDim,
    project_id: Seq<char>,
    from: Seq<char>,
    until: Seq<char>,
    scope: Option<Seq<char>>,
) -> Seq<char>
    decreases rows.len(),
{
    if rows.len() == 0 {
        Seq::empty()
    } else {
        let rest = top_value(rows.drop_last(), dim, project_id, from, until, scope);
        let r = rows.last();
        if counts(r, from, until, scope) && r.project_id@ == project_id {
            later(rest, dim_value(r, dim))
        } else {
            rest
        }
    }
}

fn top_of(
    rows: &Vec<RollupRow>,
    dim: RollupDim,
    project_id: &str,
    from: &str,
    until: &str,
    scope: &Option<String>,
) -> (r: String)
    ensures
        r@ == top_value(rows@, dim, project_id@, from@, until@, contents(*scope)),
{
    let ghost s = contents(*scope);
    let mut top = String::new();
    let mut i: usize = 0;
    assert(rows@.take(0) =~= Seq::empty());
    assert(top@ =~= Seq::empty());
    while i < rows.len()
        invariant
            i <= rows@.len(),
            s == contents(*scope),
            top@ == top_value(rows@.take(i as int), dim, project_id@, from@, until@, s),
        decreases rows.len() - i,
    {
        assert(rows@.take(i + 1).drop_last() =~= rows@.take(i as int));
        let r = &rows[i];
        if does_count(r, from, until, scope) && text_eq(r.project_id.as_str(), project_id) {
            let v = dim.of(r);
            if text_before(top.as_str(), v) {
                top = v.to_owned();
            }
        }
        i = i + 1;
    }
    assert(rows@.take(rows@.len() as int) =~= rows@);
    top
}

/// Whether a fact says what rows hold of a project.
pub open spec fn fact_of(
    f: ProjectRows,
    rows: Seq<RollupRow>,
    project_id: Seq<char>,
    from: Seq<char>,
    until: Seq<char>,
    scope: Option<Seq<char>>,
) -> bool {
    &&& f.project_id@ == project_id
    &&& f.owner@ == top_value(rows, RollupDim::Owner, project_id, from, until, scope)
    &&& f.manager@ == top_value(rows, RollupDim::Manager, project_id, from, until, scope)
    &&& f.cost_group@ == top_value(rows, RollupDim::Group, project_id, from, until, scope)
    &&& f.cost_center@ == top_value(rows, RollupDim::CostCenter, project_id, from, until, scope)
    &&& f.classification@ == top_value(
        rows,
        RollupDim::Classification,
        project_id,
        from,
        until,
        scope,
    )
    &&& f.amounts.actual@ == actuals_of(
        rows,
        RollupDim::Project,
        project_id,
        from,
        until,
        scope,
    )
    &&& f.amounts.estimated@ == estimates_of(
        rows,
        RollupDim::Project,
        project_id,
        from,
        until,
        scope,
    )
}

/// What the rows of some days hold of each project, in the order in which the
/// projects first occur.
pub fn project_facts(
    rows: &Vec<RollupRow>,
    from_day: &str,
    until_day: &str,
    scope: &Option<String>,
) -> (r: Vec<ProjectRows>)
    ensures
        ({
            let projects = values_of(
                rows@,
                RollupDim::Project,
                from_day@,
                until_day@,
                contents(*scope),
            );
            &&& r@.len() == projects.len()
            &&& forall|i: int|
                0 <= i < r@.len() ==> fact_of(
                    #[trigger] r@[i],
                    rows@,
                    projects[i],
                    from_day@,
                    until_day@,
                    contents(*scope),
                )
        }),
{
    let projects = distinct_values(rows, RollupDim::Project, from_day, until_day, scope);
    let ghost all = texts(projects@);
    let mut out: Vec<ProjectRows> = Vec::new();
    let mut i: usize = 0;
    while i < projects.len()
        invariant
            i <= projects@.len(),
            all == texts(projects@),
            out@.len() == i,
            forall|k: int|
                0 <= k < i ==> fact_of(
                    #[trigger] out@[k],
                    rows@,
                    all[k],
                    from_day@,
                    until_day@,
                    contents(*scope),
                ),
        decreases projects.len() - i,
    {
        let p = projects[i].as_str();
        assert(all[i as int] == p@);
        let f = ProjectRows {
            project_id: p.to_owned(),
            owner: top_of(rows, RollupDim::Owner, p, from_day, until_day, scope),
            manager: top_of(rows, RollupDim::Manager, p, from_day, until_day, scope),
            cost_group: top_of(rows, RollupDim::Group, p, from_day, until_day, scope),
            cost_center: top_of(rows, RollupDim::CostCenter, p, from_day, until_day, scope),
            classification: top_of(
                rows,
                RollupDim::Classification,
                p,
                from_day,
                until_day,
                scope,
            ),
            amounts: amounts_for(rows, RollupDim::Project, p, from_day, until_day, scope),
        };
        out.push(f);
        i = i + 1;
    }
    out
}

proof fn lemma_values_visible(
    rows: Seq<RollupRow>,
    dim: RollupDim,
    from: Seq<char>,
    until: Seq<char>,
    scope: Option<Seq<char>>,
    v: Seq<char>,
)
    requires
        values_of(rows, dim, from, until, scope).contains(v),
    ensures
        exists|i: int|
            0 <= i < rows.len() && counts(#[trigger] rows[i], from, until, scope) && dim_value(
                rows[i],
                dim,
            ) == v,
    decreases rows.len(),
{
    if rows.len() > 0 {
        let t = rows.drop_last();
        let rest = values_of(t, dim, from, until, scope);
        let all = values_of(rows, dim, from, until, scope);
        let k = choose|k: int| 0 <= k < all.len() && all[k] == v;
        if rest.contains(v) {
            lemma_values_visible(t, dim, from, until, scope, v);
            let i = choose|i: int|
                0 <= i < t.len() && counts(#[trigger] t[i], from, until, scope) && dim_value(
                    t[i],
                    dim,
                ) == v;
            assert(rows[i] == t[i]);
        } else {
            if k < rest.len() {
                assert(rest[k] == v);
            }
            assert(rows[rows.len() - 1] == rows.last());
        }
    }
}

/// A reader with a scope is told of a project only where a row of it is the
/// reader's own to see.
pub proof fn law_scope_hides_other_projects(
    rows: Seq<RollupRow>,
    from: Seq<char>,
    until: Seq<char>,
    reader: Seq<char>,
    project_id: Seq<char>,
)
    requires
        values_of(rows, RollupDim::Project, from, until, Some(reader)).contains(project_id),
    ensures
        exists|i: int|
            0 <= i < rows.len() && (#[trigger] rows[i]).project_id@ == project_id && (
            rows[i].owner@ == reader || rows[i].manager@ == reader),
{
    lemma_values_visible(rows, RollupDim::Project, from, until, Some(reader), project_id);
    let i = choose|i: int|
        0 <= i < rows.len() && counts(#[trigger] rows[i], from, until, Some(reader)) && dim_value(
            rows[i],
            RollupDim::Project,
        ) == project_id;
    assert(rows[i].project_id@ == project_id);
}

// ---------------------------------------------------------------------------
// History for forecasts and anomalies
// ---------------------------------------------------------------------------

/// The measured amounts of a source before a day, in order: what the day is held
/// against.
pub open spec fn history_of(rows: Seq<RollupRow>, source: Seq<char>, day: Seq<char>) -> Seq<Usd>
    decreases rows.len(),
{
    if rows.len() == 0 {
        Seq::empty()
    } else {
        let rest = history_of(rows.drop_last(), source, day);
        let r = rows.last();
        match r.actual_usd {
            Some(a) => if r.source@ == source && before(r.day@, day) {
                rest.push(a)
            } else {
                rest
            },
            None => rest,
        }
    }
}

/// The measured amounts of a source before a day.
pub fn history(rows: &Vec<RollupRow>, source: &str, day: &str) -> (r: Vec<Usd>)
    ensures
        r@ == history_of(rows@, source@, day@),
{
    let mut out: Vec<Usd> = Vec::new();
    let mut i: usize = 0;
    assert(rows@.take(0) =~= Seq::empty());
    while i < rows.len()
        invariant
            i <= rows@.len(),
            out@ == history_of(rows@.take(i as int), source@, day@),
        decreases rows.len() - i,
    {
        assert(rows@.take(i + 1).drop_last() =~= rows@.take(i as int));
        let r = &rows[i];
        match r.actual_usd {
            Some(a) => {
                if text_eq(r.source.as_str(), source) && text_before(r.day.as_str(), day) {
                    out.push(a);
                }
            },
            None => {},
        }
        i = i + 1;
    }
    assert(rows@.take(rows@.len() as int) =~= rows@);
    out
}

/// Whether there is enough of a history to speak of: three days.
pub fn is_enough(days: usize) -> (r: bool)
    ensures
        r == (days >= 3),
{
    days >= 3
}

/// The measured amounts from a day on, by day.
pub open spec fn amounts_by_day(rows: Seq<RollupRow>, start: Seq<char>) -> Map<
    Seq<char>,
    Seq<Usd>,
>
    decreases rows.len(),
{
    if rows.len() == 0 {
        Map::empty()
    } else {
        let rest = amounts_by_day(rows.drop_last(), start);
        let r = rows.last();
        match r.actual_usd {
            Some(a) => if !before(r.day@, start) {
                rest.insert(
                    r.day@,
                    if rest.contains_key(r.day@) {
                        rest[r.day@].push(a)
                    } else {
                        seq![a]
                    },
                )
            } else {
                rest
            },
            None => rest,
        }
    }
}

/// A map of lists by their contents.
pub open spec fn lists(m: Map<Seq<char>, Vec<Usd>>) -> Map<Seq<char>, Seq<Usd>> {
    m.map_values(|v: Vec<Usd>| v@)
}

/// Adds an amount to the list under a key.
pub fn add_amount(m: &mut SortedMap<Vec<Usd>>, key: &str, a: Usd)
    ensures
        lists(final(m)@) == lists(old(m)@).insert(
            key@,
            if old(m)@.contains_key(key@) {
                old(m)@[key@]@.push(a)
            } else {
                seq![a]
            },
        ),
{
    let ghost was = m@;
    let mut list: Vec<Usd> = Vec::new();
    match m.get(key) {
        Some(v) => {
            let mut i: usize = 0;
            while i < v.len()
                invariant
                    i <= v@.len(),
                    list@ == v@.take(i as int),
                decreases v.len() - i,
            {
                list.push(v[i]);
                i = i + 1;
                assert(list@ =~= v@.take(i as int));
            }
            assert(v@.take(v@.len() as int) =~= v@);
        },
        None => {},
    }
    list.push(a);
    let ghost full = list;
    m.insert(key, list);
    proof {
        assert(lists(was.insert(key@, full)) =~= lists(was).insert(key@, full@));
        if !was.contains_key(key@) {
            assert(full@ =~= seq![a]);
        }
    }
}

/// The measured amounts from the start of a month on, by day in order: what a
/// forecast is fitted to.
pub fn per_day(rows: &Vec<RollupRow>, month_start: &str) -> (r: SortedMap<Vec<Usd>>)
    ensures
        lists(r@) == amounts_by_day(rows@, month_start@),
{
    let mut m: SortedMap<Vec<Usd>> = SortedMap::new();
    let mut i: usize = 0;
    assert(rows@.take(0) =~= Seq::empty());
    assert(lists(m@) =~= Map::empty());
    while i < rows.len()
        invariant
            i <= rows@.len(),
            lists(m@) == amounts_by_day(rows@.take(i as int), month_start@),
        decreases rows.len() - i,
    {
        assert(rows@.take(i + 1).drop_last() =~= rows@.take(i as int));
        let r = &rows[i];
        match r.actual_usd {
            Some(a) => {
                if !text_before(r.day.as_str(), month_start) {
                    assert(m@.contains_key(r.day@) == lists(m@).contains_key(r.day@));
                    add_amount(&mut m, r.day.as_str(), a);
                }
            },
            None => {},
        }
        i = i + 1;
    }
    assert(rows@.take(rows@.len() as int) =~= rows@);
    m
}

// ---------------------------------------------------------------------------
// Forecasts and anomalies on record
// ---------------------------------------------------------------------------

/// The place of a project's latest forecast.
pub open spec fn newest_forecast(rows: Seq<ForecastRow>, project_id: Seq<char>) -> Option<int>
    decreases rows.len(),
{
    if rows.len() == 0 {
        None
    } else {
        let rest = newest_forecast(rows.drop_last(), project_id);
        if rows.last().project_id@ == project_id && match rest {
            Some(k) => before(rows[k].as_of_day@, rows.last().as_of_day@),
            None => true,
        } {
            Some(rows.len() - 1)
        } else {
            rest
        }
    }
}

/// The place of a project's latest forecast.
pub fn latest_forecast(rows: &Vec<ForecastRow>, project_id: &str) -> (r: Option<usize>)
    ensures
        match r {
            Some(k) => k < rows@.len() && newest_forecast(rows@, project_id@) == Some(k as int),
            None => newest_forecast(rows@, project_id@) is None,
        },
{
    let mut best: Option<usize> = None;
    let mut i: usize = 0;
    assert(rows@.take(0) =~= Seq::empty());
    while i < rows.len()
        invariant
            i <= rows@.len(),
            match best {
                Some(k) => k < i && newest_forecast(rows@.take(i as int), project_id@) == Some(
                    k as int,
                ),
                None => newest_forecast(rows@.take(i as int), project_id@) is None,
            },
        decreases rows.len() - i,
    {
        assert(rows@.take(i + 1).drop_last() =~= rows@.take(i as int));
        if text_eq(rows[i].project_id.as_str(), project_id) {
            match best {
                Some(k) => {
                    if text_before(rows[k].as_of_day.as_str(), rows[i].as_of_day.as_str()) {
                        best = Some(i);
                    }
                },
                None => {
                    best = Some(i);
                },
            }
        }
        i = i + 1;
    }
    assert(rows@.take(rows@.len() as int) =~= rows@);
    best
}

/// Forecasts with one written.
pub open spec fn forecast_written(rows: Seq<ForecastRow>, f: ForecastRow) -> Seq<ForecastRow> {
    put_by(
        rows,
        f,
        |a: ForecastRow, b: ForecastRow|
            a.project_id@ == b.project_id@ && a.as_of_day@ == b.as_of_day@,
    )
}

/// Writes a forecast: a second one of the same day overwrites the first.
pub fn write_forecast(rows: &mut Vec<ForecastRow>, f: ForecastRow)
    ensures
        final(rows)@ == forecast_written(old(rows)@, f),
{
    let mut i: usize = 0;
    let ghost was = rows@;
    let ghost same = |a: ForecastRow, b: ForecastRow|
        a.project_id@ == b.project_id@ && a.as_of_day@ == b.as_of_day@;
    while i < rows.len()
        invariant
            i <= rows@.len(),
            rows@ == was,
            was == old(rows)@,
            same == (|a: ForecastRow, b: ForecastRow|
                a.project_id@ == b.project_id@ && a.as_of_day@ == b.as_of_day@),
            forall|k: int| 0 <= k < i ==> !same(#[trigger] was[k], f),
        decreases rows.len() - i,
    {
        if text_eq(rows[i].project_id.as_str(), f.project_id.as_str()) && text_eq(
            rows[i].as_of_day.as_str(),
            f.as_of_day.as_str(),
        ) {
            proof {
                lemma_put_by(was, f, same, i as int);
            }
            rows[i] = f;
            return ;
        }
        i = i + 1;
    }
    proof {
        lemma_put_by(was, f, same, i as int);
    }
    rows.push(f);
}

/// Anomalies with one recorded.
pub open spec fn anomaly_written(all: Seq<AnomalyRow>, a: AnomalyRow) -> Seq<AnomalyRow> {
    put_by(
        all,
        a,
        |x: AnomalyRow, y: AnomalyRow|
            x.project_id@ == y.project_id@ && x.day@ == y.day@ && x.service@ == y.service@,
    )
}

/// Records an anomaly: a second one of the same project, day and service
/// overwrites the first.
pub fn record_anomaly(all: &mut Vec<AnomalyRow>, a: AnomalyRow)
    ensures
        final(all)@ == anomaly_written(old(all)@, a),
{
    let mut i: usize = 0;
    let ghost was = all@;
    let ghost same = |x: AnomalyRow, y: AnomalyRow|
        x.project_id@ == y.project_id@ && x.day@ == y.day@ && x.service@ == y.service@;
    while i < all.len()
        invariant
            i <= all@.len(),
            all@ == was,
            was == old(all)@,
            same == (|x: AnomalyRow, y: AnomalyRow|
                x.project_id@ == y.project_id@ && x.day@ == y.day@ && x.service@ == y.service@),
            forall|k: int| 0 <= k < i ==> !same(#[trigger] was[k], a),
        decreases all.len() - i,
    {
        if text_eq(all[i].project_id.as_str(), a.project_id.as_str()) && text_eq(
            all[i].day.as_str(),
            a.day.as_str(),
        ) && text_eq(all[i].service.as_str(), a.service.as_str()) {
            proof {
                lemma_put_by(was, a, same, i as int);
            }
            all[i] = a;
            return ;
        }
        i = i + 1;
    }
    proof {
        lemma_put_by(was, a, same, i as int);
    }
    all.push(a);
}

/// Whether a reader may be told of an anomaly: a reader with a scope only where
/// the rollup has a row of that project that the reader owns or manages.
pub open spec fn anomaly_shown(
    a: AnomalyRow,
    rows: Seq<RollupRow>,
    project_id: Option<Seq<char>>,
    scope: Option<Seq<char>>,
) -> bool {
    &&& project_id matches Some(p) ==> a.project_id@ == p
    &&& scope is Some ==> exists|i: int|
        0 <= i < rows.len() && (#[trigger] rows[i]).project_id@ == a.project_id@ && visible(
            rows[i],
            scope,
        )
}

/// Whether a reader may be told of an anomaly.
pub fn is_anomaly_shown(
    a: &AnomalyRow,
    rows: &Vec<RollupRow>,
    project_id: Option<&str>,
    scope: &Option<String>,
) -> (r: bool)
    ensures
        r == anomaly_shown(
            *a,
            rows@,
            contents_ref(project_id),
            contents(*scope),
        ),
{
    match project_id {
        Some(p) => {
            if !text_eq(a.project_id.as_str(), p) {
                return false;
            }
        },
        None => {},
    }
    if scope.is_none() {
        return true;
    }
    let mut i: usize = 0;
    while i < rows.len()
        invariant
            i <= rows@.len(),
            contents_ref(project_id) matches Some(p) ==> a.project_id@ == p,
            scope is Some,
            forall|k: int|
                0 <= k < i ==> !((#[trigger] rows@[k]).project_id@ == a.project_id@ && visible(
                    rows@[k],
                    contents(*scope),
                )),
        decreases rows.len() - i,
    {
        if text_eq(rows[i].project_id.as_str(), a.project_id.as_str()) && is_visible(
            &rows[i],
            scope,
        ) {
            assert(rows@[i as int].project_id@ == a.project_id@);
            return true;
        }
        i = i + 1;
    }
    false
}

/// Whether an anomaly is told before another: the later day first, and of one day
/// the one recorded later.
pub open spec fn newer(a: AnomalyRow, b: AnomalyRow) -> bool {
    before(b.day@, a.day@) || (a.day@ == b.day@ && before(b.created_at@, a.created_at@))
}

fn is_newer(a: &AnomalyRow, b: &AnomalyRow) -> (r: bool)
    ensures
        r == newer(*a, *b),
{
    text_before(b.day.as_str(), a.day.as_str()) || (text_eq(a.day.as_str(), b.day.as_str())
        && text_before(b.created_at.as_str(), a.created_at.as_str()))
}

/// The order of anomalies, by their places.
pub open spec fn by_newness(all: Seq<AnomalyRow>) -> spec_fn(int, int) -> bool {
    |a: int, b: int| newer(all[a], all[b])
}

/// The places of the anomalies that a reader may be told of.
pub open spec fn shown_anomalies(
    all: Seq<AnomalyRow>,
    rows: Seq<RollupRow>,
    project_id: Option<Seq<char>>,
    scope: Option<Seq<char>>,
) -> Seq<int>
    decreases all.len(),
{
    if all.len() == 0 {
        Seq::empty()
    } else {
        let rest = shown_anomalies(all.drop_last(), rows, project_id, scope);
        if anomaly_shown(all.last(), rows, project_id, scope) {
            rest.push(all.len() - 1)
        } else {
            rest
        }
    }
}

proof fn lemma_newness(a: AnomalyRow, b: AnomalyRow, c: AnomalyRow)
    ensures
        newer(a, b) ==> !newer(b, a),
        !newer(b, a) && !newer(c, b) ==> !newer(c, a),
{
    lemma_before_irreflexive(a.day@);
    lemma_before_irreflexive(a.created_at@);
    lemma_before_total(a.day@, b.day@);
    lemma_before_total(b.day@, c.day@);
    lemma_before_total(a.created_at@, b.created_at@);
    lemma_before_total(b.created_at@, c.created_at@);
    if before(a.day@, b.day@) && before(b.day@, a.day@) {
        lemma_before_transitive(a.day@, b.day@, a.day@);
    }
    if before(a.created_at@, b.created_at@) && before(b.created_at@, a.created_at@) {
        lemma_before_transitive(a.created_at@, b.created_at@, a.created_at@);
    }
    if newer(c, a) {
        if before(a.day@, c.day@) {
            if before(c.day@, b.day@) {
                lemma_before_transitive(a.day@, c.day@, b.day@);
            }
            if before(b.day@, c.day@) && before(c.day@, b.day@) {
                lemma_before_transitive(b.day@, c.day@, b.day@);
                lemma_before_irreflexive(b.day@);
            }
        } else {
            if before(a.created_at@, c.created_at@) && before(c.created_at@, b.created_at@) {
                lemma_before_transitive(a.created_at@, c.created_at@, b.created_at@);
            }
        }
    }
}

/// Anomalies are told newest first, however many of them.
pub proof fn law_anomalies_are_newest_first(
    all: Seq<AnomalyRow>,
    rows: Seq<RollupRow>,
    project_id: Option<Seq<char>>,
    scope: Option<Seq<char>>,
    limit: nat,
)
    ensures
        in_order(
            at_most(
                arranged(shown_anomalies(all, rows, project_id, scope), by_newness(all)),
                limit as int,
            ),
            by_newness(all),
        ),
{
    let places = shown_anomalies(all, rows, project_id, scope);
    let less = by_newness(all);
    assert(orders(places, less)) by {
        assert forall|a: int, b: int| #[trigger] less(a, b) implies !less(b, a) by {
            lemma_newness(all[a], all[b], all[a]);
        }
        assert forall|a: int, b: int, c: int|
            !(#[trigger] less(b, a)) && !(#[trigger] less(c, b)) implies !less(c, a) by {
            lemma_newness(all[a], all[b], all[c]);
        }
    }
    law_arranged_is_in_order(places, less);
    lemma_at_most_in_order(arranged(places, less), limit as int, less);
}

/// The places of the anomalies that a reader is told of, newest first and no more
/// than the limit.
pub fn anomalies(
    all: &Vec<AnomalyRow>,
    rows: &Vec<RollupRow>,
    project_id: Option<&str>,
    scope: &Option<String>,
    limit: usize,
) -> (r: Vec<usize>)
    ensures
        numbers(r@) == at_most(
            arranged(
                shown_anomalies(
                    all@,
                    rows@,
                    contents_ref(project_id),
                    contents(*scope),
                ),
                by_newness(all@),
            ),
            limit as int,
        ),
        forall|k: int| 0 <= k < r@.len() ==> (#[trigger] r@[k]) < all@.len(),
{
    let ghost less = by_newness(all@);
    let ghost p = contents_ref(project_id);
    let ghost s = contents(*scope);
    let mut order: Vec<usize> = Vec::new();
    let mut i: usize = 0;
    assert(all@.take(0) =~= Seq::empty());
    assert(numbers(order@) =~= Seq::empty());
    while i < all.len()
        invariant
            i <= all@.len(),
            less == by_newness(all@),
            p == contents_ref(project_id),
            s == contents(*scope),
            numbers(order@) == arranged(shown_anomalies(all@.take(i as int), rows@, p, s), less),
            forall|k: int| 0 <= k < order@.len() ==> (#[trigger] order@[k]) < i,
        decreases all.len() - i,
    {
        let ghost found = shown_anomalies(all@.take(i as int), rows@, p, s);
        assert(all@.take(i + 1).drop_last() =~= all@.take(i as int));
        if is_anomaly_shown(&all[i], rows, project_id, scope) {
            let mut at: usize = order.len();
            while at > 0 && is_newer(&all[i], &all[order[at - 1]])
                invariant
                    at <= order@.len(),
                    i < all@.len(),
                    less == by_newness(all@),
                    forall|k: int| 0 <= k < order@.len() ==> (#[trigger] order@[k]) < i,
                    forall|k: int|
                        at <= k < order@.len() ==> less(i as int, #[trigger] numbers(order@)[k]),
                decreases at,
            {
                assert(numbers(order@)[at - 1] == order@[at - 1] as int);
                at = at - 1;
            }
            proof {
                if at > 0 {
                    assert(numbers(order@)[at - 1] == order@[at - 1] as int);
                }
                lemma_slot_found(numbers(order@), at as int, i as int, less);
                assert(found.push(i as int).drop_last() =~= found);
            }
            let ghost was = order@;
            put_at(&mut order, at, i);
            proof {
                assert forall|k: int| 0 <= k < order@.len() implies (#[trigger] order@[k])
                    < i + 1 by {
                    if k < at {
                        assert(order@[k] == was[k]);
                    } else if k > at {
                        assert(order@[k] == was[k - 1]);
                    }
                }
            }
        }
        i = i + 1;
    }
    assert(all@.take(all@.len() as int) =~= all@);
    keep_first(order, limit)
}

/// The amounts of a group are those of its rows: the measured ones are exactly the
/// measured amounts of the rows that lie in the range, that the reader may see and that
/// have the group's value, one for each such row that has one, in order; and the
/// estimates are those of the same rows.
pub proof fn law_group_holds_the_amounts_of_its_rows(
    rows: Seq<RollupRow>,
    dim: RollupDim,
    value: Seq<char>,
    from: Seq<char>,
    until: Seq<char>,
    scope: Option<Seq<char>>,
)
    ensures
        actuals_of(rows, dim, value, from, until, scope) == rows.filter(
            |r: RollupRow|
                r.actual_usd is Some && !before(r.day@, from) && !before(until, r.day@) && (match scope {
                    Some(reader) => r.owner@ == reader || r.manager@ == reader,
                    None => true,
                }) && (match dim {
                    RollupDim::Project => r.project_id@,
                    RollupDim::Owner => r.owner@,
                    RollupDim::Manager => r.manager@,
                    RollupDim::Group => r.cost_group@,
                    RollupDim::CostCenter => r.cost_center@,
                    RollupDim::Classification => r.classification@,
                    RollupDim::Service => r.service@,
                }) == value,
        ).map_values(|r: RollupRow| r.actual_usd->0),
        actuals_of(rows, dim, value, from, until, scope).to_multiset() == rows.filter(
            |r: RollupRow|
                r.actual_usd is Some && !before(r.day@, from) && !before(until, r.day@) && (match scope {
                    Some(reader) => r.owner@ == reader || r.manager@ == reader,
                    None => true,
                }) && (match dim {
                    RollupDim::Project => r.project_id@,
                    RollupDim::Owner => r.owner@,
                    RollupDim::Manager => r.manager@,
                    RollupDim::Group => r.cost_group@,
                    RollupDim::CostCenter => r.cost_center@,
                    RollupDim::Classification => r.classification@,
                    RollupDim::Service => r.service@,
                }) == value,
        ).map_values(|r: RollupRow| r.actual_usd->0).to_multiset(),
        estimates_of(rows, dim, value, from, until, scope) == rows.filter(
            |r: RollupRow|
                !before(r.day@, from) && !before(until, r.day@) && (match scope {
                    Some(reader) => r.owner@ == reader || r.manager@ == reader,
                    None => true,
                }) && (match dim {
                    RollupDim::Project => r.project_id@,
                    RollupDim::Owner => r.owner@,
                    RollupDim::Manager => r.manager@,
                    RollupDim::Group => r.cost_group@,
                    RollupDim::CostCenter => r.cost_center@,
                    RollupDim::Classification => r.classification@,
                    RollupDim::Service => r.service@,
                }) == value,
        ).map_values(|r: RollupRow| r.estimated_usd),
    decreases rows.len(),
{
    reveal(Seq::filter);
    let f = |r: RollupRow|
        r.actual_usd is Some && !before(r.day@, from) && !before(until, r.day@) && (match scope {
                    Some(reader) => r.owner@ == reader || r.manager@ == reader,
                    None => true,
                }) && (match dim {
                    RollupDim::Project => r.project_id@,
                    RollupDim::Owner => r.owner@,
                    RollupDim::Manager => r.manager@,
                    RollupDim::Group => r.cost_group@,
                    RollupDim::CostCenter => r.cost_center@,
                    RollupDim::Classification => r.classification@,
                    RollupDim::Service => r.service@,
                }) == value;
    let g = |r: RollupRow| r.actual_usd->0;
    let e = |r: RollupRow|
        !before(r.day@, from) && !before(until, r.day@) && (match scope {
                    Some(reader) => r.owner@ == reader || r.manager@ == reader,
                    None => true,
                }) && (match dim {
                    RollupDim::Project => r.project_id@,
                    RollupDim::Owner => r.owner@,
                    RollupDim::Manager => r.manager@,
                    RollupDim::Group => r.cost_group@,
                    RollupDim::CostCenter => r.cost_center@,
                    RollupDim::Classification => r.classification@,
                    RollupDim::Service => r.service@,
                }) == value;
    let h = |r: RollupRow| r.estimated_usd;
    if rows.len() > 0 {
        let t = rows.drop_last();
        law_group_holds_the_amounts_of_its_rows(t, dim, value, from, until, scope);
        let last = rows.last();
        assert(t.filter(f).push(last).map_values(g) =~= t.filter(f).map_values(g).push(g(last)));
        assert(t.filter(e).push(last).map_values(h) =~= t.filter(e).map_values(h).push(h(last)));
    }
    assert(actuals_of(rows, dim, value, from, until, scope) =~= rows.filter(f).map_values(g));
    assert(estimates_of(rows, dim, value, from, until, scope) =~= rows.filter(e).map_values(h));
}

/// The figures that a source reported for the month so far move no group: two lists of
/// rows that differ in those alone have the same groups with the same amounts.
pub proof fn law_cumulative_figures_move_nothing(
    rows: Seq<RollupRow>,
    other: Seq<RollupRow>,
    dim: RollupDim,
    value: Seq<char>,
    from: Seq<char>,
    until: Seq<char>,
    scope: Option<Seq<char>>,
)
    requires
        rows.len() == other.len(),
        forall|i: int|
            0 <= i < rows.len() ==> #[trigger] other[i] == (RollupRow {
                cumulative_usd: other[i].cumulative_usd,
                ..rows[i]
            }),
    ensures
        values_of(rows, dim, from, until, scope) == values_of(other, dim, from, until, scope),
        actuals_of(rows, dim, value, from, until, scope) == actuals_of(
            other,
            dim,
            value,
            from,
            until,
            scope,
        ),
        estimates_of(rows, dim, value, from, until, scope) == estimates_of(
            other,
            dim,
            value,
            from,
            until,
            scope,
        ),
        top_value(rows, dim, value, from, until, scope) == top_value(
            other,
            dim,
            value,
            from,
            until,
            scope,
        ),
    decreases rows.len(),
{
    if rows.len() > 0 {
        let t = rows.drop_last();
        let u = other.drop_last();
        assert forall|i: int| 0 <= i < t.len() implies #[trigger] u[i] == (RollupRow {
            cumulative_usd: u[i].cumulative_usd,
            ..t[i]
        }) by {
            assert(other[i] == (RollupRow { cumulative_usd: other[i].cumulative_usd, ..rows[i] }));
        }
        assert(other[rows.len() - 1] == (RollupRow {
            cumulative_usd: other[rows.len() - 1].cumulative_usd,
            ..rows[rows.len() - 1]
        }));
        law_cumulative_figures_move_nothing(t, u, dim, value, from, until, scope);
    }
}

/// There is a group for exactly the values that rows in the range have and the reader may
/// see, and one for each.
pub proof fn law_groups_are_those_of_the_rows(
    rows: Seq<RollupRow>,
    dim: RollupDim,
    from: Seq<char>,
    until: Seq<char>,
    scope: Option<Seq<char>>,
)
    ensures
        values_of(rows, dim, from, until, scope).no_duplicates(),
        forall|value: Seq<char>| #[trigger]
            values_of(rows, dim, from, until, scope).contains(value) <==> exists|i: int|
                0 <= i < rows.len() && !before((#[trigger] rows[i]).day@, from) && !before(
                    until,
                    rows[i].day@,
                ) && (match scope {
                    Some(reader) => rows[i].owner@ == reader || rows[i].manager@ == reader,
                    None => true,
                }) && value == (match dim {
                    RollupDim::Project => rows[i].project_id@,
                    RollupDim::Owner => rows[i].owner@,
                    RollupDim::Manager => rows[i].manager@,
                    RollupDim::Group => rows[i].cost_group@,
                    RollupDim::CostCenter => rows[i].cost_center@,
                    RollupDim::Classification => rows[i].classification@,
                    RollupDim::Service => rows[i].service@,
                }),
{
    lemma_values_once(rows, dim, from, until, scope);
    let all = values_of(rows, dim, from, until, scope);
    assert forall|value: Seq<char>| #[trigger] all.contains(value) implies exists|i: int|
        0 <= i < rows.len() && counts(#[trigger] rows[i], from, until, scope) && dim_value(
            rows[i],
            dim,
        ) == value by {
        lemma_values_visible(rows, dim, from, until, scope, value);
    }
}

proof fn lemma_values_once(
    rows: Seq<RollupRow>,
    dim: RollupDim,
    from: Seq<char>,
    until: Seq<char>,
    scope: Option<Seq<char>>,
)
    ensures
        values_of(rows, dim, from, until, scope).no_duplicates(),
        forall|i: int|
            0 <= i < rows.len() && counts(#[trigger] rows[i], from, until, scope) ==> values_of(
                rows,
                dim,
                from,
                until,
                scope,
            ).contains(dim_value(rows[i], dim)),
    decreases rows.len(),
{
    if rows.len() > 0 {
        let t = rows.drop_last();
        lemma_values_once(t, dim, from, until, scope);
        let rest = values_of(t, dim, from, until, scope);
        let all = values_of(rows, dim, from, until, scope);
        let v = dim_value(rows.last(), dim);
        assert forall|i: int, j: int| 0 <= i < j < all.len() implies all[i] != all[j] by {
            if j == rest.len() {
                assert(rest.contains(rest[i]));
            }
        }
        assert forall|i: int|
            0 <= i < rows.len() && counts(#[trigger] rows[i], from, until, scope) implies all.contains(
            dim_value(rows[i], dim),
        ) by {
            if i < t.len() {
                assert(t[i] == rows[i]);
                let k = choose|k: int| 0 <= k < rest.len() && rest[k] == dim_value(rows[i], dim);
                assert(all[k] == dim_value(rows[i], dim));
            } else if rest.contains(v) {
                assert(all == rest);
            } else {
                assert(all[rest.len() as int] == v);
            }
        }
    }
}

/// A project's place in the organisation is told by its rows in the range that the reader
/// may see: it is the greatest text that they hold, one of theirs, or blank where there
/// is no such row.
pub proof fn law_place_is_the_greatest_of_the_rows(
    rows: Seq<RollupRow>,
    dim: RollupDim,
    project_id: Seq<char>,
    from: Seq<char>,
    until: Seq<char>,
    scope: Option<Seq<char>>,
)
    ensures
        ({
            let top = top_value(rows, dim, project_id, from, until, scope);
            let held = |r: RollupRow|
                match dim {
                    RollupDim::Project => r.project_id@,
                    RollupDim::Owner => r.owner@,
                    RollupDim::Manager => r.manager@,
                    RollupDim::Group => r.cost_group@,
                    RollupDim::CostCenter => r.cost_center@,
                    RollupDim::Classification => r.classification@,
                    RollupDim::Service => r.service@,
                };
            let seen = |r: RollupRow|
                r.project_id@ == project_id && !before(r.day@, from) && !before(until, r.day@) && (
                match scope {
                    Some(reader) => r.owner@ == reader || r.manager@ == reader,
                    None => true,
                });
            &&& forall|i: int|
                0 <= i < rows.len() && seen(#[trigger] rows[i]) ==> !before(top, held(rows[i]))
            &&& top.len() == 0 || exists|i: int|
                0 <= i < rows.len() && seen(#[trigger] rows[i]) && held(rows[i]) == top
        }),
    decreases rows.len(),
{
    let top = top_value(rows, dim, project_id, from, until, scope);
    if rows.len() > 0 {
        let t = rows.drop_last();
        let rest = top_value(t, dim, project_id, from, until, scope);
        let last = rows.last();
        let v = dim_value(last, dim);
        law_place_is_the_greatest_of_the_rows(t, dim, project_id, from, until, scope);
        let mine = |r: RollupRow| counts(r, from, until, scope) && r.project_id@ == project_id;
        lemma_text_order(rest, v, rest);
        assert forall|i: int| 0 <= i < rows.len() && mine(#[trigger] rows[i]) implies !before(
            top,
            dim_value(rows[i], dim),
        ) by {
            if i < t.len() {
                assert(t[i] == rows[i]);
                assert(!before(rest, dim_value(t[i], dim)));
                if mine(last) {
                    lemma_text_order(rest, v, dim_value(rows[i], dim));
                }
            } else {
                lemma_text_order(v, rest, v);
            }
        }
        if top.len() > 0 && top == rest {
            let i = choose|i: int|
                0 <= i < t.len() && mine(#[trigger] t[i]) && dim_value(t[i], dim) == rest;
            assert(mine(rows[i]) && dim_value(rows[i], dim) == top);
        } else if top.len() > 0 {
            assert(mine(rows[rows.len() - 1]) && dim_value(rows[rows.len() - 1], dim) == top);
        }
    }
}

/// What a day is held against is what its source measured on the days before it, one
/// amount for each such row, in order.
pub proof fn law_history_is_of_the_days_before(
    rows: Seq<RollupRow>,
    source: Seq<char>,
    day: Seq<char>,
)
    ensures
        history_of(rows, source, day) == rows.filter(
            |r: RollupRow| r.actual_usd is Some && r.source@ == source && before(r.day@, day),
        ).map_values(|r: RollupRow| r.actual_usd->0),
    decreases rows.len(),
{
    reveal(Seq::filter);
    let f = |r: RollupRow| r.actual_usd is Some && r.source@ == source && before(r.day@, day);
    let g = |r: RollupRow| r.actual_usd->0;
    if rows.len() > 0 {
        let t = rows.drop_last();
        law_history_is_of_the_days_before(t, source, day);
        let last = rows.last();
        assert(t.filter(f).push(last).map_values(g) =~= t.filter(f).map_values(g).push(g(last)));
    }
    assert(history_of(rows, source, day) =~= rows.filter(f).map_values(g));
}

/// The amounts from a day on are told by their own days: each day that something was
/// measured on has all that was measured on it, in order, and no other day has any.
pub proof fn law_days_hold_their_own_amounts(
    rows: Seq<RollupRow>,
    start: Seq<char>,
    day: Seq<char>,
)
    ensures
        ({
            let own = rows.filter(
                |r: RollupRow| r.actual_usd is Some && r.day@ == day && !before(r.day@, start),
            ).map_values(|r: RollupRow| r.actual_usd->0);
            &&& amounts_by_day(rows, start).contains_key(day) <==> own.len() > 0
            &&& own.len() > 0 ==> amounts_by_day(rows, start)[day] == own
        }),
    decreases rows.len(),
{
    reveal(Seq::filter);
    let f = |r: RollupRow| r.actual_usd is Some && r.day@ == day && !before(r.day@, start);
    let g = |r: RollupRow| r.actual_usd->0;
    if rows.len() > 0 {
        let t = rows.drop_last();
        law_days_hold_their_own_amounts(t, start, day);
        let last = rows.last();
        assert(t.filter(f).push(last).map_values(g) =~= t.filter(f).map_values(g).push(g(last)));
        if f(last) {
            let own = t.filter(f).map_values(g);
            assert(own.len() == 0 ==> own.push(g(last)) =~= seq![g(last)]);
        }
    }
}

/// The figure that a day is measured against is the latest before it: of the same
/// project, service and source, with a figure, on an earlier day, and no such row is of a
/// later day. None is found only where there is none.
pub proof fn law_latest_figure_is_found(
    rows: Seq<RollupRow>,
    project_id: Seq<char>,
    service: Seq<char>,
    source: Seq<char>,
    day: Seq<char>,
)
    ensures
        ({
            let fits = |r: RollupRow|
                r.project_id@ == project_id && r.service@ == service && r.source@ == source
                    && r.cumulative_usd is Some && before(r.day@, day);
            match latest_before(rows, project_id, service, source, day) {
                Some(k) => {
                    &&& 0 <= k < rows.len()
                    &&& fits(rows[k])
                    &&& forall|i: int|
                        0 <= i < rows.len() && fits(#[trigger] rows[i]) ==> !before(
                            rows[k].day@,
                            rows[i].day@,
                        )
                    &&& forall|i: int|
                        0 <= i < k && fits(#[trigger] rows[i]) ==> before(rows[i].day@, rows[k].day@)
                },
                None => forall|i: int| 0 <= i < rows.len() ==> !fits(#[trigger] rows[i]),
            }
        }),
    decreases rows.len(),
{
    if rows.len() > 0 {
        let t = rows.drop_last();
        let last = rows.last();
        let fits = |r: RollupRow|
            r.project_id@ == project_id && r.service@ == service && r.source@ == source
                && r.cumulative_usd is Some && before(r.day@, day);
        law_latest_figure_is_found(t, project_id, service, source, day);
        assert forall|i: int| 0 <= i < t.len() implies rows[i] == #[trigger] t[i] by {}
        match latest_before(t, project_id, service, source, day) {
            Some(k) => {
                let now = latest_before(rows, project_id, service, source, day)->0;
                assert(rows[k] == t[k]);
                lemma_text_order(rows[k].day@, last.day@, rows[k].day@);
                lemma_before_irreflexive(last.day@);
                assert forall|i: int| 0 <= i < rows.len() && fits(#[trigger] rows[i]) implies !before(
                    rows[now].day@,
                    rows[i].day@,
                ) by {
                    if i < t.len() {
                        assert(fits(t[i]));
                        lemma_text_order(rows[k].day@, last.day@, rows[i].day@);
                        lemma_text_order(rows[i].day@, rows[k].day@, last.day@);
                    }
                }
                assert forall|i: int| 0 <= i < now && fits(#[trigger] rows[i]) implies before(
                    rows[i].day@,
                    rows[now].day@,
                ) by {
                    if i < t.len() {
                        assert(fits(t[i]));
                        lemma_text_order(rows[i].day@, rows[k].day@, last.day@);
                    }
                }
            },
            None => {
                lemma_before_irreflexive(last.day@);
                assert forall|i: int| 0 <= i < t.len() implies !fits(#[trigger] rows[i]) by {
                    assert(!fits(t[i]));
                }
            },
        }
    }
}

/// A figure of the gateway or of LiteLLM never starts over: the latest one counts,
/// whatever month it is of. Any other source's counts only within its month.
pub proof fn law_what_starts_over_each_month(
    rows: Seq<RollupRow>,
    project_id: Seq<char>,
    service: Seq<char>,
    source: Seq<char>,
    day: Seq<char>,
)
    requires
        day.len() >= 7,
    ensures
        match latest_before(rows, project_id, service, source, day) {
            Some(k) => {
                &&& source == "gateway"@ || source == "litellm"@ ==> baseline_of(
                    rows,
                    project_id,
                    service,
                    source,
                    day,
                ) == rows[k].cumulative_usd
                &&& source != "gateway"@ && source != "litellm"@ && rows[k].day@.len() >= 7
                    ==> baseline_of(rows, project_id, service, source, day) == (
                if rows[k].day@.subrange(0, 7) == day.subrange(0, 7) {
                    rows[k].cumulative_usd
                } else {
                    None
                })
            },
            None => baseline_of(rows, project_id, service, source, day) is None,
        },
{
}

/// Writing a day's row leaves exactly one of its day, project, service and source, the
/// one that was written, and every other row where it was.
pub proof fn law_written_row_takes_its_place(rows: Seq<RollupRow>, r: RollupRow, k: int)
    requires
        0 <= k <= rows.len(),
        forall|i: int|
            0 <= i < k ==> (#[trigger] rows[i]).project_id@ != r.project_id@ || rows[i].day@
                != r.day@ || rows[i].service@ != r.service@ || rows[i].source@ != r.source@,
        k < rows.len() ==> rows[k].project_id@ == r.project_id@ && rows[k].day@ == r.day@
            && rows[k].service@ == r.service@ && rows[k].source@ == r.source@,
    ensures
        k < rows.len() ==> upserted(rows, r) == rows.update(k, r),
        k == rows.len() ==> upserted(rows, r) == rows.push(r),
{
    lemma_put_by(rows, r, |a: RollupRow, b: RollupRow| same_key(a, b), k);
}

/// A forecast takes the place of the one of the same project and day, and an anomaly that
/// of the one of the same project, day and service; where there is none it goes behind
/// all.
pub proof fn law_forecasts_and_anomalies_take_their_place(
    forecasts: Seq<ForecastRow>,
    f: ForecastRow,
    anomalies: Seq<AnomalyRow>,
    a: AnomalyRow,
    k: int,
)
    requires
        k >= 0,
    ensures
        (k < forecasts.len() && forecasts[k].project_id@ == f.project_id@ && forecasts[k].as_of_day@
            == f.as_of_day@ && forall|i: int|
            0 <= i < k ==> (#[trigger] forecasts[i]).project_id@ != f.project_id@
                || forecasts[i].as_of_day@ != f.as_of_day@) ==> forecast_written(forecasts, f)
            == forecasts.update(k, f),
        (forall|i: int|
            0 <= i < forecasts.len() ==> (#[trigger] forecasts[i]).project_id@ != f.project_id@
                || forecasts[i].as_of_day@ != f.as_of_day@) ==> forecast_written(forecasts, f)
            == forecasts.push(f),
        (k < anomalies.len() && anomalies[k].project_id@ == a.project_id@ && anomalies[k].day@
            == a.day@ && anomalies[k].service@ == a.service@ && forall|i: int|
            0 <= i < k ==> (#[trigger] anomalies[i]).project_id@ != a.project_id@
                || anomalies[i].day@ != a.day@ || anomalies[i].service@ != a.service@)
            ==> anomaly_written(anomalies, a) == anomalies.update(k, a),
        (forall|i: int|
            0 <= i < anomalies.len() ==> (#[trigger] anomalies[i]).project_id@ != a.project_id@
                || anomalies[i].day@ != a.day@ || anomalies[i].service@ != a.service@)
            ==> anomaly_written(anomalies, a) == anomalies.push(a),
{
    let same_f = |a: ForecastRow, b: ForecastRow|
        a.project_id@ == b.project_id@ && a.as_of_day@ == b.as_of_day@;
    let same_a = |x: AnomalyRow, y: AnomalyRow|
        x.project_id@ == y.project_id@ && x.day@ == y.day@ && x.service@ == y.service@;
    if k < forecasts.len() && same_f(forecasts[k], f) && forall|i: int|
        0 <= i < k ==> !same_f(#[trigger] forecasts[i], f) {
        lemma_put_by(forecasts, f, same_f, k);
    }
    if forall|i: int| 0 <= i < forecasts.len() ==> !same_f(#[trigger] forecasts[i], f) {
        lemma_put_by(forecasts, f, same_f, forecasts.len() as int);
    }
    if k < anomalies.len() && same_a(anomalies[k], a) && forall|i: int|
        0 <= i < k ==> !same_a(#[trigger] anomalies[i], a) {
        lemma_put_by(anomalies, a, same_a, k);
    }
    if forall|i: int| 0 <= i < anomalies.len() ==> !same_a(#[trigger] anomalies[i], a) {
        lemma_put_by(anomalies, a, same_a, anomalies.len() as int);
    }
}

/// A project's series has exactly its rows in the range that the reader may see, and goes
/// from day to day; within a day by service, within a service by source.
pub proof fn law_series_has_the_rows_of_the_project(
    rows: Seq<RollupRow>,
    project_id: Seq<char>,
    from: Seq<char>,
    until: Seq<char>,
    scope: Option<Seq<char>>,
)
    ensures
        ({
            let shown = arranged(rows_of(rows, project_id, from, until, scope), by_row(rows));
            &&& forall|k: int|
                0 <= k < rows.len() ==> (#[trigger] shown.contains(k) <==> rows[k].project_id@
                    == project_id && !before(rows[k].day@, from) && !before(until, rows[k].day@)
                    && (match scope {
                    Some(reader) => rows[k].owner@ == reader || rows[k].manager@ == reader,
                    None => true,
                }))
            &&& forall|i: int, j: int|
                0 <= i < j < shown.len() ==> {
                    let (a, b) = (rows[#[trigger] shown[i]], rows[#[trigger] shown[j]]);
                    &&& !before(b.day@, a.day@)
                    &&& a.day@ == b.day@ ==> !before(b.service@, a.service@)
                    &&& a.day@ == b.day@ && a.service@ == b.service@ ==> !before(
                        b.source@,
                        a.source@,
                    )
                }
        }),
{
    let places = rows_of(rows, project_id, from, until, scope);
    let less = by_row(rows);
    let shown = arranged(places, less);
    lemma_rows_of(rows, project_id, from, until, scope);
    lemma_arranged(places, less);
    law_series_is_in_order(rows, project_id, from, until, scope);
    assert forall|k: int| 0 <= k < rows.len() implies (#[trigger] shown.contains(k)
        <==> places.contains(k)) by {}
    assert forall|i: int, j: int| 0 <= i < j < shown.len() implies !row_before(
        rows[#[trigger] shown[j]],
        rows[#[trigger] shown[i]],
    ) by {
        assert(!less(shown[j], shown[i]));
    }
}

proof fn lemma_rows_of(
    rows: Seq<RollupRow>,
    project_id: Seq<char>,
    from: Seq<char>,
    until: Seq<char>,
    scope: Option<Seq<char>>,
)
    ensures
        forall|i: int|
            0 <= i < rows_of(rows, project_id, from, until, scope).len() ==> 0
                <= #[trigger] rows_of(rows, project_id, from, until, scope)[i] < rows.len(),
        forall|k: int|
            0 <= k < rows.len() ==> (#[trigger] rows_of(
                rows,
                project_id,
                from,
                until,
                scope,
            ).contains(k) <==> rows[k].project_id@ == project_id && in_days(
                rows[k].day@,
                from,
                until,
            ) && visible(rows[k], scope)),
    decreases rows.len(),
{
    if rows.len() > 0 {
        let t = rows.drop_last();
        lemma_rows_of(t, project_id, from, until, scope);
        let r = rows.last();
        lemma_one_more_place(
            rows_of(t, project_id, from, until, scope),
            rows_of(rows, project_id, from, until, scope),
            rows.len() - 1,
            r.project_id@ == project_id && in_days(r.day@, from, until) && visible(r, scope),
        );
        assert forall|k: int| 0 <= k < t.len() implies t[k] == #[trigger] rows[k] by {}
    }
}

/// The sums of a dimension are shown from the largest measured one down, and of equal
/// ones from the largest estimate down, where every one of them is a number; none is left
/// out.
pub proof fn law_largest_sums_come_first(rows: Seq<DimRow>)
    requires
        forall|i: int|
            0 <= i < rows.len() ==> (#[trigger] rows[i]).actual_usd.numeric()
                && rows[i].estimated_usd.numeric(),
    ensures
        ({
            let shown = arranged(all_places(rows.len()), by_sum(rows));
            &&& shown.len() == rows.len()
            &&& forall|k: int| 0 <= k < rows.len() ==> #[trigger] shown.contains(k)
            &&& forall|i: int, j: int|
                0 <= i < j < shown.len() ==> {
                    let (a, b) = (rows[#[trigger] shown[i]], rows[#[trigger] shown[j]]);
                    &&& !a.actual_usd.less(b.actual_usd)
                    &&& !b.actual_usd.less(a.actual_usd) ==> !a.estimated_usd.less(b.estimated_usd)
                }
        }),
{
    let places = all_places(rows.len());
    let less = by_sum(rows);
    let shown = arranged(places, less);
    lemma_arranged(places, less);
    law_sums_are_in_order(rows);
    assert forall|k: int| 0 <= k < rows.len() implies #[trigger] shown.contains(k) by {
        assert(places[k] == k);
        assert(places.contains(k));
    }
    assert forall|i: int, j: int| 0 <= i < j < shown.len() implies !dim_before(
        rows[#[trigger] shown[j]],
        rows[#[trigger] shown[i]],
    ) by {
        assert(!less(shown[j], shown[i]));
    }
}

/// A dimension is read from the column of its name.
pub proof fn law_dimensions_read_their_columns(r: RollupRow)
    ensures
        dim_value(r, RollupDim::Project) == r.project_id@,
        dim_value(r, RollupDim::Owner) == r.owner@,
        dim_value(r, RollupDim::Manager) == r.manager@,
        dim_value(r, RollupDim::Group) == r.cost_group@,
        dim_value(r, RollupDim::CostCenter) == r.cost_center@,
        dim_value(r, RollupDim::Classification) == r.classification@,
        dim_value(r, RollupDim::Service) == r.service@,
        named_dim("project"@) == Some(RollupDim::Project),
        named_dim("project_id"@) == Some(RollupDim::Project),
        named_dim("owner"@) == Some(RollupDim::Owner),
        named_dim("manager"@) == Some(RollupDim::Manager),
        named_dim("group"@) == Some(RollupDim::Group),
        named_dim("cost_group"@) == Some(RollupDim::Group),
        named_dim("cost_center"@) == Some(RollupDim::CostCenter),
        named_dim("cost-center"@) == Some(RollupDim::CostCenter),
        named_dim("classification"@) == Some(RollupDim::Classification),
        named_dim("tier"@) == Some(RollupDim::Classification),
        named_dim("service"@) == Some(RollupDim::Service),
{
    reveal_strlit("project");
    reveal_strlit("project_id");
    reveal_strlit("owner");
    reveal_strlit("manager");
    reveal_strlit("group");
    reveal_strlit("cost_group");
    reveal_strlit("cost_center");
    reveal_strlit("cost-center");
    reveal_strlit("classification");
    reveal_strlit("tier");
    reveal_strlit("service");
    assert("project"@.len() == 7 && "project"@[0] == 'p' && "project_id"@.len() == 10);
    assert("owner"@.len() == 5 && "owner"@[0] == 'o' && "manager"@.len() == 7);
    assert("manager"@[0] == 'm' && "group"@.len() == 5 && "group"@[0] == 'g');
    assert("cost_group"@.len() == 10 && "cost_center"@.len() == 11 && "cost-center"@.len() == 11);
    assert("classification"@.len() == 14 && "tier"@.len() == 4 && "service"@.len() == 7);
    assert("service"@[0] == 's' && "project_id"@[0] == 'p' && "cost_group"@[0] == 'c');
}

/// The latest forecast of a project is one of its own, and none of its own is of a later
/// day.
pub proof fn law_latest_forecast_is_the_projects_own(rows: Seq<ForecastRow>, project_id: Seq<char>)
    ensures
        match newest_forecast(rows, project_id) {
            Some(k) => {
                &&& 0 <= k < rows.len()
                &&& rows[k].project_id@ == project_id
                &&& forall|i: int|
                    0 <= i < rows.len() && (#[trigger] rows[i]).project_id@ == project_id
                        ==> !before(rows[k].as_of_day@, rows[i].as_of_day@)
            },
            None => forall|i: int|
                0 <= i < rows.len() ==> (#[trigger] rows[i]).project_id@ != project_id,
        },
    decreases rows.len(),
{
    if rows.len() > 0 {
        let t = rows.drop_last();
        let last = rows.last();
        law_latest_forecast_is_the_projects_own(t, project_id);
        assert forall|i: int| 0 <= i < t.len() implies rows[i] == #[trigger] t[i] by {}
        lemma_before_irreflexive(last.as_of_day@);
        match newest_forecast(t, project_id) {
            Some(k) => {
                let now = newest_forecast(rows, project_id)->0;
                assert(rows[k] == t[k]);
                assert forall|i: int|
                    0 <= i < rows.len() && (#[trigger] rows[i]).project_id@
                        == project_id implies !before(rows[now].as_of_day@, rows[i].as_of_day@) by {
                    lemma_text_order(rows[k].as_of_day@, last.as_of_day@, rows[i].as_of_day@);
                    lemma_text_order(rows[i].as_of_day@, rows[k].as_of_day@, last.as_of_day@);
                    if i < t.len() {
                        assert(t[i].project_id@ == project_id);
                    }
                }
            },
            None => {
                assert forall|i: int| 0 <= i < t.len() implies (#[trigger] rows[i]).project_id@
                    != project_id by {
                    assert(t[i].project_id@ != project_id);
                }
            },
        }
    }
}

/// A reader is told of exactly the anomalies of the project asked for, if one is, and
/// with a scope only of projects that have a row the reader owns or manages; from the
/// latest day back, and of one day from the one recorded last.
pub proof fn law_anomalies_are_the_readers_own(
    all: Seq<AnomalyRow>,
    rows: Seq<RollupRow>,
    project_id: Option<Seq<char>>,
    scope: Option<Seq<char>>,
)
    ensures
        ({
            let told = arranged(shown_anomalies(all, rows, project_id, scope), by_newness(all));
            &&& forall|k: int|
                0 <= k < all.len() ==> (#[trigger] told.contains(k) <==> {
                    &&& project_id matches Some(p) ==> all[k].project_id@ == p
                    &&& scope matches Some(reader) ==> exists|i: int|
                        0 <= i < rows.len() && (#[trigger] rows[i]).project_id@
                            == all[k].project_id@ && (rows[i].owner@ == reader || rows[i].manager@
                            == reader)
                })
            &&& forall|i: int, j: int|
                0 <= i < j < told.len() ==> {
                    let (a, b) = (all[#[trigger] told[i]], all[#[trigger] told[j]]);
                    &&& !before(a.day@, b.day@)
                    &&& a.day@ == b.day@ ==> !before(a.created_at@, b.created_at@)
                }
        }),
{
    let places = shown_anomalies(all, rows, project_id, scope);
    let less = by_newness(all);
    let told = arranged(places, less);
    lemma_shown_anomalies(all, rows, project_id, scope);
    lemma_arranged(places, less);
    law_anomalies_are_newest_first(all, rows, project_id, scope, told.len());
    assert(at_most(told, told.len() as int) == told);
    assert forall|k: int| 0 <= k < all.len() implies (#[trigger] told.contains(k)
        <==> places.contains(k)) by {}
    assert forall|i: int, j: int| 0 <= i < j < told.len() implies !newer(
        all[#[trigger] told[j]],
        all[#[trigger] told[i]],
    ) by {
        assert(!less(told[j], told[i]));
    }
}

proof fn lemma_shown_anomalies(
    all: Seq<AnomalyRow>,
    rows: Seq<RollupRow>,
    project_id: Option<Seq<char>>,
    scope: Option<Seq<char>>,
)
    ensures
        forall|i: int|
            0 <= i < shown_anomalies(all, rows, project_id, scope).len() ==> 0
                <= #[trigger] shown_anomalies(all, rows, project_id, scope)[i] < all.len(),
        forall|k: int|
            0 <= k < all.len() ==> (#[trigger] shown_anomalies(
                all,
                rows,
                project_id,
                scope,
            ).contains(k) <==> anomaly_shown(all[k], rows, project_id, scope)),
    decreases all.len(),
{
    if all.len() > 0 {
        let t = all.drop_last();
        lemma_shown_anomalies(t, rows, project_id, scope);
        lemma_one_more_place(
            shown_anomalies(t, rows, project_id, scope),
            shown_anomalies(all, rows, project_id, scope),
            all.len() - 1,
            anomaly_shown(all.last(), rows, project_id, scope),
        );
        assert forall|k: int| 0 <= k < t.len() implies t[k] == #[trigger] all[k] by {}
    }
}

/// What is told of a project has each of its places under its own name, and the amounts
/// of the project's own rows.
pub proof fn law_fact_tells_each_place(
    f: ProjectRows,
    rows: Seq<RollupRow>,
    project_id: Seq<char>,
    from: Seq<char>,
    until: Seq<char>,
    scope: Option<Seq<char>>,
)
    requires
        fact_of(f, rows, project_id, from, until, scope),
    ensures
        f.project_id@ == project_id,
        f.owner@ == top_value(rows, RollupDim::Owner, project_id, from, until, scope),
        f.manager@ == top_value(rows, RollupDim::Manager, project_id, from, until, scope),
        f.cost_group@ == top_value(rows, RollupDim::Group, project_id, from, until, scope),
        f.cost_center@ == top_value(rows, RollupDim::CostCenter, project_id, from, until, scope),
        f.classification@ == top_value(
            rows,
            RollupDim::Classification,
            project_id,
            from,
            until,
            scope,
        ),
        f.amounts.actual@ == rows.filter(
            |r: RollupRow|
                r.actual_usd is Some && r.project_id@ == project_id && !before(r.day@, from)
                    && !before(until, r.day@) && (match scope {
                    Some(reader) => r.owner@ == reader || r.manager@ == reader,
                    None => true,
                }),
        ).map_values(|r: RollupRow| r.actual_usd->0),
        f.amounts.estimated@ == rows.filter(
            |r: RollupRow|
                r.project_id@ == project_id && !before(r.day@, from) && !before(until, r.day@) && (
                match scope {
                    Some(reader) => r.owner@ == reader || r.manager@ == reader,
                    None => true,
                }),
        ).map_values(|r: RollupRow| r.estimated_usd),
{
    lemma_projects_own_rows(rows, project_id, from, until, scope);
}

proof fn lemma_projects_own_rows(
    rows: Seq<RollupRow>,
    project_id: Seq<char>,
    from: Seq<char>,
    until: Seq<char>,
    scope: Option<Seq<char>>,
)
    ensures
        actuals_of(rows, RollupDim::Project, project_id, from, until, scope) == rows.filter(
            |r: RollupRow|
                r.actual_usd is Some && r.project_id@ == project_id && !before(r.day@, from)
                    && !before(until, r.day@) && (match scope {
                    Some(reader) => r.owner@ == reader || r.manager@ == reader,
                    None => true,
                }),
        ).map_values(|r: RollupRow| r.actual_usd->0),
        estimates_of(rows, RollupDim::Project, project_id, from, until, scope) == rows.filter(
            |r: RollupRow|
                r.project_id@ == project_id && !before(r.day@, from) && !before(until, r.day@) && (
                match scope {
                    Some(reader) => r.owner@ == reader || r.manager@ == reader,
                    None => true,
                }),
        ).map_values(|r: RollupRow| r.estimated_usd),
    decreases rows.len(),
{
    reveal(Seq::filter);
    let f = |r: RollupRow|
        r.actual_usd is Some && r.project_id@ == project_id && !before(r.day@, from) && !before(
            until,
            r.day@,
        ) && (match scope {
            Some(reader) => r.owner@ == reader || r.manager@ == reader,
            None => true,
        });
    let e = |r: RollupRow|
        r.project_id@ == project_id && !before(r.day@, from) && !before(until, r.day@) && (
        match scope {
            Some(reader) => r.owner@ == reader || r.manager@ == reader,
            None => true,
        });
    let g = |r: RollupRow| r.actual_usd->0;
    let h = |r: RollupRow| r.estimated_usd;
    if rows.len() > 0 {
        let t = rows.drop_last();
        lemma_projects_own_rows(t, project_id, from, until, scope);
        let last = rows.last();
        assert(t.filter(f).push(last).map_values(g) =~= t.filter(f).map_values(g).push(g(last)));
        assert(t.filter(e).push(last).map_values(h) =~= t.filter(e).map_values(h).push(h(last)));
    }
    assert(actuals_of(rows, RollupDim::Project, project_id, from, until, scope) =~= rows.filter(
        f,
    ).map_values(g));
    assert(estimates_of(rows, RollupDim::Project, project_id, from, until, scope) =~= rows.filter(
        e,
    ).map_values(h));
}

/// A blank value is shown as `unknown` and any other as it is.
pub proof fn law_blank_values_are_unknown(v: Seq<char>)
    ensures
        v.len() == 0 ==> shown_value(v) == "unknown"@,
        v.len() > 0 ==> shown_value(v) == v,
{
}

} // verus!
