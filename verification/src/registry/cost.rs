//! Spend reports over usage events: by which dimensions, who may see which events,
//! and what the events come to.
use vstd::prelude::*;

use crate::text::{before, contents_ref, list_contains, text_before, text_eq, texts};
use crate::usd::Usd;

verus! {

/// A dimension to report spend by.
#[derive(Debug, Clone, Copy, PartialEq, Eq, Structural)]
pub enum CostDim {
    Project,
    Owner,
    Manager,
    Group,
    Classification,
    Model,
    Provider,
}

/// The dimension a name stands for.
pub open spec fn named_dim(s: Seq<char>) -> Option<CostDim> {
    if s == "project"@ || s == "project_id"@ {
        Some(CostDim::Project)
    } else if s == "owner"@ {
        Some(CostDim::Owner)
    } else if s == "manager"@ {
        Some(CostDim::Manager)
    } else if s == "group"@ || s == "cost_group"@ {
        Some(CostDim::Group)
    } else if s == "classification"@ || s == "tier"@ {
        Some(CostDim::Classification)
    } else if s == "model"@ {
        Some(CostDim::Model)
    } else if s == "provider"@ {
        Some(CostDim::Provider)
    } else {
        None
    }
}

/// The column behind a dimension.
pub open spec fn dim_column(d: CostDim) -> Seq<char> {
    match d {
        CostDim::Project => "project_id"@,
        CostDim::Owner => "owner"@,
        CostDim::Manager => "manager"@,
        CostDim::Group => "cost_group"@,
        CostDim::Classification => "classification"@,
        CostDim::Model => "model"@,
        CostDim::Provider => "provider"@,
    }
}

/// The name of a dimension.
pub open spec fn dim_name(d: CostDim) -> Seq<char> {
    match d {
        CostDim::Project => "project"@,
        CostDim::Owner => "owner"@,
        CostDim::Manager => "manager"@,
        CostDim::Group => "group"@,
        CostDim::Classification => "classification"@,
        CostDim::Model => "model"@,
        CostDim::Provider => "provider"@,
    }
}

impl CostDim {
    /// The dimension a name stands for.
    pub fn parse(s: &str) -> (r: Option<CostDim>)
        ensures
            r == named_dim(s@),
    {
        if text_eq(s, "project") || text_eq(s, "project_id") {
            Some(CostDim::Project)
        } else if text_eq(s, "owner") {
            Some(CostDim::Owner)
        } else if text_eq(s, "manager") {
            Some(CostDim::Manager)
        } else if text_eq(s, "group") || text_eq(s, "cost_group") {
            Some(CostDim::Group)
        } else if text_eq(s, "classification") || text_eq(s, "tier") {
            Some(CostDim::Classification)
        } else if text_eq(s, "model") {
            Some(CostDim::Model)
        } else if text_eq(s, "provider") {
            Some(CostDim::Provider)
        } else {
            None
        }
    }

    /// The column behind the dimension, a fixed text.
    pub fn column(&self) -> (r: &'static str)
        ensures
            r@ == dim_column(*self),
    {
        match self {
            CostDim::Project => "project_id",
            CostDim::Owner => "owner",
            CostDim::Manager => "manager",
            CostDim::Group => "cost_group",
            CostDim::Classification => "classification",
            CostDim::Model => "model",
            CostDim::Provider => "provider",
        }
    }

    /// The name of the dimension.
    pub fn as_str(&self) -> (r: &'static str)
        ensures
            r@ == dim_name(*self),
    {
        match self {
            CostDim::Project => "project",
            CostDim::Owner => "owner",
            CostDim::Manager => "manager",
            CostDim::Group => "group",
            CostDim::Classification => "classification",
            CostDim::Model => "model",
            CostDim::Provider => "provider",
        }
    }
}

/// A dimension is found again under its name and under its column.
pub proof fn law_dim_names_round_trip(d: CostDim)
    ensures
        named_dim(dim_name(d)) == Some(d),
        named_dim(dim_column(d)) == Some(d),
{
    reveal_strlit("project");
    reveal_strlit("project_id");
    reveal_strlit("owner");
    reveal_strlit("manager");
    reveal_strlit("group");
    reveal_strlit("cost_group");
    reveal_strlit("classification");
    reveal_strlit("tier");
    reveal_strlit("model");
    reveal_strlit("provider");
    assert("project"@.len() == 7 && "project"@[0] == 'p');
    assert("project_id"@.len() == 10 && "project_id"@[0] == 'p');
    assert("owner"@.len() == 5 && "owner"@[0] == 'o');
    assert("manager"@.len() == 7 && "manager"@[0] == 'm');
    assert("group"@.len() == 5 && "group"@[0] == 'g');
    assert("cost_group"@.len() == 10 && "cost_group"@[0] == 'c');
    assert("classification"@.len() == 14);
    assert("tier"@.len() == 4);
    assert("model"@.len() == 5 && "model"@[0] == 'm');
    assert("provider"@.len() == 8);
}

/// The label of a group of rows: its key, or `unknown` for a blank key.
pub open spec fn row_label(key: Seq<char>) -> Seq<char> {
    if key.len() == 0 {
        "unknown"@
    } else {
        key
    }
}

/// The label of a group of rows.
pub fn label(key: &str) -> (r: String)
    ensures
        r@ == row_label(key@),
{
    if key.is_empty() {
        "unknown".to_owned()
    } else {
        key.to_owned()
    }
}

/// Whether an event counts towards a report: within the half-open span of time,
/// and owned or managed by the reader where the report is scoped.
pub open spec fn counts(
    ts: Seq<char>,
    owner: Seq<char>,
    manager: Seq<char>,
    since: Option<Seq<char>>,
    until: Option<Seq<char>>,
    scope: Option<Seq<char>>,
) -> bool {
    &&& since matches Some(s) ==> !before(ts, s)
    &&& until matches Some(u) ==> before(ts, u)
    &&& scope matches Some(who) ==> owner == who || manager == who
}

/// Whether an event counts towards a report.
pub fn event_counts(
    ts: &str,
    owner: &str,
    manager: &str,
    since: Option<&str>,
    until: Option<&str>,
    scope: Option<&str>,
) -> (r: bool)
    ensures
        r == counts(
            ts@,
            owner@,
            manager@,
            contents_ref(since),
            contents_ref(until),
            contents_ref(scope),
        ),
{
    let after = match since {
        Some(s) => !text_before(ts, s),
        None => true,
    };
    let earlier = match until {
        Some(u) => text_before(ts, u),
        None => true,
    };
    let seen = match scope {
        Some(who) => text_eq(owner, who) || text_eq(manager, who),
        None => true,
    };
    after && earlier && seen
}

/// A use of a model, with the place of its project in the organisation.
#[derive(Debug)]
pub struct UsageEvent {
    pub ts: String,
    pub project_id: String,
    pub owner: String,
    pub manager: String,
    pub cost_group: String,
    pub classification: String,
    pub model: String,
    pub provider: String,
    pub cost_usd: Usd,
    /// The tokens of the prompt and of the completion.
    pub tokens: i64,
}

/// What an event has in a dimension.
pub open spec fn dim_value(e: UsageEvent, d: CostDim) -> Seq<char> {
    match d {
        CostDim::Project => e.project_id@,
        CostDim::Owner => e.owner@,
        CostDim::Manager => e.manager@,
        CostDim::Group => e.cost_group@,
        CostDim::Classification => e.classification@,
        CostDim::Model => e.model@,
        CostDim::Provider => e.provider@,
    }
}

impl CostDim {
    /// What an event has in the dimension.
    pub fn of<'a>(&self, e: &'a UsageEvent) -> (s: &'a str)
        ensures
            s@ == dim_value(*e, *self),
    {
        match self {
            CostDim::Project => e.project_id.as_str(),
            CostDim::Owner => e.owner.as_str(),
            CostDim::Manager => e.manager.as_str(),
            CostDim::Group => e.cost_group.as_str(),
            CostDim::Classification => e.classification.as_str(),
            CostDim::Model => e.model.as_str(),
            CostDim::Provider => e.provider.as_str(),
        }
    }
}

/// The span of time and the reader of a report.
#[derive(Debug)]
pub struct ReportFilter<'a> {
    pub since: Option<&'a str>,
    pub until: Option<&'a str>,
    pub scope: Option<&'a str>,
}

/// Whether an event counts towards a report.
pub open spec fn passes(e: UsageEvent, f: ReportFilter) -> bool {
    counts(
        e.ts@,
        e.owner@,
        e.manager@,
        contents_ref(f.since),
        contents_ref(f.until),
        contents_ref(f.scope),
    )
}

/// The values that the events of a report have in a dimension, each once, in the
/// order in which they first occur.
pub open spec fn values_of(events: Seq<UsageEvent>, by: CostDim, f: ReportFilter) -> Seq<Seq<char>>
    decreases events.len(),
{
    if events.len() == 0 {
        Seq::empty()
    } else {
        let rest = values_of(events.drop_last(), by, f);
        let v = dim_value(events.last(), by);
        if passes(events.last(), f) && !rest.contains(v) {
            rest.push(v)
        } else {
            rest
        }
    }
}

/// The places of the events of a report that have a value in a dimension.
pub open spec fn places_of(
    events: Seq<UsageEvent>,
    by: CostDim,
    f: ReportFilter,
    value: Seq<char>,
) -> Seq<int>
    decreases events.len(),
{
    if events.len() == 0 {
        Seq::empty()
    } else {
        let rest = places_of(events.drop_last(), by, f, value);
        if passes(events.last(), f) && dim_value(events.last(), by) == value {
            rest.push(events.len() - 1)
        } else {
            rest
        }
    }
}

/// The amounts of events.
pub open spec fn amounts_at(events: Seq<UsageEvent>, places: Seq<int>) -> Seq<Usd> {
    Seq::new(places.len(), |i: int| events[places[i]].cost_usd)
}

/// The tokens of events together.
pub open spec fn tokens_at(events: Seq<UsageEvent>, places: Seq<int>) -> int
    decreases places.len(),
{
    if places.len() == 0 {
        0
    } else {
        tokens_at(events, places.drop_last()) + events[places.last()].tokens
    }
}

/// One value of a dimension and what its events come to.
#[derive(Debug)]
pub struct CostGroup {
    /// The value; `unknown` where it is blank.
    pub key: String,
    /// The amounts, to be summed.
    pub amounts: Vec<Usd>,
    pub tokens: i128,
    pub events: usize,
}

/// Whether a group is of a value.
pub open spec fn group_of(
    g: CostGroup,
    events: Seq<UsageEvent>,
    by: CostDim,
    f: ReportFilter,
    value: Seq<char>,
) -> bool {
    let places = places_of(events, by, f, value);
    &&& g.key@ == row_label(value)
    &&& g.amounts@ == amounts_at(events, places)
    &&& g.tokens == tokens_at(events, places)
    &&& g.events == places.len()
}

fn group_for(events: &Vec<UsageEvent>, by: CostDim, f: &ReportFilter, value: &str) -> (r: CostGroup)
    ensures
        group_of(r, events@, by, *f, value@),
{
    let mut amounts: Vec<Usd> = Vec::new();
    let mut tokens: i128 = 0;
    let mut n: usize = 0;
    let mut i: usize = 0;
    assert(events@.take(0) =~= Seq::empty());
    assert(amounts@ =~= amounts_at(events@, places_of(events@.take(0), by, *f, value@)));
    while i < events.len()
        invariant
            n <= i <= events@.len(),
            amounts@ == amounts_at(events@, places_of(events@.take(i as int), by, *f, value@)),
            tokens == tokens_at(events@, places_of(events@.take(i as int), by, *f, value@)),
            n == places_of(events@.take(i as int), by, *f, value@).len(),
            -0x8000_0000_0000_0000 * i <= tokens <= 0x8000_0000_0000_0000 * i,
        decreases events.len() - i,
    {
        assert(events@.take(i + 1).drop_last() =~= events@.take(i as int));
        let ghost was = places_of(events@.take(i as int), by, *f, value@);
        let e = &events[i];
        if event_counts(
            e.ts.as_str(),
            e.owner.as_str(),
            e.manager.as_str(),
            f.since,
            f.until,
            f.scope,
        ) && text_eq(by.of(e), value) {
            amounts.push(e.cost_usd);
            tokens = tokens + e.tokens as i128;
            n = n + 1;
            proof {
                let now = was.push(i as int);
                assert(now.drop_last() =~= was);
                assert(amounts@ =~= amounts_at(events@, now));
            }
        }
        i = i + 1;
    }
    assert(events@.take(events@.len() as int) =~= events@);
    CostGroup { key: label(value), amounts, tokens, events: n }
}

/// What the events of a report come to by a dimension, in the order in which its
/// values first occur.
pub fn report(events: &Vec<UsageEvent>, by: CostDim, f: &ReportFilter) -> (r: Vec<CostGroup>)
    ensures
        ({
            let values = values_of(events@, by, *f);
            &&& r@.len() == values.len()
            &&& forall|i: int|
                0 <= i < r@.len() ==> group_of(#[trigger] r@[i], events@, by, *f, values[i])
        }),
{
    let mut values: Vec<String> = Vec::new();
    let mut i: usize = 0;
    assert(events@.take(0) =~= Seq::empty());
    assert(texts(values@) =~= Seq::empty());
    while i < events.len()
        invariant
            i <= events@.len(),
            texts(values@) == values_of(events@.take(i as int), by, *f),
        decreases events.len() - i,
    {
        assert(events@.take(i + 1).drop_last() =~= events@.take(i as int));
        let ghost prev = texts(values@);
        let e = &events[i];
        if event_counts(
            e.ts.as_str(),
            e.owner.as_str(),
            e.manager.as_str(),
            f.since,
            f.until,
            f.scope,
        ) && !list_contains(&values, by.of(e)) {
            let v = by.of(e).to_owned();
            let ghost seen = v@;
            values.push(v);
            assert(texts(values@) =~= prev.push(seen));
        }
        i = i + 1;
    }
    assert(events@.take(events@.len() as int) =~= events@);
    let ghost all = texts(values@);
    let mut out: Vec<CostGroup> = Vec::new();
    i = 0;
    while i < values.len()
        invariant
            i <= values@.len(),
            all == texts(values@),
            out@.len() == i,
            forall|k: int|
                0 <= k < i ==> group_of(#[trigger] out@[k], events@, by, *f, all[k]),
        decreases values.len() - i,
    {
        assert(all[i as int] == values@[i as int]@);
        out.push(group_for(events, by, f, values[i].as_str()));
        i = i + 1;
    }
    out
}

proof fn lemma_values_pass(events: Seq<UsageEvent>, by: CostDim, f: ReportFilter, v: Seq<char>)
    requires
        values_of(events, by, f).contains(v),
    ensures
        exists|i: int|
            0 <= i < events.len() && passes(#[trigger] events[i], f) && dim_value(events[i], by)
                == v,
    decreases events.len(),
{
    if events.len() > 0 {
        let t = events.drop_last();
        let rest = values_of(t, by, f);
        let all = values_of(events, by, f);
        let k = choose|k: int| 0 <= k < all.len() && all[k] == v;
        if rest.contains(v) {
            lemma_values_pass(t, by, f, v);
            let i = choose|i: int|
                0 <= i < t.len() && passes(#[trigger] t[i], f) && dim_value(t[i], by) == v;
            assert(events[i] == t[i]);
        } else {
            if k < rest.len() {
                assert(rest[k] == v);
            }
            assert(events[events.len() - 1] == events.last());
        }
    }
}

/// A reader with a scope is shown only what an event of a project that the reader
/// owns or manages stands behind.
pub proof fn law_scope_hides_other_spend(
    events: Seq<UsageEvent>,
    by: CostDim,
    f: ReportFilter,
    reader: Seq<char>,
    v: Seq<char>,
)
    requires
        contents_ref(f.scope) == Some(reader),
        values_of(events, by, f).contains(v),
    ensures
        exists|i: int|
            0 <= i < events.len() && dim_value(#[trigger] events[i], by) == v && (
            events[i].owner@ == reader || events[i].manager@ == reader),
{
    lemma_values_pass(events, by, f, v);
    let i = choose|i: int|
        0 <= i < events.len() && passes(#[trigger] events[i], f) && dim_value(events[i], by) == v;
    assert(dim_value(events[i], by) == v);
}

/// A group comes to what its events come to: those from the beginning of the span to
/// before its end, that the reader owns or manages where the report is scoped, and that
/// have the group's value; their amounts in order, their tokens together and how many
/// they are.
pub proof fn law_group_comes_to_its_events(
    events: Seq<UsageEvent>,
    by: CostDim,
    f: ReportFilter,
    value: Seq<char>,
)
    ensures
        ({
            let places = places_of(events, by, f, value);
            let own = events.filter(
                |e: UsageEvent|
                (f.since is Some ==> !before(e.ts@, f.since->0@)) && (f.until is Some ==> before(
                    e.ts@,
                    f.until->0@,
                )) && (f.scope is Some ==> e.owner@ == f.scope->0@ || e.manager@ == f.scope->0@) && (match by {
                    CostDim::Project => e.project_id@,
                    CostDim::Owner => e.owner@,
                    CostDim::Manager => e.manager@,
                    CostDim::Group => e.cost_group@,
                    CostDim::Classification => e.classification@,
                    CostDim::Model => e.model@,
                    CostDim::Provider => e.provider@,
                }) == value,
            );
            &&& places.len() == own.len()
            &&& amounts_at(events, places) == own.map_values(|e: UsageEvent| e.cost_usd)
            &&& tokens_at(events, places) == own.map_values(
                |e: UsageEvent| e.tokens as int,
            ).fold_left(0, |sum: int, tokens: int| sum + tokens)
        }),
    decreases events.len(),
{
    reveal(Seq::filter);
    let p = |e: UsageEvent|
        (f.since is Some ==> !before(e.ts@, f.since->0@)) && (f.until is Some ==> before(
                    e.ts@,
                    f.until->0@,
                )) && (f.scope is Some ==> e.owner@ == f.scope->0@ || e.manager@ == f.scope->0@) && (match by {
                    CostDim::Project => e.project_id@,
                    CostDim::Owner => e.owner@,
                    CostDim::Manager => e.manager@,
                    CostDim::Group => e.cost_group@,
                    CostDim::Classification => e.classification@,
                    CostDim::Model => e.model@,
                    CostDim::Provider => e.provider@,
                }) == value;
    let g = |e: UsageEvent| e.cost_usd;
    let h = |e: UsageEvent| e.tokens as int;
    let places = places_of(events, by, f, value);
    if events.len() > 0 {
        let t = events.drop_last();
        law_group_comes_to_its_events(t, by, f, value);
        let rest = places_of(t, by, f, value);
        let last = events.last();
        lemma_places_within(t, by, f, value);
        lemma_tokens_of_front(t, events, rest);
        let own = t.filter(p);
        assert(own.push(last).map_values(g) =~= own.map_values(g).push(g(last)));
        assert(own.push(last).map_values(h) =~= own.map_values(h).push(h(last)));
        assert(own.map_values(h).push(h(last)).drop_last() =~= own.map_values(h));
        assert(amounts_at(events, rest) =~= amounts_at(t, rest));
        if p(last) {
            assert(passes(last, f));
            assert(places == rest.push(events.len() - 1));
            assert(places.drop_last() =~= rest);
            assert(amounts_at(events, places) =~= amounts_at(events, rest).push(g(last)));
        } else {
            assert(places == rest);
        }
    } else {
        assert(amounts_at(events, places) =~= events.filter(p).map_values(g));
    }
}

proof fn lemma_places_within(
    events: Seq<UsageEvent>,
    by: CostDim,
    f: ReportFilter,
    value: Seq<char>,
)
    ensures
        forall|i: int|
            0 <= i < places_of(events, by, f, value).len() ==> 0 <= #[trigger] places_of(
                events,
                by,
                f,
                value,
            )[i] < events.len(),
    decreases events.len(),
{
    if events.len() > 0 {
        let t = events.drop_last();
        lemma_places_within(t, by, f, value);
        let rest = places_of(t, by, f, value);
        let all = places_of(events, by, f, value);
        assert forall|i: int| 0 <= i < all.len() implies 0 <= #[trigger] all[i] < events.len() by {
            if i < rest.len() {
                assert(all[i] == rest[i]);
            }
        }
    }
}

proof fn lemma_tokens_of_front(front: Seq<UsageEvent>, events: Seq<UsageEvent>, places: Seq<int>)
    requires
        front.len() <= events.len(),
        forall|i: int| 0 <= i < front.len() ==> #[trigger] front[i] == events[i],
        forall|i: int| 0 <= i < places.len() ==> 0 <= #[trigger] places[i] < front.len(),
    ensures
        tokens_at(front, places) == tokens_at(events, places),
    decreases places.len(),
{
    if places.len() > 0 {
        assert(places[places.len() - 1] == places.last());
        lemma_tokens_of_front(front, events, places.drop_last());
    }
}

/// There is a group for exactly the values that the events of the report have, and one
/// for each; a blank value is told as `unknown`.
pub proof fn law_groups_are_those_of_the_events(
    events: Seq<UsageEvent>,
    by: CostDim,
    f: ReportFilter,
    value: Seq<char>,
)
    ensures
        values_of(events, by, f).no_duplicates(),
        values_of(events, by, f).contains(value) <==> events.filter(
            |e: UsageEvent|
                (f.since is Some ==> !before(e.ts@, f.since->0@)) && (f.until is Some ==> before(
                    e.ts@,
                    f.until->0@,
                )) && (f.scope is Some ==> e.owner@ == f.scope->0@ || e.manager@ == f.scope->0@) && (match by {
                    CostDim::Project => e.project_id@,
                    CostDim::Owner => e.owner@,
                    CostDim::Manager => e.manager@,
                    CostDim::Group => e.cost_group@,
                    CostDim::Classification => e.classification@,
                    CostDim::Model => e.model@,
                    CostDim::Provider => e.provider@,
                }) == value,
        ).len() > 0,
        value.len() == 0 ==> row_label(value) == "unknown"@,
        value.len() > 0 ==> row_label(value) == value,
    decreases events.len(),
{
    reveal(Seq::filter);
    let p = |e: UsageEvent|
        (f.since is Some ==> !before(e.ts@, f.since->0@)) && (f.until is Some ==> before(
                    e.ts@,
                    f.until->0@,
                )) && (f.scope is Some ==> e.owner@ == f.scope->0@ || e.manager@ == f.scope->0@) && (match by {
                    CostDim::Project => e.project_id@,
                    CostDim::Owner => e.owner@,
                    CostDim::Manager => e.manager@,
                    CostDim::Group => e.cost_group@,
                    CostDim::Classification => e.classification@,
                    CostDim::Model => e.model@,
                    CostDim::Provider => e.provider@,
                }) == value;
    if events.len() > 0 {
        let t = events.drop_last();
        law_groups_are_those_of_the_events(t, by, f, value);
        let rest = values_of(t, by, f);
        let all = values_of(events, by, f);
        let last = events.last();
        assert(p(last) <==> passes(last, f) && dim_value(last, by) == value);
        assert forall|i: int, j: int| 0 <= i < j < all.len() implies all[i] != all[j] by {
            if j == rest.len() {
                assert(rest.contains(rest[i]));
            }
        }
        if rest.contains(value) {
            let k = choose|k: int| 0 <= k < rest.len() && rest[k] == value;
            assert(all[k] == value);
        } else if p(last) {
            assert(all[rest.len() as int] == value);
        } else if all.contains(value) {
            let k = choose|k: int| 0 <= k < all.len() && all[k] == value;
            if k < rest.len() {
                assert(rest[k] == value);
            }
        }
    }
}

} // verus!
