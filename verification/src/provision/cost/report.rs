//! What the cost dashboard shows: the tree of the organisation, the movers against
//! the month before, and how much of the bill is tagged.
use vstd::prelude::*;

use super::rollup::{add_amount, lists, ProjectFact};
use crate::ordering::{
    arranged, at_most, keep_first, law_arranged_is_in_order, lemma_arranged, lemma_one_more_place,
    lemma_slot_found, numbers, put_at,
};
use crate::sorted_map::SortedMap;
use crate::text::{
    copy_texts, is_blank, lemma_take_more, list_contains, text_eq, texts, trimmed,
};
use crate::usd::Usd;

verus! {

/// What the rollup does not hold of a project: its budget and its latest forecast.
#[derive(Debug, Clone, Copy)]
pub struct ProjectOverlay {
    pub budget_usd: Usd,
    pub eom_usd: Usd,
    pub forecast_band: Usd,
    pub has_forecast: bool,
}

impl Default for ProjectOverlay {
    fn default() -> (r: ProjectOverlay)
        ensures
            r.budget_usd.bits == 0,
            r.eom_usd.bits == 0,
            r.forecast_band.bits == 0,
            !r.has_forecast,
    {
        ProjectOverlay {
            budget_usd: Usd::zero(),
            eom_usd: Usd::zero(),
            forecast_band: Usd::zero(),
            has_forecast: false,
        }
    }
}

impl ProjectOverlay {
    /// What a budget and, where there is one, a forecast with its band add.
    pub fn of(budget: Usd, forecast: Option<(Usd, Usd)>) -> (r: ProjectOverlay)
        ensures
            r.budget_usd == budget,
            r.has_forecast == forecast is Some,
            forecast matches Some(f) ==> r.eom_usd == f.0 && r.forecast_band == f.1,
            forecast is None ==> r.eom_usd.bits == 0 && r.forecast_band.bits == 0,
    {
        match forecast {
            Some((eom, band)) => ProjectOverlay {
                budget_usd: budget,
                eom_usd: eom,
                forecast_band: band,
                has_forecast: true,
            },
            None => ProjectOverlay {
                budget_usd: budget,
                eom_usd: Usd::zero(),
                forecast_band: Usd::zero(),
                has_forecast: false,
            },
        }
    }

    /// The forecast that counts: zero where there is none.
    pub fn forecast(&self) -> (r: Usd)
        ensures
            self.has_forecast ==> r == self.eom_usd,
            !self.has_forecast ==> r.bits == 0,
    {
        if self.has_forecast {
            self.eom_usd
        } else {
            Usd::zero()
        }
    }
}

/// Whether a budget is under pressure: there is one, and the forecast is above the
/// threshold that goes with it.
pub fn budget_pressure(budget: &Usd, threshold: &Usd, forecast: &Usd) -> (r: bool)
    ensures
        r == (budget.positive() && threshold.less(*forecast)),
        !budget.positive() ==> !r,
        forecast.within(*threshold) ==> !r,
        budget.positive() && threshold.less(*forecast) ==> r,
{
    budget.is_positive() && threshold.is_less(forecast)
}

// ---------------------------------------------------------------------------
// The tree
// ---------------------------------------------------------------------------

/// A text, or another in place of a blank one.
pub open spec fn nonblank(s: Seq<char>, fallback: Seq<char>) -> Seq<char> {
    if trimmed(s).len() == 0 {
        fallback
    } else {
        s
    }
}

fn nz(s: &str, fallback: &str) -> (r: String)
    ensures
        r@ == nonblank(s@, fallback@),
{
    if is_blank(s) {
        fallback.to_owned()
    } else {
        s.to_owned()
    }
}

/// Where a project stands: its group, manager and owner.
pub open spec fn labels(f: ProjectFact) -> Seq<Seq<char>> {
    seq![
        nonblank(f.cost_group@, "ungrouped"@),
        nonblank(f.manager@, "unassigned"@),
        nonblank(f.owner@, "unowned"@),
    ]
}

/// Whether a project stands under a path.
pub open spec fn under(f: ProjectFact, path: Seq<Seq<char>>) -> bool {
    path.len() <= 3 && labels(f).take(path.len() as int) == path
}

/// What stands next under a path, each once, in the order in which it first occurs.
pub open spec fn keys_under(facts: Seq<ProjectFact>, path: Seq<Seq<char>>) -> Seq<Seq<char>>
    decreases facts.len(),
{
    if facts.len() == 0 {
        Seq::empty()
    } else {
        let rest = keys_under(facts.drop_last(), path);
        let key = labels(facts.last())[path.len() as int];
        if under(facts.last(), path) && !rest.contains(key) {
            rest.push(key)
        } else {
            rest
        }
    }
}

/// The places of the projects under a path.
pub open spec fn projects_under(facts: Seq<ProjectFact>, path: Seq<Seq<char>>) -> Seq<int>
    decreases facts.len(),
{
    if facts.len() == 0 {
        Seq::empty()
    } else {
        let rest = projects_under(facts.drop_last(), path);
        if under(facts.last(), path) {
            rest.push(facts.len() - 1)
        } else {
            rest
        }
    }
}

/// A node of the tree: company, group, manager or owner. An owner holds the places
/// of its projects.
#[derive(Debug)]
pub struct CostNode {
    pub key: String,
    pub level: String,
    pub children: Vec<CostNode>,
    pub projects: Vec<usize>,
}

/// The name of a level.
pub open spec fn level_name(depth: int) -> Seq<char> {
    if depth == 0 {
        "company"@
    } else if depth == 1 {
        "group"@
    } else if depth == 2 {
        "manager"@
    } else {
        "owner"@
    }
}

/// Whether a node is the tree of the projects under a path.
pub open spec fn tree_of(n: CostNode, facts: Seq<ProjectFact>, path: Seq<Seq<char>>) -> bool
    decreases 3 - path.len(),
{
    &&& n.key@ == if path.len() == 0 {
        "company"@
    } else {
        path.last()
    }
    &&& n.level@ == level_name(path.len() as int)
    &&& if path.len() < 3 {
        let keys = keys_under(facts, path);
        &&& n.projects@.len() == 0
        &&& n.children@.len() == keys.len()
        &&& forall|i: int|
            0 <= i < keys.len() ==> tree_of(#[trigger] n.children@[i], facts, path.push(keys[i]))
    } else {
        n.children@.len() == 0 && numbers(n.projects@) == projects_under(facts, path)
    }
}

fn labels_of(f: &ProjectFact) -> (r: Vec<String>)
    ensures
        r@.len() == 3,
        texts(r@) == labels(*f),
{
    let mut r: Vec<String> = Vec::new();
    r.push(nz(f.cost_group.as_str(), "ungrouped"));
    r.push(nz(f.manager.as_str(), "unassigned"));
    r.push(nz(f.owner.as_str(), "unowned"));
    assert(texts(r@) =~= labels(*f));
    r
}

fn is_under(f: &ProjectFact, path: &Vec<String>) -> (r: bool)
    requires
        path@.len() <= 3,
    ensures
        r == under(*f, texts(path@)),
{
    let own = labels_of(f);
    let ghost p = texts(path@);
    let ghost l = texts(own@);
    let mut i: usize = 0;
    while i < path.len()
        invariant
            i <= path@.len() <= 3,
            own@.len() == 3,
            p == texts(path@),
            l == texts(own@),
            l == labels(*f),
            forall|k: int| 0 <= k < i ==> l[k] == p[k],
        decreases path.len() - i,
    {
        assert(p[i as int] == path@[i as int]@);
        assert(l[i as int] == own@[i as int]@);
        if !text_eq(own[i].as_str(), path[i].as_str()) {
            assert(l.take(p.len() as int)[i as int] != p[i as int]);
            return false;
        }
        i = i + 1;
    }
    assert(l.take(p.len() as int) =~= p);
    true
}

fn keys_of(facts: &Vec<ProjectFact>, path: &Vec<String>) -> (r: Vec<String>)
    requires
        path@.len() < 3,
    ensures
        texts(r@) == keys_under(facts@, texts(path@)),
{
    let ghost p = texts(path@);
    let mut out: Vec<String> = Vec::new();
    let mut i: usize = 0;
    assert(facts@.take(0) =~= Seq::empty());
    assert(texts(out@) =~= Seq::empty());
    while i < facts.len()
        invariant
            i <= facts@.len(),
            path@.len() < 3,
            p == texts(path@),
            texts(out@) == keys_under(facts@.take(i as int), p),
        decreases facts.len() - i,
    {
        assert(facts@.take(i + 1).drop_last() =~= facts@.take(i as int));
        let ghost prev = texts(out@);
        if is_under(&facts[i], path) {
            let mut own = labels_of(&facts[i]);
            let ghost l = texts(own@);
            let key = own.swap_remove(path.len());
            assert(l[path@.len() as int] == key@);
            if !list_contains(&out, key.as_str()) {
                let ghost seen = key@;
                out.push(key);
                assert(texts(out@) =~= prev.push(seen));
            }
        }
        i = i + 1;
    }
    assert(facts@.take(facts@.len() as int) =~= facts@);
    out
}

fn places_under(facts: &Vec<ProjectFact>, path: &Vec<String>) -> (r: Vec<usize>)
    requires
        path@.len() <= 3,
    ensures
        numbers(r@) == projects_under(facts@, texts(path@)),
{
    let ghost p = texts(path@);
    let mut out: Vec<usize> = Vec::new();
    let mut i: usize = 0;
    assert(facts@.take(0) =~= Seq::empty());
    assert(numbers(out@) =~= Seq::empty());
    while i < facts.len()
        invariant
            i <= facts@.len(),
            path@.len() <= 3,
            p == texts(path@),
            numbers(out@) == projects_under(facts@.take(i as int), p),
        decreases facts.len() - i,
    {
        assert(facts@.take(i + 1).drop_last() =~= facts@.take(i as int));
        let ghost prev = numbers(out@);
        if is_under(&facts[i], path) {
            out.push(i);
            assert(numbers(out@) =~= prev.push(i as int));
        }
        i = i + 1;
    }
    assert(facts@.take(facts@.len() as int) =~= facts@);
    out
}

fn node_at(facts: &Vec<ProjectFact>, path: &Vec<String>) -> (r: CostNode)
    requires
        path@.len() <= 3,
    ensures
        tree_of(r, facts@, texts(path@)),
    decreases 3 - path@.len(),
{
    let ghost p = texts(path@);
    let depth: usize = path.len();
    let key = if depth == 0 {
        "company".to_owned()
    } else {
        path[depth - 1].as_str().to_owned()
    };
    assert(depth > 0 ==> p.last() == path@[depth - 1]@);
    let level = if depth == 0 {
        "company".to_owned()
    } else if depth == 1 {
        "group".to_owned()
    } else if depth == 2 {
        "manager".to_owned()
    } else {
        "owner".to_owned()
    };
    let mut children: Vec<CostNode> = Vec::new();
    if depth == 3 {
        let projects = places_under(facts, path);
        return CostNode { key, level, children, projects };
    }
    let keys = keys_of(facts, path);
    let ghost all = texts(keys@);
    let mut i: usize = 0;
    while i < keys.len()
        invariant
            i <= keys@.len(),
            path@.len() < 3,
            p == texts(path@),
            all == texts(keys@),
            children@.len() == i,
            forall|k: int|
                0 <= k < i ==> tree_of(#[trigger] children@[k], facts@, p.push(all[k])),
        decreases keys.len() - i,
    {
        let mut down = copy_texts(path);
        down.push(keys[i].as_str().to_owned());
        assert(texts(down@) =~= p.push(all[i as int]));
        let child = node_at(facts, &down);
        children.push(child);
        i = i + 1;
    }
    CostNode { key, level, children, projects: Vec::new() }
}

/// The tree of the organisation: groups, managers and owners, each in the order in
/// which it first occurs, and under each owner the projects.
pub fn build_tree(facts: &Vec<ProjectFact>) -> (r: CostNode)
    ensures
        tree_of(r, facts@, Seq::empty()),
{
    let path: Vec<String> = Vec::new();
    assert(texts(path@) =~= Seq::empty());
    node_at(facts, &path)
}

proof fn lemma_under_found(facts: Seq<ProjectFact>, path: Seq<Seq<char>>, i: int)
    requires
        0 <= i < facts.len(),
    ensures
        under(facts[i], path) && path.len() < 3 ==> keys_under(facts, path).contains(
            labels(facts[i])[path.len() as int],
        ),
        under(facts[i], path) <==> projects_under(facts, path).contains(i),
    decreases facts.len(),
{
    let t = facts.drop_last();
    let key = labels(facts[i])[path.len() as int];
    let keys = keys_under(t, path);
    let rest = projects_under(t, path);
    lemma_places_bounded(t, path);
    if i < t.len() {
        lemma_under_found(t, path, i);
        assert(t[i] == facts[i]);
        if keys.contains(key) {
            let k = choose|k: int| 0 <= k < keys.len() && keys[k] == key;
            assert(keys_under(facts, path)[k] == key);
        }
        if rest.contains(i) {
            let k = choose|k: int| 0 <= k < rest.len() && rest[k] == i;
            assert(projects_under(facts, path)[k] == i);
        }
        if projects_under(facts, path).contains(i) {
            let all = projects_under(facts, path);
            let k = choose|k: int| 0 <= k < all.len() && all[k] == i;
            assert(k < rest.len());
            assert(rest[k] == i);
        }
    } else {
        if under(facts[i], path) {
            let all = keys_under(facts, path);
            if keys.contains(key) {
                let k = choose|k: int| 0 <= k < keys.len() && keys[k] == key;
                assert(all[k] == key);
            } else {
                assert(all[keys.len() as int] == key);
            }
            assert(projects_under(facts, path)[rest.len() as int] == i);
        } else {
            assert(!rest.contains(i));
        }
    }
}

proof fn lemma_places_bounded(facts: Seq<ProjectFact>, path: Seq<Seq<char>>)
    ensures
        forall|k: int|
            0 <= k < projects_under(facts, path).len() ==> 0 <= (#[trigger] projects_under(
                facts,
                path,
            )[k]) < facts.len(),
    decreases facts.len(),
{
    if facts.len() > 0 {
        let t = facts.drop_last();
        let rest = projects_under(t, path);
        let all = projects_under(facts, path);
        lemma_places_bounded(t, path);
        assert forall|k: int| 0 <= k < all.len() implies 0 <= (#[trigger] all[k])
            < facts.len() by {
            if k < rest.len() {
                assert(all[k] == rest[k]);
                assert(0 <= projects_under(t, path)[k] < t.len());
            }
        }
    }
}

/// Every project stands in the tree, under its own group, manager and owner, and
/// under no other.
pub proof fn law_every_project_has_one_owner(facts: Seq<ProjectFact>, i: int, path: Seq<Seq<char>>)
    requires
        0 <= i < facts.len(),
        path.len() == 3,
    ensures
        keys_under(facts, Seq::empty()).contains(labels(facts[i])[0]),
        keys_under(facts, labels(facts[i]).take(1)).contains(labels(facts[i])[1]),
        keys_under(facts, labels(facts[i]).take(2)).contains(labels(facts[i])[2]),
        projects_under(facts, path).contains(i) <==> path == labels(facts[i]),
{
    let l = labels(facts[i]);
    assert(l.take(0) =~= Seq::empty());
    lemma_under_found(facts, l.take(0), i);
    lemma_under_found(facts, l.take(1), i);
    lemma_under_found(facts, l.take(2), i);
    lemma_under_found(facts, path, i);
    assert(l.take(3) =~= l);
}

// ---------------------------------------------------------------------------
// Movers
// ---------------------------------------------------------------------------

/// One key's spend in two months.
#[derive(Debug)]
pub struct Mover {
    pub key: String,
    pub current_usd: Usd,
    pub previous_usd: Usd,
    pub delta_usd: Usd,
    pub delta_pct: Usd,
}

/// What spend is compared by.
#[derive(Debug, Clone, Copy, PartialEq, Eq, Structural)]
pub enum MoverKey {
    Project,
    Group,
}

/// A project's key.
pub open spec fn mover_key(f: ProjectFact, by: MoverKey) -> Seq<char> {
    match by {
        MoverKey::Project => f.project_id@,
        MoverKey::Group => nonblank(f.cost_group@, "ungrouped"@),
    }
}

/// The amounts of each key, in order.
pub open spec fn folded(facts: Seq<ProjectFact>, by: MoverKey) -> Map<Seq<char>, Seq<Usd>>
    decreases facts.len(),
{
    if facts.len() == 0 {
        Map::empty()
    } else {
        let rest = folded(facts.drop_last(), by);
        let key = mover_key(facts.last(), by);
        rest.insert(
            key,
            if rest.contains_key(key) {
                rest[key].push(facts.last().mtd_usd)
            } else {
                seq![facts.last().mtd_usd]
            },
        )
    }
}

/// The amounts of each key.
pub fn fold(facts: &Vec<ProjectFact>, by: MoverKey) -> (r: SortedMap<Vec<Usd>>)
    ensures
        lists(r@) == folded(facts@, by),
{
    let mut m: SortedMap<Vec<Usd>> = SortedMap::new();
    let mut i: usize = 0;
    assert(facts@.take(0) =~= Seq::empty());
    assert(lists(m@) =~= Map::empty());
    while i < facts.len()
        invariant
            i <= facts@.len(),
            lists(m@) == folded(facts@.take(i as int), by),
        decreases facts.len() - i,
    {
        assert(facts@.take(i + 1).drop_last() =~= facts@.take(i as int));
        let f = &facts[i];
        let key = match by {
            MoverKey::Project => f.project_id.as_str().to_owned(),
            MoverKey::Group => nz(f.cost_group.as_str(), "ungrouped"),
        };
        assert(m@.contains_key(key@) == lists(m@).contains_key(key@));
        add_amount(&mut m, key.as_str(), f.mtd_usd);
        i = i + 1;
    }
    assert(facts@.take(facts@.len() as int) =~= facts@);
    m
}

/// The keys of either month, in order.
pub fn mover_keys(current: &SortedMap<Vec<Usd>>, previous: &SortedMap<Vec<Usd>>) -> (r: SortedMap<
    bool,
>)
    ensures
        r@.dom() == current@.dom().union(previous@.dom()),
{
    let mut r: SortedMap<bool> = SortedMap::new();
    let a = current.keys();
    let b = previous.keys();
    let ghost names = texts(a@);
    let ghost more = texts(b@);
    let mut i: usize = 0;
    while i < a.len()
        invariant
            i <= a@.len(),
            names == texts(a@),
            forall|k: Seq<char>| #[trigger]
                r@.contains_key(k) <==> names.take(i as int).contains(k),
        decreases a.len() - i,
    {
        proof {
            lemma_take_more(names, i as int);
            assert(names[i as int] == a@[i as int]@);
        }
        r.insert(a[i].as_str(), true);
        i = i + 1;
    }
    assert(names.take(names.len() as int) =~= names);
    assert(more.take(0) =~= Seq::empty());
    i = 0;
    while i < b.len()
        invariant
            i <= b@.len(),
            more == texts(b@),
            forall|k: Seq<char>| #[trigger]
                r@.contains_key(k) <==> names.contains(k) || more.take(i as int).contains(k),
        decreases b.len() - i,
    {
        proof {
            lemma_take_more(more, i as int);
            assert(more[i as int] == b@[i as int]@);
        }
        r.insert(b[i].as_str(), true);
        i = i + 1;
    }
    assert(more.take(more.len() as int) =~= more);
    proof {
        assert forall|k: Seq<char>| #[trigger]
            r@.dom().contains(k) <==> current@.dom().union(previous@.dom()).contains(k) by {
            assert(r@.contains_key(k) == r@.dom().contains(k));
            assert(names.contains(k) <==> current@.contains_key(k));
            assert(more.contains(k) <==> previous@.contains_key(k));
        }
        assert(r@.dom() =~= current@.dom().union(previous@.dom()));
    }
    r
}

/// The places of what moved at all.
pub open spec fn moved(movers: Seq<Mover>) -> Seq<int>
    decreases movers.len(),
{
    if movers.len() == 0 {
        Seq::empty()
    } else {
        let rest = moved(movers.drop_last());
        if magnitude_of(movers.last().delta_usd).positive() {
            rest.push(movers.len() - 1)
        } else {
            rest
        }
    }
}

/// An amount without its sign.
pub open spec fn magnitude_of(u: Usd) -> Usd {
    Usd { bits: crate::usd::magnitude(u.bits) as u64 }
}

/// The largest finite amount: what new spend counts as in percent, so that no change
/// comes before it.
pub open spec fn endless_change() -> Usd {
    Usd { bits: 0x7fef_ffff_ffff_ffff }
}

/// A key's change in percent. Against spend the month before it is the ratio worked
/// out, and the largest finite amount where that is not finite; spend against none is
/// an endless change; no spend in either month is none.
pub open spec fn change_of(current: Usd, previous: Usd, ratio: Usd) -> Usd {
    if previous.positive() {
        if magnitude_of(ratio).within(endless_change()) {
            ratio
        } else {
            endless_change()
        }
    } else if current.positive() {
        endless_change()
    } else {
        Usd { bits: 0 }
    }
}

/// A key's change in percent.
pub fn change_percent(current: &Usd, previous: &Usd, ratio: &Usd) -> (r: Usd)
    ensures
        r == change_of(*current, *previous, *ratio),
{
    let endless = Usd { bits: 0x7fef_ffff_ffff_ffff };
    if previous.is_positive() {
        if ratio.abs().is_within(&endless) {
            *ratio
        } else {
            endless
        }
    } else if current.is_positive() {
        endless
    } else {
        Usd::zero()
    }
}

/// New spend is a change at least as large as any other, and every change is a number.
pub proof fn law_new_spend_moves_most(
    current: Usd,
    previous: Usd,
    other_current: Usd,
    other_previous: Usd,
    ratio: Usd,
    other_ratio: Usd,
)
    requires
        current.positive(),
        !previous.positive(),
    ensures
        change_of(other_current, other_previous, other_ratio).numeric(),
        magnitude_of(change_of(other_current, other_previous, other_ratio)).within(
            magnitude_of(change_of(current, previous, ratio)),
        ),
{
}

/// The order of movers, by their places: the larger change in percent, whatever
/// its sign, first.
pub open spec fn by_change(movers: Seq<Mover>) -> spec_fn(int, int) -> bool {
    |a: int, b: int|
        magnitude_of(movers[b].delta_pct).less(magnitude_of(movers[a].delta_pct))
}

fn changed_more(a: &Mover, b: &Mover) -> (r: bool)
    ensures
        r == magnitude_of(b.delta_pct).less(magnitude_of(a.delta_pct)),
{
    b.delta_pct.abs().is_less(&a.delta_pct.abs())
}

proof fn lemma_moved_in_range(movers: Seq<Mover>)
    ensures
        forall|p: int| #[trigger] moved(movers).contains(p) ==> 0 <= p < movers.len(),
    decreases movers.len(),
{
    if movers.len() > 0 {
        let rest = moved(movers.drop_last());
        lemma_moved_in_range(movers.drop_last());
        assert forall|p: int| #[trigger] moved(movers).contains(p) implies 0 <= p
            < movers.len() by {
            let k = choose|k: int| 0 <= k < moved(movers).len() && moved(movers)[k] == p;
            if k < rest.len() {
                assert(rest[k] == p);
                assert(rest.contains(p));
            }
        }
    }
}

/// The places of the largest movers, `top` of them at most.
pub open spec fn ranked(movers: Seq<Mover>, top: int) -> Seq<int> {
    at_most(arranged(moved(movers), by_change(movers)), top)
}

/// Along the movers the change in percent never grows, whatever its sign; and what
/// moved and is left out is left out for want of room, and moved no more than anything
/// that is kept.
pub proof fn law_movers_are_in_order(movers: Seq<Mover>, top: nat)
    requires
        forall|i: int| 0 <= i < movers.len() ==> (#[trigger] movers[i]).delta_pct.numeric(),
    ensures
        ranked(movers, top as int).len() <= top,
        forall|k: int, l: int|
            #![trigger ranked(movers, top as int)[k], ranked(movers, top as int)[l]]
            0 <= k < l < ranked(movers, top as int).len() ==> magnitude_of(
                movers[ranked(movers, top as int)[l]].delta_pct,
            ).within(magnitude_of(movers[ranked(movers, top as int)[k]].delta_pct)),
        forall|p: int, k: int|
            #![trigger moved(movers).contains(p), ranked(movers, top as int)[k]]
            moved(movers).contains(p) && !ranked(movers, top as int).contains(p) && 0 <= k
                < ranked(movers, top as int).len() ==> magnitude_of(movers[p].delta_pct).within(
                magnitude_of(movers[ranked(movers, top as int)[k]].delta_pct),
            ),
        forall|p: int| #[trigger]
            moved(movers).contains(p) && !ranked(movers, top as int).contains(p) ==> ranked(
                movers,
                top as int,
            ).len() == top,
{
    let places = moved(movers);
    let less = by_change(movers);
    let all = arranged(places, less);
    let r = ranked(movers, top as int);
    lemma_moved_in_range(movers);
    assert forall|a: int| #[trigger] places.contains(a) implies 0 <= a < movers.len()
        && magnitude_of(movers[a].delta_pct).numeric() by {
        assert(movers[a].delta_pct.numeric());
    }
    law_arranged_is_in_order(places, less);
    lemma_arranged(places, less);
    assert forall|k: int, l: int| 0 <= k < l < all.len() implies magnitude_of(
        movers[#[trigger] all[l]].delta_pct,
    ).within(magnitude_of(movers[#[trigger] all[k]].delta_pct)) by {
        assert(all.contains(all[k]) && all.contains(all[l]));
        assert(places.contains(all[k]) && places.contains(all[l]));
        assert(!less(all[l], all[k]));
    }
    assert forall|k: int| 0 <= k < r.len() implies #[trigger] r[k] == all[k] by {}
    assert forall|p: int| #[trigger] places.contains(p) && !r.contains(p) implies r.len() == top && (
    forall|k: int|
        0 <= k < r.len() ==> magnitude_of(movers[p].delta_pct).within(
            magnitude_of(movers[#[trigger] r[k]].delta_pct),
        )) by {
        assert(all.contains(p));
        let j = choose|j: int| 0 <= j < all.len() && all[j] == p;
        if j < r.len() {
            assert(r[j] == p);
        }
        assert forall|k: int| 0 <= k < r.len() implies magnitude_of(movers[p].delta_pct).within(
            magnitude_of(movers[#[trigger] r[k]].delta_pct),
        ) by {
            assert(r[k] == all[k] && all[j] == p);
        }
    }
}

/// The places of the largest movers.
pub fn rank_movers(movers: &Vec<Mover>, top: usize) -> (r: Vec<usize>)
    ensures
        numbers(r@) == ranked(movers@, top as int),
        forall|k: int| 0 <= k < r@.len() ==> (#[trigger] r@[k]) < movers@.len(),
{
    let ghost less = by_change(movers@);
    let mut order: Vec<usize> = Vec::new();
    let mut i: usize = 0;
    assert(movers@.take(0) =~= Seq::empty());
    assert(numbers(order@) =~= Seq::empty());
    while i < movers.len()
        invariant
            i <= movers@.len(),
            less == by_change(movers@),
            numbers(order@) == arranged(moved(movers@.take(i as int)), less),
            forall|k: int| 0 <= k < order@.len() ==> (#[trigger] order@[k]) < i,
        decreases movers.len() - i,
    {
        let ghost found = moved(movers@.take(i as int));
        assert(movers@.take(i + 1).drop_last() =~= movers@.take(i as int));
        if movers[i].delta_usd.abs().is_positive() {
            let mut at: usize = order.len();
            while at > 0 && changed_more(&movers[i], &movers[order[at - 1]])
                invariant
                    at <= order@.len(),
                    i < movers@.len(),
                    less == by_change(movers@),
                    forall|k: int| 0 <= k < order@.len() ==> (#[trigger] order@[k]) < i,
                    forall|k: int|
                        at <= k < order@.len() ==> less(i as int, #[trigger] numbers(order@)[k]),
                decreases at,
            {
                assert(numbers(order@)[at - 1] == order@[at - 1] as int);
                at = at - 1;
            }
            proof {
                if at > 0 {
                    assert(numbers(order@)[at - 1] == order@[at - 1] as int);
                }
                lemma_slot_found(numbers(order@), at as int, i as int, less);
                assert(found.push(i as int).drop_last() =~= found);
            }
            let ghost was = order@;
            put_at(&mut order, at, i);
            proof {
                assert forall|k: int| 0 <= k < order@.len() implies (#[trigger] order@[k])
                    < i + 1 by {
                    if k < at {
                        assert(order@[k] == was[k]);
                    } else if k > at {
                        assert(order@[k] == was[k - 1]);
                    }
                }
            }
        }
        i = i + 1;
    }
    assert(movers@.take(movers@.len() as int) =~= movers@);
    keep_first(order, top)
}

/// What the tagged spend is a share of: the account's total where it is known and
/// above zero. Without it there is no share to report.
pub fn tagged_base(account_total: Option<Usd>) -> (r: Option<Usd>)
    ensures
        r == match account_total {
            Some(t) => if t.positive() {
                Some(t)
            } else {
                None
            },
            None => None,
        },
{
    match account_total {
        Some(t) => {
            if t.is_positive() {
                Some(t)
            } else {
                None
            }
        },
        None => None,
    }
}

/// A project stands under its group, its manager and its owner, in that order; a blank
/// one is told as `ungrouped`, `unassigned` or `unowned`. The levels are company, group,
/// manager and owner.
pub proof fn law_where_a_project_stands(f: ProjectFact)
    ensures
        labels(f).len() == 3,
        trimmed(f.cost_group@).len() > 0 ==> labels(f)[0] == f.cost_group@,
        trimmed(f.cost_group@).len() == 0 ==> labels(f)[0] == "ungrouped"@,
        trimmed(f.manager@).len() > 0 ==> labels(f)[1] == f.manager@,
        trimmed(f.manager@).len() == 0 ==> labels(f)[1] == "unassigned"@,
        trimmed(f.owner@).len() > 0 ==> labels(f)[2] == f.owner@,
        trimmed(f.owner@).len() == 0 ==> labels(f)[2] == "unowned"@,
        level_name(0) == "company"@,
        level_name(1) == "group"@,
        level_name(2) == "manager"@,
        level_name(3) == "owner"@,
{
}

/// What stands next under a path is what the projects under the path have there, each
/// once and nothing else.
pub proof fn law_tree_has_what_the_projects_have(
    facts: Seq<ProjectFact>,
    path: Seq<Seq<char>>,
    key: Seq<char>,
)
    requires
        path.len() < 3,
    ensures
        keys_under(facts, path).no_duplicates(),
        keys_under(facts, path).contains(key) <==> exists|i: int|
            0 <= i < facts.len() && (#[trigger] labels(facts[i])).take(path.len() as int) == path
                && labels(facts[i])[path.len() as int] == key,
    decreases facts.len(),
{
    if facts.len() > 0 {
        let t = facts.drop_last();
        law_tree_has_what_the_projects_have(t, path, key);
        let rest = keys_under(t, path);
        let all = keys_under(facts, path);
        let n = path.len() as int;
        assert forall|i: int, j: int| 0 <= i < j < all.len() implies all[i] != all[j] by {
            if j == rest.len() {
                assert(rest.contains(rest[i]));
            }
        }
        if rest.contains(key) {
            let k = choose|k: int| 0 <= k < rest.len() && rest[k] == key;
            assert(all[k] == key);
            let i = choose|i: int|
                0 <= i < t.len() && (#[trigger] labels(t[i])).take(n) == path && labels(t[i])[n]
                    == key;
            assert(labels(facts[i]).take(n) == path && labels(facts[i])[n] == key);
        } else if all.contains(key) {
            let k = choose|k: int| 0 <= k < all.len() && all[k] == key;
            assert(k == rest.len()) by {
                if k < rest.len() {
                    assert(rest[k] == key);
                }
            }
            let i = facts.len() - 1;
            assert(labels(facts[i]).take(n) == path && labels(facts[i])[n] == key);
        } else {
            assert forall|i: int| 0 <= i < facts.len() implies !((#[trigger] labels(
                facts[i],
            )).take(n) == path && labels(facts[i])[n] == key) by {
                if i < t.len() {
                    assert(labels(t[i]) == labels(facts[i]));
                } else if labels(facts[i]).take(n) == path && labels(facts[i])[n] == key {
                    assert(under(facts.last(), path));
                    assert(all[rest.len() as int] == key);
                }
            }
        }
    }
}

/// The spend of a key is that of its projects, in order: by project each its own, by
/// group those of the group.
pub proof fn law_keys_hold_their_spend(facts: Seq<ProjectFact>, by: MoverKey, key: Seq<char>)
    ensures
        ({
            let own = facts.filter(
                |f: ProjectFact|
                    key == (match by {
                        MoverKey::Project => f.project_id@,
                        MoverKey::Group => if trimmed(f.cost_group@).len() == 0 {
                            "ungrouped"@
                        } else {
                            f.cost_group@
                        },
                    }),
            ).map_values(|f: ProjectFact| f.mtd_usd);
            &&& folded(facts, by).contains_key(key) <==> own.len() > 0
            &&& own.len() > 0 ==> folded(facts, by)[key] == own
        }),
    decreases facts.len(),
{
    reveal(Seq::filter);
    let p = |f: ProjectFact|
        key == (match by {
            MoverKey::Project => f.project_id@,
            MoverKey::Group => if trimmed(f.cost_group@).len() == 0 {
                "ungrouped"@
            } else {
                f.cost_group@
            },
        });
    let g = |f: ProjectFact| f.mtd_usd;
    if facts.len() > 0 {
        let t = facts.drop_last();
        law_keys_hold_their_spend(t, by, key);
        let last = facts.last();
        assert(t.filter(p).push(last).map_values(g) =~= t.filter(p).map_values(g).push(g(last)));
        if p(last) {
            let own = t.filter(p).map_values(g);
            assert(own.len() == 0 ==> own.push(g(last)) =~= seq![g(last)]);
        }
    }
}

/// Exactly what changed by a number other than zero, up or down, has moved.
pub proof fn law_what_has_moved(movers: Seq<Mover>)
    ensures
        forall|i: int|
            0 <= i < moved(movers).len() ==> 0 <= #[trigger] moved(movers)[i] < movers.len(),
        forall|k: int|
            0 <= k < movers.len() ==> (#[trigger] moved(movers).contains(k) <==> {
                ||| movers[k].delta_usd.positive()
                ||| movers[k].delta_usd.negative()
            }),
    decreases movers.len(),
{
    if movers.len() > 0 {
        let t = movers.drop_last();
        law_what_has_moved(t);
        lemma_one_more_place(
            moved(t),
            moved(movers),
            movers.len() - 1,
            magnitude_of(movers.last().delta_usd).positive(),
        );
        assert forall|k: int| 0 <= k < t.len() implies t[k] == #[trigger] movers[k] by {}
    }
}

/// Against spend the month before a change is the ratio, as far as it is finite; spend
/// against none is the largest finite amount; no spend in either month is no change.
pub proof fn law_change_in_percent(current: Usd, previous: Usd, ratio: Usd)
    ensures
        previous.positive() && ratio.numeric() && ratio.bits < 0x7ff0_0000_0000_0000 ==> change_of(
            current,
            previous,
            ratio,
        ) == ratio,
        previous.positive() && !ratio.numeric() ==> change_of(current, previous, ratio).bits
            == 0x7fef_ffff_ffff_ffff,
        !previous.positive() && current.positive() ==> change_of(current, previous, ratio).bits
            == 0x7fef_ffff_ffff_ffff,
        !previous.positive() && !current.positive() ==> change_of(current, previous, ratio).bits
            == 0,
{
}

/// The tree is that of the company; below it stand the groups, below each group its
/// managers and below each manager its owners, each once; and only an owner holds
/// projects, its own.
pub proof fn law_levels_of_the_tree(n: CostNode, facts: Seq<ProjectFact>, path: Seq<Seq<char>>)
    requires
        path.len() <= 3,
        tree_of(n, facts, path),
    ensures
        path.len() == 0 ==> n.key@ == "company"@ && n.level@ == "company"@,
        path.len() == 1 ==> n.key@ == path[0] && n.level@ == "group"@,
        path.len() == 2 ==> n.key@ == path[1] && n.level@ == "manager"@,
        path.len() == 3 ==> n.key@ == path[2] && n.level@ == "owner"@,
        path.len() < 3 ==> n.projects@.len() == 0 && n.children@.len() == keys_under(
            facts,
            path,
        ).len() && forall|i: int|
            0 <= i < n.children@.len() ==> (#[trigger] n.children@[i]).key@ == keys_under(
                facts,
                path,
            )[i],
        path.len() == 3 ==> n.children@.len() == 0 && numbers(n.projects@) == projects_under(
            facts,
            path,
        ),
{
    if path.len() < 3 {
        let keys = keys_under(facts, path);
        assert forall|i: int| 0 <= i < n.children@.len() implies (#[trigger] n.children@[i]).key@
            == keys[i] by {
            assert(tree_of(n.children@[i], facts, path.push(keys[i])));
            assert(path.push(keys[i]).last() == keys[i]);
        }
    }
}

} // verus!
