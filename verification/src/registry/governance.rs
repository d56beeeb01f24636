//! Portfolio governance metrics over a list of registered projects. A metric
//! without a data source is labelled as such, never reported as zero.
use vstd::prelude::*;

use crate::json::{json_read, Json};
use crate::registry::promotion::lemma_tiers_differ;
use crate::registry::Registration;
use crate::text::{
    after_prefix,
    before,
    blank,
    contents_ref,
    decimal,
    decimal_int,
    decimal_int_text,
    decimal_text,
    is_blank,
    lemma_trimmed_blank,
    list_contains,
    strip_prefix,
    text_before,
    text_eq,
    texts,
    trim,
    trimmed,
};

verus! {

/// The organisation's one governance threshold.
#[derive(Debug)]
pub struct GovernanceConfig {
    pub maintainer_min: i64,
}

impl Default for GovernanceConfig {
    fn default() -> (r: GovernanceConfig)
        ensures
            r.maintainer_min == 2,
    {
        GovernanceConfig { maintainer_min: 2 }
    }
}

/// The value of a metric: not measured, a count, or a mean over samples.
#[derive(Debug, Clone, Copy, PartialEq, Eq, Structural)]
pub enum MetricValue {
    Unmeasured,
    Count(usize),
    /// The mean of `samples` durations that add up to `total` seconds, in days.
    MeanDays { total: i128, samples: usize },
}

/// One portfolio metric; `offenders` holds the projects behind a count.
#[derive(Debug)]
pub struct Metric {
    pub key: String,
    pub label: String,
    pub target: String,
    pub value: MetricValue,
    pub unit: String,
    pub offenders: Vec<String>,
    pub measurable: bool,
    pub note: Option<String>,
}

/// What a metric says.
pub struct MetricView {
    pub key: Seq<char>,
    pub label: Seq<char>,
    pub target: Seq<char>,
    pub value: MetricValue,
    pub unit: Seq<char>,
    pub offenders: Seq<Seq<char>>,
    pub measurable: bool,
    pub note: Option<Seq<char>>,
}

impl View for Metric {
    type V = MetricView;

    open spec fn view(&self) -> MetricView {
        MetricView {
            key: self.key@,
            label: self.label@,
            target: self.target@,
            value: self.value,
            unit: self.unit@,
            offenders: texts(self.offenders@),
            measurable: self.measurable,
            note: match self.note {
                Some(n) => Some(n@),
                None => None,
            },
        }
    }
}

/// A portfolio snapshot.
#[derive(Debug)]
pub struct GovernanceMetrics {
    pub as_of: String,
    pub total_projects: usize,
    pub operational_projects: usize,
    pub metrics: Vec<Metric>,
}

/// One fulfilled promotion; `seconds` from request to fulfilment.
#[derive(Debug)]
pub struct PromotionSample {
    pub project_id: String,
    pub target: String,
    pub seconds: i64,
}

/// A registered project that is active.
pub open spec fn active(r: Registration) -> bool {
    r.registered && r.lifecycle@ == "active"@
}

/// An active project past the proof-of-concept stage.
pub open spec fn operational(r: Registration) -> bool {
    active(r) && r.classification@ != "poc"@
}

/// The conditions that the metrics count.
#[derive(Debug, Clone, Copy, PartialEq, Eq, Structural)]
pub enum Check {
    Operational,
    Ownerless,
    NoSupport,
    Understaffed,
    StalePoc,
    StaleInventory,
    UnsupportedStack,
    LapsedStack,
}

/// Whether a project trips a condition.
pub open spec fn trips(check: Check, r: Registration, min: i64, as_of: Seq<char>) -> bool {
    match check {
        Check::Operational => operational(r),
        Check::Ownerless => operational(r) && blank(r.owner@),
        Check::NoSupport => operational(r) && blank(r.evidence.support_contact@),
        Check::Understaffed => operational(r) && (r.classification@ == "wide-operational"@
            || r.classification@ == "critical-path"@) && (r.evidence.maintainers@.len() as int)
            < min,
        Check::StalePoc => active(r) && r.classification@ == "poc"@ && r.review_state@
            == "expired"@,
        Check::StaleInventory => operational(r) && r.review_state@ == "expired"@,
        Check::UnsupportedStack => active(r) && !blank(r.evidence.stack_exception@),
        Check::LapsedStack => active(r) && !blank(r.evidence.stack_exception@) && (trimmed(
            r.stack_exception_renewal_date@,
        ).len() == 0 || before(trimmed(r.stack_exception_renewal_date@), as_of)),
    }
}

/// The ids of the projects that trip a condition, in order.
pub open spec fn offenders_of(
    check: Check,
    ps: Seq<Registration>,
    min: i64,
    as_of: Seq<char>,
) -> Seq<Seq<char>>
    decreases ps.len(),
{
    if ps.len() == 0 {
        Seq::empty()
    } else {
        let rest = offenders_of(check, ps.drop_last(), min, as_of);
        if trips(check, ps.last(), min, as_of) {
            rest.push(ps.last().project_id@)
        } else {
            rest
        }
    }
}

fn is_active(r: &Registration) -> (b: bool)
    ensures
        b == active(*r),
{
    r.registered && text_eq(r.lifecycle.as_str(), "active")
}

fn is_operational(r: &Registration) -> (b: bool)
    ensures
        b == operational(*r),
{
    is_active(r) && !text_eq(r.classification.as_str(), "poc")
}

/// Whether fewer than `min` maintainers stand behind a project.
fn below_minimum(count: usize, min: i64) -> (b: bool)
    ensures
        b == ((count as int) < min),
{
    (count as i128) < (min as i128)
}

fn does_trip(check: Check, r: &Registration, min: i64, as_of: &str) -> (b: bool)
    ensures
        b == trips(check, *r, min, as_of@),
{
    match check {
        Check::Operational => is_operational(r),
        Check::Ownerless => is_operational(r) && is_blank(r.owner.as_str()),
        Check::NoSupport => is_operational(r) && is_blank(r.evidence.support_contact.as_str()),
        Check::Understaffed => is_operational(r) && (text_eq(
            r.classification.as_str(),
            "wide-operational",
        ) || text_eq(r.classification.as_str(), "critical-path")) && below_minimum(
            r.evidence.maintainers.len(),
            min,
        ),
        Check::StalePoc => is_active(r) && text_eq(r.classification.as_str(), "poc") && text_eq(
            r.review_state.as_str(),
            "expired",
        ),
        Check::StaleInventory => is_operational(r) && text_eq(r.review_state.as_str(), "expired"),
        Check::UnsupportedStack => is_active(r) && !is_blank(r.evidence.stack_exception.as_str()),
        Check::LapsedStack => {
            let d = trim(r.stack_exception_renewal_date.as_str());
            is_active(r) && !is_blank(r.evidence.stack_exception.as_str()) && (d.as_str().is_empty()
                || text_before(d.as_str(), as_of))
        },
    }
}

fn offenders(check: Check, ps: &Vec<Registration>, min: i64, as_of: &str) -> (r: Vec<String>)
    ensures
        texts(r@) == offenders_of(check, ps@, min, as_of@),
        r@.len() <= ps@.len(),
{
    let mut out: Vec<String> = Vec::new();
    let mut i: usize = 0;
    assert(texts(out@) =~= offenders_of(check, ps@.take(0), min, as_of@));
    while i < ps.len()
        invariant
            i <= ps@.len(),
            out@.len() <= i,
            texts(out@) == offenders_of(check, ps@.take(i as int), min, as_of@),
        decreases ps.len() - i,
    {
        assert(ps@.take(i + 1).drop_last() =~= ps@.take(i as int));
        let ghost prev = texts(out@);
        if does_trip(check, &ps[i], min, as_of) {
            out.push(ps[i].project_id.clone());
            assert(texts(out@) =~= prev.push(ps@[i as int].project_id@));
        }
        i = i + 1;
    }
    assert(ps@.take(ps@.len() as int) =~= ps@);
    out
}

/// A measured count with the projects behind it.
pub open spec fn counted(
    key: Seq<char>,
    label: Seq<char>,
    target: Seq<char>,
    offenders: Seq<Seq<char>>,
    note: Option<Seq<char>>,
) -> MetricView {
    MetricView {
        key,
        label,
        target,
        value: MetricValue::Count(offenders.len() as usize),
        unit: "count"@,
        offenders,
        measurable: true,
        note,
    }
}

/// A metric without a data source.
pub open spec fn stubbed(
    key: Seq<char>,
    label: Seq<char>,
    target: Seq<char>,
    note: Seq<char>,
) -> MetricView {
    MetricView {
        key,
        label,
        target,
        value: MetricValue::Unmeasured,
        unit: "count"@,
        offenders: Seq::empty(),
        measurable: false,
        note: Some(note),
    }
}

fn count_metric(
    key: &str,
    label: &str,
    target: &str,
    offenders: Vec<String>,
    note: Option<String>,
) -> (r: Metric)
    ensures
        r@ == counted(
            key@,
            label@,
            target@,
            texts(offenders@),
            match note {
                Some(n) => Some(n@),
                None => None,
            },
        ),
{
    assert(texts(offenders@).len() == offenders@.len());
    Metric {
        key: key.to_owned(),
        label: label.to_owned(),
        target: target.to_owned(),
        value: MetricValue::Count(offenders.len()),
        unit: "count".to_owned(),
        offenders,
        measurable: true,
        note,
    }
}

fn stub_metric(key: &str, label: &str, target: &str, note: &str) -> (r: Metric)
    ensures
        r@ == stubbed(key@, label@, target@, note@),
{
    let offenders: Vec<String> = Vec::new();
    assert(texts(offenders@) =~= Seq::empty());
    Metric {
        key: key.to_owned(),
        label: label.to_owned(),
        target: target.to_owned(),
        value: MetricValue::Unmeasured,
        unit: "count".to_owned(),
        offenders,
        measurable: false,
        note: Some(note.to_owned()),
    }
}

/// The promotions to the light tier, by project.
pub open spec fn light_projects(samples: Seq<PromotionSample>) -> Seq<Seq<char>>
    decreases samples.len(),
{
    if samples.len() == 0 {
        Seq::empty()
    } else {
        let rest = light_projects(samples.drop_last());
        if samples.last().target@ == "light-operational"@ {
            rest.push(samples.last().project_id@)
        } else {
            rest
        }
    }
}

/// The seconds that the promotions to the light tier took together.
pub open spec fn light_seconds(samples: Seq<PromotionSample>) -> int
    decreases samples.len(),
{
    if samples.len() == 0 {
        0
    } else {
        let rest = light_seconds(samples.drop_last());
        if samples.last().target@ == "light-operational"@ {
            rest + samples.last().seconds
        } else {
            rest
        }
    }
}

/// The cycle-time metric: the mean over the light promotions, or a labelled
/// stub without any.
pub open spec fn light_cycle(samples: Seq<PromotionSample>) -> MetricView {
    let light = light_projects(samples);
    if light.len() == 0 {
        MetricView {
            key: "light_promotion_cycle_days"@,
            label: "Light-operational promotion cycle time"@,
            target: "short"@,
            value: MetricValue::Unmeasured,
            unit: "days"@,
            offenders: Seq::empty(),
            measurable: false,
            note: Some("no fulfilled Light-operational promotions yet"@),
        }
    } else {
        MetricView {
            key: "light_promotion_cycle_days"@,
            label: "Light-operational promotion cycle time"@,
            target: "short"@,
            value: MetricValue::MeanDays {
                total: light_seconds(samples) as i128,
                samples: light.len() as usize,
            },
            unit: "days"@,
            offenders: light,
            measurable: true,
            note: Some("mean over "@ + decimal(light.len()) + " promotion(s)"@),
        }
    }
}

fn light_cycle_metric(samples: &Vec<PromotionSample>) -> (r: Metric)
    ensures
        r@ == light_cycle(samples@),
        r.value matches MetricValue::MeanDays { total, samples: n } ==> total == light_seconds(
            samples@,
        ) && n == light_projects(samples@).len(),
{
    let mut light: Vec<String> = Vec::new();
    let mut total: i128 = 0;
    let mut i: usize = 0;
    assert(texts(light@) =~= light_projects(samples@.take(0)));
    while i < samples.len()
        invariant
            i <= samples@.len(),
            light@.len() <= i,
            texts(light@) == light_projects(samples@.take(i as int)),
            total == light_seconds(samples@.take(i as int)),
            -(i * 0x8000_0000_0000_0000) <= total <= i * 0x7fff_ffff_ffff_ffff,
        decreases samples.len() - i,
    {
        assert(samples@.take(i + 1).drop_last() =~= samples@.take(i as int));
        let ghost prev = texts(light@);
        if text_eq(samples[i].target.as_str(), "light-operational") {
            light.push(samples[i].project_id.clone());
            total = total + samples[i].seconds as i128;
            assert(texts(light@) =~= prev.push(samples@[i as int].project_id@));
        }
        i = i + 1;
    }
    assert(samples@.take(samples@.len() as int) =~= samples@);
    assert(texts(light@).len() == light@.len());
    if light.is_empty() {
        let offenders: Vec<String> = Vec::new();
        assert(texts(offenders@) =~= Seq::empty());
        return Metric {
            key: "light_promotion_cycle_days".to_owned(),
            label: "Light-operational promotion cycle time".to_owned(),
            target: "short".to_owned(),
            value: MetricValue::Unmeasured,
            unit: "days".to_owned(),
            offenders,
            measurable: false,
            note: Some("no fulfilled Light-operational promotions yet".to_owned()),
        };
    }
    let mut note = "mean over ".to_owned();
    let n = decimal_text(light.len() as u64);
    note.append(n.as_str());
    note.append(" promotion(s)");
    Metric {
        key: "light_promotion_cycle_days".to_owned(),
        label: "Light-operational promotion cycle time".to_owned(),
        target: "short".to_owned(),
        value: MetricValue::MeanDays { total, samples: light.len() },
        unit: "days".to_owned(),
        offenders: light,
        measurable: true,
        note: Some(note),
    }
}

/// The cycle time is taken over the promotions to `light-operational`, all of them and no
/// other: their projects in order, and the sum of their seconds.
pub proof fn law_cycle_time_is_of_light_promotions(samples: Seq<PromotionSample>)
    ensures
        light_projects(samples) == samples.filter(
            |s: PromotionSample| s.target@ == "light-operational"@,
        ).map_values(|s: PromotionSample| s.project_id@),
        light_seconds(samples) == samples.filter(
            |s: PromotionSample| s.target@ == "light-operational"@,
        ).map_values(|s: PromotionSample| s.seconds as int).fold_left(
            0,
            |sum: int, seconds: int| sum + seconds,
        ),
    decreases samples.len(),
{
    reveal(Seq::filter);
    let f = |s: PromotionSample| s.target@ == "light-operational"@;
    let g = |s: PromotionSample| s.project_id@;
    let h = |s: PromotionSample| s.seconds as int;
    if samples.len() > 0 {
        law_cycle_time_is_of_light_promotions(samples.drop_last());
        let rest = samples.drop_last().filter(f);
        let last = samples.last();
        assert(rest.push(last).map_values(g) =~= rest.map_values(g).push(g(last)));
        assert(rest.push(last).map_values(h) =~= rest.map_values(h).push(h(last)));
        assert(rest.map_values(h).push(h(last)).drop_last() =~= rest.map_values(h));
    }
    assert(light_projects(samples) =~= samples.filter(f).map_values(g));
}

proof fn lemma_light_projects(samples: Seq<PromotionSample>)
    ensures
        light_projects(samples).len() > 0 <==> exists|i: int|
            0 <= i < samples.len() && (#[trigger] samples[i]).target@ == "light-operational"@,
    decreases samples.len(),
{
    if samples.len() > 0 {
        let t = samples.drop_last();
        lemma_light_projects(t);
        assert forall|i: int| 0 <= i < t.len() implies t[i] == #[trigger] samples[i] by {}
        if light_projects(t).len() > 0 {
            let i = choose|i: int|
                0 <= i < t.len() && (#[trigger] t[i]).target@ == "light-operational"@;
            assert(samples[i].target@ == "light-operational"@);
        } else if samples.last().target@ == "light-operational"@ {
            assert(samples[samples.len() - 1].target@ == "light-operational"@);
        }
    }
}

/// The note on unsupported stacks: how many of them have no renewal date ahead.
pub open spec fn stack_note(lapsed: nat, all: nat) -> Seq<char> {
    decimal(lapsed) + " of "@ + decimal(all)
        + " have no future renewal date (lapsed/unbounded exception)"@
}

/// All metrics of a portfolio, in their order.
pub open spec fn portfolio(
    ps: Seq<Registration>,
    samples: Seq<PromotionSample>,
    min: i64,
    as_of: Seq<char>,
) -> Seq<MetricView> {
    seq![
        counted(
            "ownerless_operational"@,
            "Operational systems without a named owner"@,
            "0"@,
            offenders_of(Check::Ownerless, ps, min, as_of),
            Some("≈0 until WS5 ingests owner-less shadow systems"@),
        ),
        counted(
            "no_support_path_operational"@,
            "Operational systems without a support path"@,
            "0"@,
            offenders_of(Check::NoSupport, ps, min, as_of),
            None,
        ),
        counted(
            "understaffed_wide_critical"@,
            "Wide/Critical systems with fewer than "@ + decimal_int(min as int) + " maintainers"@,
            "0"@,
            offenders_of(Check::Understaffed, ps, min, as_of),
            None,
        ),
        counted(
            "stale_pocs"@,
            "POCs past their review date without a decision"@,
            "down"@,
            offenders_of(Check::StalePoc, ps, min, as_of),
            None,
        ),
        counted(
            "stale_inventory"@,
            "Operational systems with an expired review"@,
            "down"@,
            offenders_of(Check::StaleInventory, ps, min, as_of),
            None,
        ),
        counted(
            "unsupported_stack"@,
            "Systems running on an unsupported stack (exception declared)"@,
            "down/justified"@,
            offenders_of(Check::UnsupportedStack, ps, min, as_of),
            Some(
                stack_note(
                    offenders_of(Check::LapsedStack, ps, min, as_of).len(),
                    offenders_of(Check::UnsupportedStack, ps, min, as_of).len(),
                ),
            ),
        ),
        light_cycle(samples),
        stubbed(
            "missing_inventory_record"@,
            "Shadow/unregistered operational systems"@,
            "0"@,
            "no data source yet — needs WS5 existing-system discovery"@,
        ),
        stubbed(
            "incidents_by_classification"@,
            "Incidents by classification"@,
            "—"@,
            "no data source yet — no incident feed wired up"@,
        ),
        stubbed(
            "change_failure_rate"@,
            "Change failure rate"@,
            "—"@,
            "no data source yet — no incident/deploy feed wired up"@,
        ),
    ]
}

/// The ids that a condition lists are those of the projects that trip it, in order.
proof fn lemma_offenders_filter(check: Check, ps: Seq<Registration>, min: i64, as_of: Seq<char>)
    ensures
        offenders_of(check, ps, min, as_of) == ps.filter(
            |r: Registration| trips(check, r, min, as_of),
        ).map_values(|r: Registration| r.project_id@),
    decreases ps.len(),
{
    reveal(Seq::filter);
    let f = |r: Registration| trips(check, r, min, as_of);
    let g = |r: Registration| r.project_id@;
    if ps.len() > 0 {
        lemma_offenders_filter(check, ps.drop_last(), min, as_of);
        let rest = ps.drop_last().filter(f);
        assert(rest.push(ps.last()).map_values(g) =~= rest.map_values(g).push(g(ps.last())));
    }
    assert(offenders_of(check, ps, min, as_of) =~= ps.filter(f).map_values(g));
}

/// Each condition lists exactly the projects it is named for, every one of them and no
/// other, in the order in which they stand: an operational project is registered and
/// active and past `poc`; an understaffed one stands on one of the two upper tiers with
/// fewer maintainers than the minimum; a stale one has an expired review; a lapsed
/// exception has no renewal date or one that is past.
pub proof fn law_conditions_list_their_projects(ps: Seq<Registration>, min: i64, as_of: Seq<char>)
    ensures
        offenders_of(Check::Operational, ps, min, as_of) == ps.filter(
            |r: Registration|
                r.registered && r.lifecycle@ == "active"@ && r.classification@ != "poc"@,
        ).map_values(|r: Registration| r.project_id@),
        offenders_of(Check::Ownerless, ps, min, as_of) == ps.filter(
            |r: Registration|
                r.registered && r.lifecycle@ == "active"@ && r.classification@ != "poc"@ && blank(
                    r.owner@,
                ),
        ).map_values(|r: Registration| r.project_id@),
        offenders_of(Check::NoSupport, ps, min, as_of) == ps.filter(
            |r: Registration|
                r.registered && r.lifecycle@ == "active"@ && r.classification@ != "poc"@ && blank(
                    r.evidence.support_contact@,
                ),
        ).map_values(|r: Registration| r.project_id@),
        offenders_of(Check::Understaffed, ps, min, as_of) == ps.filter(
            |r: Registration|
                r.registered && r.lifecycle@ == "active"@ && (r.classification@
                    == "wide-operational"@ || r.classification@ == "critical-path"@)
                    && r.evidence.maintainers@.len() < min,
        ).map_values(|r: Registration| r.project_id@),
        offenders_of(Check::StalePoc, ps, min, as_of) == ps.filter(
            |r: Registration|
                r.registered && r.lifecycle@ == "active"@ && r.classification@ == "poc"@
                    && r.review_state@ == "expired"@,
        ).map_values(|r: Registration| r.project_id@),
        offenders_of(Check::StaleInventory, ps, min, as_of) == ps.filter(
            |r: Registration|
                r.registered && r.lifecycle@ == "active"@ && r.classification@ != "poc"@
                    && r.review_state@ == "expired"@,
        ).map_values(|r: Registration| r.project_id@),
        offenders_of(Check::UnsupportedStack, ps, min, as_of) == ps.filter(
            |r: Registration|
                r.registered && r.lifecycle@ == "active"@ && !blank(r.evidence.stack_exception@),
        ).map_values(|r: Registration| r.project_id@),
        offenders_of(Check::LapsedStack, ps, min, as_of) == ps.filter(
            |r: Registration|
                r.registered && r.lifecycle@ == "active"@ && !blank(r.evidence.stack_exception@) && (
                blank(r.stack_exception_renewal_date@) || before(
                    trimmed(r.stack_exception_renewal_date@),
                    as_of,
                )),
        ).map_values(|r: Registration| r.project_id@),
{
    lemma_tiers_differ();
    assert forall|s: Seq<char>| (#[trigger] trimmed(s)).len() == 0 <==> blank(s) by {
        lemma_trimmed_blank(s);
    }
    lemma_offenders_filter(Check::Operational, ps, min, as_of);
    assert((|r: Registration| trips(Check::Operational, r, min, as_of)) =~= (|r: Registration|
        r.registered && r.lifecycle@ == "active"@ && r.classification@ != "poc"@));
    lemma_offenders_filter(Check::Ownerless, ps, min, as_of);
    assert((|r: Registration| trips(Check::Ownerless, r, min, as_of)) =~= (|r: Registration|
        r.registered && r.lifecycle@ == "active"@ && r.classification@ != "poc"@ && blank(
                    r.owner@,
                )));
    lemma_offenders_filter(Check::NoSupport, ps, min, as_of);
    assert((|r: Registration| trips(Check::NoSupport, r, min, as_of)) =~= (|r: Registration|
        r.registered && r.lifecycle@ == "active"@ && r.classification@ != "poc"@ && blank(
                    r.evidence.support_contact@,
                )));
    lemma_offenders_filter(Check::Understaffed, ps, min, as_of);
    assert((|r: Registration| trips(Check::Understaffed, r, min, as_of)) =~= (|r: Registration|
        r.registered && r.lifecycle@ == "active"@ && (r.classification@
                    == "wide-operational"@ || r.classification@ == "critical-path"@)
                    && r.evidence.maintainers@.len() < min));
    lemma_offenders_filter(Check::StalePoc, ps, min, as_of);
    assert((|r: Registration| trips(Check::StalePoc, r, min, as_of)) =~= (|r: Registration|
        r.registered && r.lifecycle@ == "active"@ && r.classification@ == "poc"@
                    && r.review_state@ == "expired"@));
    lemma_offenders_filter(Check::StaleInventory, ps, min, as_of);
    assert((|r: Registration| trips(Check::StaleInventory, r, min, as_of)) =~= (|r: Registration|
        r.registered && r.lifecycle@ == "active"@ && r.classification@ != "poc"@
                    && r.review_state@ == "expired"@));
    lemma_offenders_filter(Check::UnsupportedStack, ps, min, as_of);
    assert((|r: Registration| trips(Check::UnsupportedStack, r, min, as_of)) =~= (|r: Registration|
        r.registered && r.lifecycle@ == "active"@ && !blank(r.evidence.stack_exception@)));
    lemma_offenders_filter(Check::LapsedStack, ps, min, as_of);
    assert((|r: Registration| trips(Check::LapsedStack, r, min, as_of)) =~= (|r: Registration|
        r.registered && r.lifecycle@ == "active"@ && !blank(r.evidence.stack_exception@) && (
                blank(r.stack_exception_renewal_date@) || before(
                    trimmed(r.stack_exception_renewal_date@),
                    as_of,
                ))));
}

/// Computes the portfolio metrics over an already scoped list of projects.
pub fn compute(
    projects: &Vec<Registration>,
    samples: &Vec<PromotionSample>,
    cfg: &GovernanceConfig,
    as_of: &str,
) -> (r: GovernanceMetrics)
    ensures
        r.as_of@ == as_of@,
        r.total_projects == projects@.len(),
        r.operational_projects == offenders_of(
            Check::Operational,
            projects@,
            cfg.maintainer_min,
            as_of@,
        ).len(),
        r.metrics@.len() == 10,
        forall|i: int|
            0 <= i < 10 ==> (#[trigger] r.metrics@[i])@ == portfolio(
                projects@,
                samples@,
                cfg.maintainer_min,
                as_of@,
            )[i],
        r.metrics@[6].value matches MetricValue::MeanDays { total, samples: n } ==> total
            == light_seconds(samples@) && n == light_projects(samples@).len(),
        r.metrics@[6].key@ == "light_promotion_cycle_days"@,
        r.metrics@[6].measurable <==> exists|i: int|
            0 <= i < samples@.len() && (#[trigger] samples@[i]).target@ == "light-operational"@,
        !r.metrics@[6].measurable ==> r.metrics@[6].value == MetricValue::Unmeasured,
        r.metrics@[6].measurable ==> r.metrics@[6].value is MeanDays,
        r.metrics@[7].key@ == "missing_inventory_record"@,
        r.metrics@[8].key@ == "incidents_by_classification"@,
        r.metrics@[9].key@ == "change_failure_rate"@,
        forall|i: int|
            7 <= i < 10 ==> !(#[trigger] r.metrics@[i]).measurable && r.metrics@[i].value
                == MetricValue::Unmeasured && r.metrics@[i].offenders@.len() == 0
                && r.metrics@[i].note is Some,
        texts(r.metrics@[6].offenders@) == samples@.filter(
            |s: PromotionSample| s.target@ == "light-operational"@,
        ).map_values(|s: PromotionSample| s.project_id@),
        r.operational_projects == projects@.filter(
            |r: Registration| r.registered && r.lifecycle@ == "active"@ && r.classification@ != "poc"@,
        ).len(),
        r.metrics@[0].key@ == "ownerless_operational"@,
        r.metrics@[0].measurable,
        r.metrics@[0].value == MetricValue::Count(r.metrics@[0].offenders@.len() as usize),
        texts(r.metrics@[0].offenders@) == projects@.filter(
            |r: Registration|
                r.registered && r.lifecycle@ == "active"@ && r.classification@ != "poc"@ && blank(
                    r.owner@,
                ),
        ).map_values(|r: Registration| r.project_id@),
        r.metrics@[1].key@ == "no_support_path_operational"@,
        r.metrics@[1].measurable,
        r.metrics@[1].value == MetricValue::Count(r.metrics@[1].offenders@.len() as usize),
        texts(r.metrics@[1].offenders@) == projects@.filter(
            |r: Registration|
                r.registered && r.lifecycle@ == "active"@ && r.classification@ != "poc"@ && blank(
                    r.evidence.support_contact@,
                ),
        ).map_values(|r: Registration| r.project_id@),
        r.metrics@[2].key@ == "understaffed_wide_critical"@,
        r.metrics@[2].measurable,
        r.metrics@[2].value == MetricValue::Count(r.metrics@[2].offenders@.len() as usize),
        texts(r.metrics@[2].offenders@) == projects@.filter(
            |r: Registration|
                r.registered && r.lifecycle@ == "active"@ && (r.classification@
                    == "wide-operational"@ || r.classification@ == "critical-path"@)
                    && r.evidence.maintainers@.len() < cfg.maintainer_min,
        ).map_values(|r: Registration| r.project_id@),
        r.metrics@[3].key@ == "stale_pocs"@,
        r.metrics@[3].measurable,
        r.metrics@[3].value == MetricValue::Count(r.metrics@[3].offenders@.len() as usize),
        texts(r.metrics@[3].offenders@) == projects@.filter(
            |r: Registration|
                r.registered && r.lifecycle@ == "active"@ && r.classification@ == "poc"@
                    && r.review_state@ == "expired"@,
        ).map_values(|r: Registration| r.project_id@),
        r.metrics@[4].key@ == "stale_inventory"@,
        r.metrics@[4].measurable,
        r.metrics@[4].value == MetricValue::Count(r.metrics@[4].offenders@.len() as usize),
        texts(r.metrics@[4].offenders@) == projects@.filter(
            |r: Registration|
                r.registered && r.lifecycle@ == "active"@ && r.classification@ != "poc"@
                    && r.review_state@ == "expired"@,
        ).map_values(|r: Registration| r.project_id@),
        r.metrics@[5].key@ == "unsupported_stack"@,
        r.metrics@[5].measurable,
        r.metrics@[5].value == MetricValue::Count(r.metrics@[5].offenders@.len() as usize),
        texts(r.metrics@[5].offenders@) == projects@.filter(
            |r: Registration|
                r.registered && r.lifecycle@ == "active"@ && !blank(r.evidence.stack_exception@),
        ).map_values(|r: Registration| r.project_id@),
{
    let min: i64 = cfg.maintainer_min;
    let operational = offenders(Check::Operational, projects, min, as_of);
    assert(texts(operational@).len() == operational@.len());
    let unsupported = offenders(Check::UnsupportedStack, projects, min, as_of);
    let lapsed = offenders(Check::LapsedStack, projects, min, as_of);
    assert(texts(unsupported@).len() == unsupported@.len());
    assert(texts(lapsed@).len() == lapsed@.len());
    let mut note = decimal_text(lapsed.len() as u64);
    note.append(" of ");
    let all = decimal_text(unsupported.len() as u64);
    note.append(all.as_str());
    note.append(" have no future renewal date (lapsed/unbounded exception)");
    let mut staffing = "Wide/Critical systems with fewer than ".to_owned();
    let min_text = decimal_int_text(min);
    staffing.append(min_text.as_str());
    staffing.append(" maintainers");
    let metrics = vec![
        count_metric(
            "ownerless_operational",
            "Operational systems without a named owner",
            "0",
            offenders(Check::Ownerless, projects, min, as_of),
            Some("≈0 until WS5 ingests owner-less shadow systems".to_owned()),
        ),
        count_metric(
            "no_support_path_operational",
            "Operational systems without a support path",
            "0",
            offenders(Check::NoSupport, projects, min, as_of),
            None,
        ),
        count_metric(
            "understaffed_wide_critical",
            staffing.as_str(),
            "0",
            offenders(Check::Understaffed, projects, min, as_of),
            None,
        ),
        count_metric(
            "stale_pocs",
            "POCs past their review date without a decision",
            "down",
            offenders(Check::StalePoc, projects, min, as_of),
            None,
        ),
        count_metric(
            "stale_inventory",
            "Operational systems with an expired review",
            "down",
            offenders(Check::StaleInventory, projects, min, as_of),
            None,
        ),
        count_metric(
            "unsupported_stack",
            "Systems running on an unsupported stack (exception declared)",
            "down/justified",
            unsupported,
            Some(note),
        ),
        light_cycle_metric(samples),
        stub_metric(
            "missing_inventory_record",
            "Shadow/unregistered operational systems",
            "0",
            "no data source yet — needs WS5 existing-system discovery",
        ),
        stub_metric(
            "incidents_by_classification",
            "Incidents by classification",
            "—",
            "no data source yet — no incident feed wired up",
        ),
        stub_metric(
            "change_failure_rate",
            "Change failure rate",
            "—",
            "no data source yet — no incident/deploy feed wired up",
        ),
    ];
    proof {
        law_conditions_list_their_projects(projects@, min, as_of@);
        law_cycle_time_is_of_light_promotions(samples@);
        lemma_light_projects(samples@);
        assert forall|i: int| 7 <= i < 10 implies (#[trigger] metrics@[i]).offenders@.len() == 0 by {
            assert(texts(metrics@[i].offenders@).len() == 0);
        }
        assert forall|i: int| 0 <= i < 6 implies texts(
            (#[trigger] metrics@[i]).offenders@,
        ).len() == metrics@[i].offenders@.len() by {}
    }
    GovernanceMetrics {
        as_of: as_of.to_owned(),
        total_projects: projects.len(),
        operational_projects: operational.len(),
        metrics,
    }
}

/// Whether a reader is shown a project: everybody's without a scope, else what the
/// reader owns or manages.
pub open spec fn shown_to(r: Registration, scope: Option<Seq<char>>) -> bool {
    match scope {
        Some(who) => r.owner@ == who || r.manager@ == who,
        None => true,
    }
}

/// Whether a reader is shown a project.
pub fn in_scope(r: &Registration, scope: Option<&str>) -> (b: bool)
    ensures
        b == shown_to(*r, contents_ref(scope)),
        scope is None ==> b,
        scope matches Some(who) ==> (b <==> r.owner@ == who@ || r.manager@ == who@),
{
    match scope {
        Some(who) => text_eq(r.owner.as_str(), who) || text_eq(r.manager.as_str(), who),
        None => true,
    }
}

/// A promotion as the log of requests has it. The seconds run from the request to
/// its last change; there are none where a time cannot be read.
#[derive(Debug)]
pub struct PromotionLog {
    pub subject: String,
    pub state: String,
    pub payload: String,
    pub seconds: Option<i64>,
}

/// The tier that a logged payload names; blank where none can be read.
pub open spec fn logged_target(payload: Seq<char>) -> Seq<char> {
    match json_read(payload) {
        Ok(v) => v.text_or_empty("target_classification"@),
        Err(_) => Seq::empty(),
    }
}

/// A promotion counts once it is fulfilled, for a project that is looked at, and
/// with a time that can be read.
pub open spec fn sampled(row: PromotionLog, ids: Seq<Seq<char>>) -> bool {
    row.state@ == "fulfilled"@ && row.seconds is Some && match after_prefix(
        row.subject@,
        "project:"@,
    ) {
        Some(id) => ids.contains(id),
        None => false,
    }
}

/// The places of the promotions that count.
pub open spec fn sampled_places(rows: Seq<PromotionLog>, ids: Seq<Seq<char>>) -> Seq<int>
    decreases rows.len(),
{
    if rows.len() == 0 {
        Seq::empty()
    } else if sampled(rows.last(), ids) {
        sampled_places(rows.drop_last(), ids).push(rows.len() - 1)
    } else {
        sampled_places(rows.drop_last(), ids)
    }
}

/// Whether a sample is of a logged promotion.
pub open spec fn sample_of(s: PromotionSample, row: PromotionLog) -> bool {
    after_prefix(row.subject@, "project:"@) == Some(s.project_id@) && s.target@ == logged_target(
        row.payload@,
    ) && row.seconds == Some(s.seconds)
}

fn target_of(payload: &str) -> (r: String)
    ensures
        r@ == logged_target(payload@),
{
    match Json::parse(payload) {
        Ok(v) => v.get_str_or_empty("target_classification"),
        Err(_) => String::new(),
    }
}

/// The samples of fulfilled promotions of some projects.
pub fn promotion_samples(rows: &Vec<PromotionLog>, ids: &Vec<String>) -> (r: Vec<PromotionSample>)
    ensures
        r@.len() == sampled_places(rows@, texts(ids@)).len(),
        forall|i: int|
            0 <= i < r@.len() ==> sample_of(
                #[trigger] r@[i],
                rows@[sampled_places(rows@, texts(ids@))[i]],
            ),
{
    let ghost known = texts(ids@);
    let mut out: Vec<PromotionSample> = Vec::new();
    let mut i: usize = 0;
    assert(rows@.take(0) =~= Seq::empty());
    while i < rows.len()
        invariant
            i <= rows@.len(),
            known == texts(ids@),
            out@.len() == sampled_places(rows@.take(i as int), known).len(),
            forall|k: int|
                0 <= k < out@.len() ==> sample_of(
                    #[trigger] out@[k],
                    rows@[sampled_places(rows@.take(i as int), known)[k]],
                ),
        decreases rows.len() - i,
    {
        assert(rows@.take(i + 1).drop_last() =~= rows@.take(i as int));
        let ghost was = out@;
        let ghost seen = sampled_places(rows@.take(i as int), known);
        let ghost now = sampled_places(rows@.take(i + 1), known);
        let row = &rows[i];
        if text_eq(row.state.as_str(), "fulfilled") {
            match strip_prefix(row.subject.as_str(), "project:") {
                Some(id) => {
                    if list_contains(ids, id.as_str()) {
                        match row.seconds {
                            Some(seconds) => {
                                let target = target_of(row.payload.as_str());
                                out.push(PromotionSample { project_id: id, target, seconds });
                            },
                            None => {},
                        }
                    }
                },
                None => {},
            }
        }
        proof {
            assert forall|k: int| 0 <= k < out@.len() implies sample_of(
                #[trigger] out@[k],
                rows@[now[k]],
            ) by {
                if k < was.len() {
                    assert(out@[k] == was[k] && now[k] == seen[k]);
                }
            }
        }
        i = i + 1;
    }
    assert(rows@.take(rows@.len() as int) =~= rows@);
    out
}

/// The promotions that are sampled are those, in order, that are fulfilled, have a time
/// that can be read, and are of a project among the ids.
pub proof fn law_samples_are_fulfilled_promotions(rows: Seq<PromotionLog>, ids: Seq<Seq<char>>)
    ensures
        forall|i: int|
            0 <= i < sampled_places(rows, ids).len() ==> 0 <= #[trigger] sampled_places(rows, ids)[i]
                < rows.len(),
        forall|i: int, j: int|
            0 <= i < j < sampled_places(rows, ids).len() ==> #[trigger] sampled_places(rows, ids)[i]
                < #[trigger] sampled_places(rows, ids)[j],
        forall|k: int|
            0 <= k < rows.len() ==> (#[trigger] sampled_places(rows, ids).contains(k) <==> {
                &&& rows[k].state@ == "fulfilled"@
                &&& rows[k].seconds is Some
                &&& exists|j: int|
                    0 <= j < ids.len() && rows[k].subject@ == "project:"@ + #[trigger] ids[j]
            }),
    decreases rows.len(),
{
    let all = sampled_places(rows, ids);
    if rows.len() > 0 {
        let rest = rows.drop_last();
        let some = sampled_places(rest, ids);
        law_samples_are_fulfilled_promotions(rest, ids);
        assert forall|k: int| 0 <= k < rows.len() implies (#[trigger] all.contains(k) <==> {
            &&& rows[k].state@ == "fulfilled"@
            &&& rows[k].seconds is Some
            &&& exists|j: int|
                0 <= j < ids.len() && rows[k].subject@ == "project:"@ + #[trigger] ids[j]
        }) by {
            if k < rest.len() {
                assert(rest[k] == rows[k]);
                assert(some.contains(k) ==> all.contains(k)) by {
                    if some.contains(k) {
                        let i = choose|i: int| 0 <= i < some.len() && some[i] == k;
                        assert(all[i] == k);
                    }
                }
                assert(all.contains(k) ==> some.contains(k)) by {
                    if all.contains(k) {
                        let i = choose|i: int| 0 <= i < all.len() && all[i] == k;
                        assert(i < some.len());
                        assert(some[i] == k);
                    }
                }
            } else {
                lemma_project_subject(rows[k].subject@, ids);
                if sampled(rows[k], ids) {
                    assert(all[some.len() as int] == k);
                } else if all.contains(k) {
                    let i = choose|i: int| 0 <= i < all.len() && all[i] == k;
                    assert(some[i] == k);
                }
            }
        }
    }
}

proof fn lemma_project_subject(subject: Seq<char>, ids: Seq<Seq<char>>)
    ensures
        (match after_prefix(subject, "project:"@) {
            Some(id) => ids.contains(id),
            None => false,
        }) <==> exists|j: int|
            0 <= j < ids.len() && subject == "project:"@ + #[trigger] ids[j],
{
    let p = "project:"@;
    if after_prefix(subject, p) is Some {
        let id = after_prefix(subject, p)->0;
        assert(subject =~= p + id);
        if ids.contains(id) {
            let j = choose|j: int| 0 <= j < ids.len() && ids[j] == id;
            assert(subject == p + ids[j]);
        }
    }
    if exists|j: int| 0 <= j < ids.len() && subject == p + #[trigger] ids[j] {
        let j = choose|j: int| 0 <= j < ids.len() && subject == p + #[trigger] ids[j];
        assert(subject.subrange(0, p.len() as int) =~= p);
        assert(subject.subrange(p.len() as int, subject.len() as int) =~= ids[j]);
        assert(ids.contains(ids[j]));
    }
}

/// A sample has the project that the subject names, the tier that the payload names and
/// the seconds that the log has.
pub proof fn law_sample_is_of_its_promotion(s: PromotionSample, row: PromotionLog)
    requires
        sample_of(s, row),
    ensures
        row.subject@ == "project:"@ + s.project_id@,
        row.seconds == Some(s.seconds),
        json_read(row.payload@) matches Ok(v) ==> s.target@ == v.text_or_empty(
            "target_classification"@,
        ),
        json_read(row.payload@) is Err ==> s.target@.len() == 0,
{
    let p = "project:"@;
    assert(row.subject@ =~= p + s.project_id@);
}

} // verus!
