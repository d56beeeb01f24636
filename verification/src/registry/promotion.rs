//! Promotion between tiers: the ladder, the per-tier evidence table and the
//! verdict on a project's readiness for the next tier.
use vstd::prelude::*;

use crate::registry::{Registration, RegistryError, RegistryFault};
use crate::sorted_map::SortedMap;
use crate::text::{blank, copy_texts, is_blank, join, joined, list_contains, text_eq, texts};

verus! {

/// The place of a classification on the ladder; nothing for an unknown one.
pub open spec fn rank_of(c: Seq<char>) -> Option<int> {
    if c == "poc"@ {
        Some(0int)
    } else if c == "light-operational"@ {
        Some(1int)
    } else if c == "wide-operational"@ {
        Some(2int)
    } else if c == "critical-path"@ {
        Some(3int)
    } else {
        None
    }
}

/// The place of a classification on the ladder.
pub fn tier_rank(classification: &str) -> (r: Option<usize>)
    ensures
        match r {
            Some(k) => rank_of(classification@) == Some(k as int),
            None => rank_of(classification@) is None,
        },
{
    if text_eq(classification, "poc") {
        Some(0)
    } else if text_eq(classification, "light-operational") {
        Some(1)
    } else if text_eq(classification, "wide-operational") {
        Some(2)
    } else if text_eq(classification, "critical-path") {
        Some(3)
    } else {
        None
    }
}

/// The tier one step above; nothing at the top or for an unknown tier.
pub open spec fn tier_above(c: Seq<char>) -> Option<Seq<char>> {
    match rank_of(c) {
        Some(k) => if k == 0 {
            Some("light-operational"@)
        } else if k == 1 {
            Some("wide-operational"@)
        } else if k == 2 {
            Some("critical-path"@)
        } else {
            None
        },
        None => None,
    }
}

/// The tier one step above.
pub fn next_tier(classification: &str) -> (r: Option<&'static str>)
    ensures
        match r {
            Some(t) => tier_above(classification@) == Some(t@),
            None => tier_above(classification@) is None,
        },
{
    match tier_rank(classification) {
        Some(k) => if k == 0 {
            Some("light-operational")
        } else if k == 1 {
            Some("wide-operational")
        } else if k == 2 {
            Some("critical-path")
        } else {
            None
        },
        None => None,
    }
}

/// Why a move from `current` to `target` is no promotion.
pub open spec fn step_fault(current: Seq<char>, target: Seq<char>) -> Option<RegistryFault> {
    match (rank_of(current), rank_of(target)) {
        (None, _) => Some(
            RegistryFault::Validation("unknown classification '"@ + current + "'"@),
        ),
        (Some(_), None) => Some(
            RegistryFault::Validation("unknown classification '"@ + target + "'"@),
        ),
        (Some(c), Some(t)) => if t == c + 1 {
            None
        } else {
            Some(
                RegistryFault::Validation(
                    "promotion must be exactly one step up (from '"@ + current
                        + "' the only target is '"@ + (match tier_above(current) {
                        Some(n) => n,
                        None => "<none: already at top tier>"@,
                    }) + "')"@,
                ),
            )
        },
    }
}

fn unknown_classification(c: &str) -> (r: RegistryError)
    ensures
        r@ == RegistryFault::Validation("unknown classification '"@ + c@ + "'"@),
{
    let mut m = "unknown classification '".to_owned();
    m.append(c);
    m.append("'");
    RegistryError::Validation(m)
}

/// Admits a move exactly one step up the ladder.
pub fn validate_step(current: &str, target: &str) -> (r: Result<(), RegistryError>)
    ensures
        match r {
            Ok(_) => step_fault(current@, target@) is None,
            Err(e) => step_fault(current@, target@) == Some(e@),
        },
{
    let cur: usize = match tier_rank(current) {
        Some(k) => k,
        None => {
            return Err(unknown_classification(current));
        },
    };
    let tgt: usize = match tier_rank(target) {
        Some(k) => k,
        None => {
            return Err(unknown_classification(target));
        },
    };
    if tgt == cur + 1 {
        Ok(())
    } else {
        let mut m = "promotion must be exactly one step up (from '".to_owned();
        m.append(current);
        m.append("' the only target is '");
        match next_tier(current) {
            Some(n) => m.append(n),
            None => m.append("<none: already at top tier>"),
        }
        m.append("')");
        Err(RegistryError::Validation(m))
    }
}

/// The fields that become mandatory at each tier above the lowest.
#[derive(Debug)]
pub struct ClassificationRequirements {
    pub light: Vec<String>,
    pub wide: Vec<String>,
    pub critical: Vec<String>,
}

/// The shipped requirements of the light tier.
pub open spec fn default_light() -> Seq<Seq<char>> {
    seq![
        "repo_or_source_url"@,
        "business_owner"@,
        "technical_owner"@,
        "team_or_org_of_record"@,
        "support_contact"@,
        "runbook_url"@,
        "monitoring_or_logs_url"@,
        "ci_status_url"@,
        "primary_data_flows"@,
        "critical_flow_test_or_eval_url"@,
        "state_loss_posture"@,
        "requested_classification"@,
    ]
}

/// The shipped requirements of the wide tier.
pub open spec fn default_wide() -> Seq<Seq<char>> {
    seq![
        "security_review_status"@,
        "architecture_summary_url"@,
        "critical_dependencies"@,
        "incident_path"@,
        "slo_or_service_target"@,
        "rpo_rto"@,
        "decommission_path"@,
    ]
}

/// The shipped requirements of the critical tier.
pub open spec fn default_critical() -> Seq<Seq<char>> {
    seq![
        "executive_accountable_owner"@,
        "risk_acceptance_url"@,
        "dr_exercise_evidence_url"@,
        "audit_retention_requirement"@,
        "recurring_review_date"@,
    ]
}

/// Owned copies of a list of texts.
pub fn owned(items: &[&str]) -> (r: Vec<String>)
    ensures
        texts(r@) == Seq::new(items@.len(), |i: int| items@[i]@),
{
    let mut out: Vec<String> = Vec::new();
    let mut i: usize = 0;
    while i < items.len()
        invariant
            i <= items@.len(),
            out@.len() == i,
            forall|k: int| 0 <= k < i ==> (#[trigger] out@[k])@ == items@[k]@,
        decreases items.len() - i,
    {
        out.push(items[i].to_owned());
        i = i + 1;
    }
    assert(texts(out@) =~= Seq::new(items@.len(), |i: int| items@[i]@));
    out
}

impl Default for ClassificationRequirements {
    fn default() -> (r: ClassificationRequirements)
        ensures
            texts(r.light@) == default_light(),
            texts(r.wide@) == default_wide(),
            texts(r.critical@) == default_critical(),
    {
        let r = ClassificationRequirements {
            light: owned(
                &[
                    "repo_or_source_url",
                    "business_owner",
                    "technical_owner",
                    "team_or_org_of_record",
                    "support_contact",
                    "runbook_url",
                    "monitoring_or_logs_url",
                    "ci_status_url",
                    "primary_data_flows",
                    "critical_flow_test_or_eval_url",
                    "state_loss_posture",
                    "requested_classification",
                ],
            ),
            wide: owned(
                &[
                    "security_review_status",
                    "architecture_summary_url",
                    "critical_dependencies",
                    "incident_path",
                    "slo_or_service_target",
                    "rpo_rto",
                    "decommission_path",
                ],
            ),
            critical: owned(
                &[
                    "executive_accountable_owner",
                    "risk_acceptance_url",
                    "dr_exercise_evidence_url",
                    "audit_retention_requirement",
                    "recurring_review_date",
                ],
            ),
        };
        assert(texts(r.light@) =~= default_light());
        assert(texts(r.wide@) =~= default_wide());
        assert(texts(r.critical@) =~= default_critical());
        r
    }
}

/// The list of one tier: the one given for it, else the shipped one.
pub open spec fn tier_list(
    overrides: Map<Seq<char>, Vec<String>>,
    tier: Seq<char>,
    shipped: Seq<Seq<char>>,
) -> Seq<Seq<char>> {
    if overrides.contains_key(tier) {
        texts(overrides[tier]@)
    } else {
        shipped
    }
}

impl ClassificationRequirements {
    /// The shipped table with the lists of the given tiers in place of its own.
    /// Unknown tiers are ignored.
    pub fn from_overrides(overrides: SortedMap<Vec<String>>) -> (r: ClassificationRequirements)
        ensures
            texts(r.light@) == tier_list(overrides@, "light-operational"@, default_light()),
            texts(r.wide@) == tier_list(overrides@, "wide-operational"@, default_wide()),
            texts(r.critical@) == tier_list(overrides@, "critical-path"@, default_critical()),
    {
        let mut reqs = ClassificationRequirements::default();
        match overrides.get("light-operational") {
            Some(fields) => {
                reqs.light = copy_texts(fields);
            },
            None => {},
        }
        match overrides.get("wide-operational") {
            Some(fields) => {
                reqs.wide = copy_texts(fields);
            },
            None => {},
        }
        match overrides.get("critical-path") {
            Some(fields) => {
                reqs.critical = copy_texts(fields);
            },
            None => {},
        }
        reqs
    }

    /// The fields required for a target tier: its own and those of every tier
    /// below it.
    pub open spec fn required(self, target: Seq<char>) -> Seq<Seq<char>> {
        match rank_of(target) {
            Some(k) => if k == 0 {
                Seq::empty()
            } else if k == 1 {
                texts(self.light@)
            } else if k == 2 {
                texts(self.light@) + texts(self.wide@)
            } else {
                texts(self.light@) + texts(self.wide@) + texts(self.critical@)
            },
            None => Seq::empty(),
        }
    }

    /// The fields required for a target tier.
    pub fn required_through(&self, target: &str) -> (r: Vec<String>)
        ensures
            texts(r@) == self.required(target@),
    {
        let mut out: Vec<String> = Vec::new();
        match tier_rank(target) {
            Some(rank) => {
                if rank >= 1 {
                    let mut part = copy_texts(&self.light);
                    out.append(&mut part);
                }
                if rank >= 2 {
                    let mut part = copy_texts(&self.wide);
                    out.append(&mut part);
                }
                if rank >= 3 {
                    let mut part = copy_texts(&self.critical);
                    out.append(&mut part);
                }
            },
            None => {},
        }
        assert(texts(out@) =~= self.required(target@));
        out
    }
}

/// The machine verdict on a promotion to `target`.
#[derive(Debug)]
pub struct EvidenceVerdict {
    pub target: String,
    pub evidence_complete: bool,
    pub missing: Vec<String>,
    pub exception_signals: Vec<String>,
    pub unverified_signals: Vec<String>,
}

impl EvidenceVerdict {
    /// No missing evidence and no exception signal.
    pub fn auto_approvable(&self) -> (r: bool)
        ensures
            r == (self.evidence_complete && self.exception_signals@.len() == 0),
    {
        self.evidence_complete && self.exception_signals.is_empty()
    }
}

/// Where a project stands, the one tier it may move to and the verdict on it.
#[derive(Debug)]
pub struct PromotionChecklist {
    pub current: String,
    pub next_tier: Option<String>,
    pub verdict: Option<EvidenceVerdict>,
}

/// The exception triggers for which there is no data source.
pub open spec fn unverified() -> Seq<Seq<char>> {
    seq![
        "requested tier may be below observed usage/exposure/cost (no telemetry source)"@,
        "public / partner / regulated access may be involved (no exposure field)"@,
        "a human may have reported a concern (no report channel)"@,
    ]
}

/// Whether a required field, by its name, is filled in: a text that is not
/// blank, or a list that is not empty. An unknown name never is.
pub open spec fn present(reg: Registration, field: Seq<char>) -> bool {
    let ev = reg.evidence;
    if field == "owner"@ {
        !blank(reg.owner@)
    } else if field == "manager"@ {
        !blank(reg.manager@)
    } else if field == "group"@ {
        !blank(reg.group@)
    } else if field == "data_class"@ {
        !blank(reg.data_class@)
    } else if field == "description"@ {
        !blank(reg.description@)
    } else if field == "requested_classification"@ {
        !blank(ev.requested_classification@)
    } else if field == "repo_or_source_url"@ {
        !blank(ev.repo_or_source_url@)
    } else if field == "business_owner"@ {
        !blank(ev.business_owner@)
    } else if field == "technical_owner"@ {
        !blank(ev.technical_owner@)
    } else if field == "team_or_org_of_record"@ {
        !blank(ev.team_or_org_of_record@)
    } else if field == "support_contact"@ {
        !blank(ev.support_contact@)
    } else if field == "runbook_url"@ {
        !blank(ev.runbook_url@)
    } else if field == "monitoring_or_logs_url"@ {
        !blank(ev.monitoring_or_logs_url@)
    } else if field == "ci_status_url"@ {
        !blank(ev.ci_status_url@)
    } else if field == "critical_flow_test_or_eval_url"@ {
        !blank(ev.critical_flow_test_or_eval_url@)
    } else if field == "state_loss_posture"@ {
        !blank(ev.state_loss_posture@)
    } else if field == "stack_exception"@ {
        !blank(ev.stack_exception@)
    } else if field == "security_review_status"@ {
        !blank(ev.security_review_status@)
    } else if field == "architecture_summary_url"@ {
        !blank(ev.architecture_summary_url@)
    } else if field == "incident_path"@ {
        !blank(ev.incident_path@)
    } else if field == "slo_or_service_target"@ {
        !blank(ev.slo_or_service_target@)
    } else if field == "rpo_rto"@ {
        !blank(ev.rpo_rto@)
    } else if field == "decommission_path"@ {
        !blank(ev.decommission_path@)
    } else if field == "executive_accountable_owner"@ {
        !blank(ev.executive_accountable_owner@)
    } else if field == "risk_acceptance_url"@ {
        !blank(ev.risk_acceptance_url@)
    } else if field == "dr_exercise_evidence_url"@ {
        !blank(ev.dr_exercise_evidence_url@)
    } else if field == "audit_retention_requirement"@ {
        !blank(ev.audit_retention_requirement@)
    } else if field == "recurring_review_date"@ {
        !blank(ev.recurring_review_date@)
    } else if field == "maintainers"@ {
        ev.maintainers@.len() > 0
    } else if field == "critical_dependencies"@ {
        ev.critical_dependencies@.len() > 0
    } else if field == "primary_data_flows"@ {
        ev.primary_data_flows@.len() > 0
    } else {
        false
    }
}

/// Whether a required field, by its name, is filled in.
pub fn field_present(reg: &Registration, field: &str) -> (r: bool)
    ensures
        r == present(*reg, field@),
{
    let ev = &reg.evidence;
    if text_eq(field, "owner") {
        !is_blank(reg.owner.as_str())
    } else if text_eq(field, "manager") {
        !is_blank(reg.manager.as_str())
    } else if text_eq(field, "group") {
        !is_blank(reg.group.as_str())
    } else if text_eq(field, "data_class") {
        !is_blank(reg.data_class.as_str())
    } else if text_eq(field, "description") {
        !is_blank(reg.description.as_str())
    } else if text_eq(field, "requested_classification") {
        !is_blank(ev.requested_classification.as_str())
    } else if text_eq(field, "repo_or_source_url") {
        !is_blank(ev.repo_or_source_url.as_str())
    } else if text_eq(field, "business_owner") {
        !is_blank(ev.business_owner.as_str())
    } else if text_eq(field, "technical_owner") {
        !is_blank(ev.technical_owner.as_str())
    } else if text_eq(field, "team_or_org_of_record") {
        !is_blank(ev.team_or_org_of_record.as_str())
    } else if text_eq(field, "support_contact") {
        !is_blank(ev.support_contact.as_str())
    } else if text_eq(field, "runbook_url") {
        !is_blank(ev.runbook_url.as_str())
    } else if text_eq(field, "monitoring_or_logs_url") {
        !is_blank(ev.monitoring_or_logs_url.as_str())
    } else if text_eq(field, "ci_status_url") {
        !is_blank(ev.ci_status_url.as_str())
    } else if text_eq(field, "critical_flow_test_or_eval_url") {
        !is_blank(ev.critical_flow_test_or_eval_url.as_str())
    } else if text_eq(field, "state_loss_posture") {
        !is_blank(ev.state_loss_posture.as_str())
    } else if text_eq(field, "stack_exception") {
        !is_blank(ev.stack_exception.as_str())
    } else if text_eq(field, "security_review_status") {
        !is_blank(ev.security_review_status.as_str())
    } else if text_eq(field, "architecture_summary_url") {
        !is_blank(ev.architecture_summary_url.as_str())
    } else if text_eq(field, "incident_path") {
        !is_blank(ev.incident_path.as_str())
    } else if text_eq(field, "slo_or_service_target") {
        !is_blank(ev.slo_or_service_target.as_str())
    } else if text_eq(field, "rpo_rto") {
        !is_blank(ev.rpo_rto.as_str())
    } else if text_eq(field, "decommission_path") {
        !is_blank(ev.decommission_path.as_str())
    } else if text_eq(field, "executive_accountable_owner") {
        !is_blank(ev.executive_accountable_owner.as_str())
    } else if text_eq(field, "risk_acceptance_url") {
        !is_blank(ev.risk_acceptance_url.as_str())
    } else if text_eq(field, "dr_exercise_evidence_url") {
        !is_blank(ev.dr_exercise_evidence_url.as_str())
    } else if text_eq(field, "audit_retention_requirement") {
        !is_blank(ev.audit_retention_requirement.as_str())
    } else if text_eq(field, "recurring_review_date") {
        !is_blank(ev.recurring_review_date.as_str())
    } else if text_eq(field, "maintainers") {
        !ev.maintainers.is_empty()
    } else if text_eq(field, "critical_dependencies") {
        !ev.critical_dependencies.is_empty()
    } else if text_eq(field, "primary_data_flows") {
        !ev.primary_data_flows.is_empty()
    } else {
        false
    }
}

/// The required fields that are not filled in, in order.
pub open spec fn gaps(reg: Registration, required: Seq<Seq<char>>) -> Seq<Seq<char>>
    decreases required.len(),
{
    if required.len() == 0 {
        Seq::empty()
    } else {
        let rest = gaps(reg, required.drop_last());
        if present(reg, required.last()) {
            rest
        } else {
            rest.push(required.last())
        }
    }
}

/// A one-element list when the condition holds, else nothing.
pub open spec fn when(cond: bool, item: Seq<char>) -> Seq<Seq<char>> {
    if cond {
        seq![item]
    } else {
        Seq::empty()
    }
}

/// Data whose class asks for a security review.
pub open spec fn sensitive(reg: Registration) -> bool {
    reg.data_class@ == "confidential"@ || reg.data_class@ == "restricted"@
}

/// A security review that was approved or waived.
pub open spec fn reviewed(reg: Registration) -> bool {
    reg.evidence.security_review_status@ == "approved"@
        || reg.evidence.security_review_status@ == "waived"@
}

/// The signal for sensitive data without a review.
pub open spec fn sensitive_signal(reg: Registration) -> Seq<char> {
    "data_class '"@ + reg.data_class@
        + "' present without an approved/waived security review (status: '"@ + (
    if reg.evidence.security_review_status@.len() == 0 {
        "not declared"@
    } else {
        reg.evidence.security_review_status@
    }) + "')"@
}

/// The accountability paths that are blank, the last three only where required.
pub open spec fn absent_paths(reg: Registration, required: Seq<Seq<char>>) -> Seq<Seq<char>> {
    when(blank(reg.owner@), "owner"@) + when(
        required.contains("team_or_org_of_record"@) && !present(reg, "team_or_org_of_record"@),
        "team_or_org_of_record"@,
    ) + when(
        required.contains("support_contact"@) && !present(reg, "support_contact"@),
        "support_contact"@,
    ) + when(
        required.contains("decommission_path"@) && !present(reg, "decommission_path"@),
        "decommission_path"@,
    )
}

/// The exception signals that fire, in order.
pub open spec fn signals(reg: Registration, required: Seq<Seq<char>>) -> Seq<Seq<char>> {
    when(gaps(reg, required).len() > 0, "required evidence missing or empty"@) + when(
        sensitive(reg) && !reviewed(reg),
        sensitive_signal(reg),
    ) + when(!blank(reg.evidence.stack_exception@), "a stack exception is declared"@) + when(
        absent_paths(reg, required).len() > 0,
        "no credible accountability path: "@ + joined(absent_paths(reg, required), ", "@)
            + " empty"@,
    )
}

fn missing_fields(reg: &Registration, required: &Vec<String>) -> (r: Vec<String>)
    ensures
        texts(r@) == gaps(*reg, texts(required@)),
{
    let mut out: Vec<String> = Vec::new();
    let mut i: usize = 0;
    assert(texts(out@) =~= gaps(*reg, texts(required@).take(0)));
    while i < required.len()
        invariant
            i <= required@.len(),
            texts(out@) == gaps(*reg, texts(required@).take(i as int)),
        decreases required.len() - i,
    {
        let ghost next = texts(required@).take(i + 1);
        assert(next.drop_last() =~= texts(required@).take(i as int));
        assert(next.last() == required@[i as int]@);
        let ghost prev = texts(out@);
        if !field_present(reg, required[i].as_str()) {
            out.push(required[i].clone());
            assert(texts(out@) =~= prev.push(required@[i as int]@));
        }
        i = i + 1;
    }
    assert(texts(required@).take(required@.len() as int) =~= texts(required@));
    out
}

fn push_when(out: &mut Vec<String>, cond: bool, item: String)
    ensures
        texts(final(out)@) == texts(old(out)@) + when(cond, item@),
{
    let ghost prev = texts(out@);
    if cond {
        out.push(item);
    }
    assert(texts(out@) =~= prev + when(cond, item@));
}

fn lacks(reg: &Registration, required: &Vec<String>, field: &str) -> (r: bool)
    ensures
        r == (texts(required@).contains(field@) && !present(*reg, field@)),
{
    list_contains(required, field) && !field_present(reg, field)
}

/// Judges a project's readiness for `target` against the requirement table.
pub fn evaluate(
    reg: &Registration,
    target: &str,
    reqs: &ClassificationRequirements,
) -> (r: EvidenceVerdict)
    ensures
        r.target@ == target@,
        texts(r.missing@) == gaps(*reg, reqs.required(target@)),
        r.evidence_complete == (gaps(*reg, reqs.required(target@)).len() == 0),
        texts(r.exception_signals@) == signals(*reg, reqs.required(target@)),
        texts(r.unverified_signals@) == unverified(),
        (reg.data_class@ == "confidential"@ || reg.data_class@ == "restricted"@)
            && reg.evidence.security_review_status@ != "approved"@
            && reg.evidence.security_review_status@ != "waived"@ ==> exists|i: int|
            0 <= i < r.exception_signals@.len() && "data_class '"@.is_prefix_of(
                (#[trigger] r.exception_signals@[i])@,
            ),
        forall|i: int|
            0 <= i < r.exception_signals@.len() && "data_class '"@.is_prefix_of(
                (#[trigger] r.exception_signals@[i])@,
            ) ==> (reg.data_class@ == "confidential"@ || reg.data_class@ == "restricted"@)
                && reg.evidence.security_review_status@ != "approved"@
                && reg.evidence.security_review_status@ != "waived"@,
        (reg.data_class@ == "confidential"@ || reg.data_class@ == "restricted"@)
            && reg.evidence.security_review_status@ != "approved"@
            && reg.evidence.security_review_status@ != "waived"@ ==> r.exception_signals@.len()
            > 0,
{
    let required = reqs.required_through(target);
    let missing = missing_fields(reg, &required);
    assert(texts(missing@).len() == missing@.len());
    let evidence_complete = missing.is_empty();
    let mut out: Vec<String> = Vec::new();
    assert(texts(out@) =~= Seq::empty());
    push_when(&mut out, !evidence_complete, "required evidence missing or empty".to_owned());
    let sensitive = text_eq(reg.data_class.as_str(), "confidential") || text_eq(
        reg.data_class.as_str(),
        "restricted",
    );
    let status = reg.evidence.security_review_status.as_str();
    let reviewed = text_eq(status, "approved") || text_eq(status, "waived");
    let mut m = "data_class '".to_owned();
    m.append(reg.data_class.as_str());
    m.append("' present without an approved/waived security review (status: '");
    if status.is_empty() {
        m.append("not declared");
    } else {
        m.append(status);
    }
    m.append("')");
    push_when(&mut out, sensitive && !reviewed, m);
    push_when(
        &mut out,
        !is_blank(reg.evidence.stack_exception.as_str()),
        "a stack exception is declared".to_owned(),
    );
    let mut absent: Vec<String> = Vec::new();
    assert(texts(absent@) =~= Seq::empty());
    push_when(&mut absent, is_blank(reg.owner.as_str()), "owner".to_owned());
    push_when(
        &mut absent,
        lacks(reg, &required, "team_or_org_of_record"),
        "team_or_org_of_record".to_owned(),
    );
    push_when(
        &mut absent,
        lacks(reg, &required, "support_contact"),
        "support_contact".to_owned(),
    );
    push_when(
        &mut absent,
        lacks(reg, &required, "decommission_path"),
        "decommission_path".to_owned(),
    );
    assert(texts(absent@) =~= absent_paths(*reg, texts(required@)));
    assert(texts(absent@).len() == absent@.len());
    let mut m2 = "no credible accountability path: ".to_owned();
    let list = join(&absent, ", ");
    m2.append(list.as_str());
    m2.append(" empty");
    push_when(&mut out, !absent.is_empty(), m2);
    assert(texts(out@) =~= signals(*reg, texts(required@)));
    let unverified_signals = owned(
        &[
            "requested tier may be below observed usage/exposure/cost (no telemetry source)",
            "public / partner / regulated access may be involved (no exposure field)",
            "a human may have reported a concern (no report channel)",
        ],
    );
    assert(texts(unverified_signals@) =~= unverified());
    proof {
        law_sensitive_data_is_told(*reg, texts(required@));
        let told = signals(*reg, texts(required@));
        assert(told.len() == out@.len());
        assert forall|i: int| 0 <= i < out@.len() implies (#[trigger] out@[i])@ == told[i] by {
            assert(texts(out@)[i] == out@[i]@);
        }
        assert forall|i: int|
            0 <= i < out@.len() && "data_class '"@.is_prefix_of((#[trigger] out@[i])@) implies (
        reg.data_class@ == "confidential"@ || reg.data_class@ == "restricted"@)
            && reg.evidence.security_review_status@ != "approved"@
            && reg.evidence.security_review_status@ != "waived"@ by {
            assert("data_class '"@.is_prefix_of(told[i]));
        }
    }
    let verdict = EvidenceVerdict {
        target: target.to_owned(),
        evidence_complete,
        missing,
        exception_signals: out,
        unverified_signals,
    };
    proof {
        if (reg.data_class@ == "confidential"@ || reg.data_class@ == "restricted"@)
            && reg.evidence.security_review_status@ != "approved"@
            && reg.evidence.security_review_status@ != "waived"@ {
            let told = signals(*reg, texts(required@));
            let i = choose|i: int|
                0 <= i < told.len() && "data_class '"@.is_prefix_of(#[trigger] told[i]);
            assert(verdict.exception_signals@[i]@ == told[i]);
            assert(exists|i: int|
                0 <= i < verdict.exception_signals@.len() && "data_class '"@.is_prefix_of(
                    (#[trigger] verdict.exception_signals@[i])@,
                ));
        }
    }
    verdict
}

/// The self-serve checklist: where the project stands, the one tier it may move
/// to and the verdict on that move.
pub fn checklist(reg: &Registration, reqs: &ClassificationRequirements) -> (r: PromotionChecklist)
    ensures
        r.current@ == reg.classification@,
        match tier_above(reg.classification@) {
            Some(t) => {
                &&& r.next_tier matches Some(n) && n@ == t
                &&& r.verdict matches Some(v) && v.target@ == t && texts(v.missing@) == gaps(
                    *reg,
                    reqs.required(t),
                ) && v.evidence_complete == (gaps(*reg, reqs.required(t)).len() == 0) && texts(
                    v.exception_signals@,
                ) == signals(*reg, reqs.required(t)) && texts(v.unverified_signals@)
                    == unverified()
            },
            None => r.next_tier is None && r.verdict is None,
        },
{
    match next_tier(reg.classification.as_str()) {
        Some(t) => PromotionChecklist {
            current: reg.classification.clone(),
            next_tier: Some(t.to_owned()),
            verdict: Some(evaluate(reg, t, reqs)),
        },
        None => PromotionChecklist {
            current: reg.classification.clone(),
            next_tier: None,
            verdict: None,
        },
    }
}

/// A field is among the gaps exactly when it is required and not filled in.
pub proof fn law_gaps_are_required_and_absent(
    reg: Registration,
    required: Seq<Seq<char>>,
    field: Seq<char>,
)
    ensures
        gaps(reg, required).contains(field) <==> required.contains(field) && !present(reg, field),
    decreases required.len(),
{
    if required.len() > 0 {
        let rest = required.drop_last();
        law_gaps_are_required_and_absent(reg, rest, field);
        let g = gaps(reg, rest);
        let last = required.last();
        if required.contains(field) && !rest.contains(field) {
            let i = choose|i: int| 0 <= i < required.len() && required[i] == field;
            if i < rest.len() {
                assert(rest[i] == field);
            }
            assert(last == field);
        }
        if rest.contains(field) {
            let i = choose|i: int| 0 <= i < rest.len() && rest[i] == field;
            assert(required[i] == field);
        }
        if last == field {
            assert(required[required.len() - 1] == field);
        }
        if !present(reg, last) {
            let h = g.push(last);
            if h.contains(field) {
                let i = choose|i: int| 0 <= i < h.len() && h[i] == field;
                if i < g.len() {
                    assert(g[i] == field);
                }
            }
            if g.contains(field) {
                let i = choose|i: int| 0 <= i < g.len() && g[i] == field;
                assert(h[i] == field);
            }
            if last == field {
                assert(h[g.len() as int] == field);
            }
        }
    }
}

/// Sensitive data is told of: a project whose data is `confidential` or `restricted` has a
/// signal that names the data class unless its security review is `approved` or `waived`,
/// whatever else is filled in, and no other project has one.
pub proof fn law_sensitive_data_is_told(reg: Registration, required: Seq<Seq<char>>)
    ensures
        (exists|i: int|
            0 <= i < signals(reg, required).len() && "data_class '"@.is_prefix_of(
                #[trigger] signals(reg, required)[i],
            )) <==> {
            &&& reg.data_class@ == "confidential"@ || reg.data_class@ == "restricted"@
            &&& reg.evidence.security_review_status@ != "approved"@
            &&& reg.evidence.security_review_status@ != "waived"@
        },
{
    let all = signals(reg, required);
    let p = "data_class '"@;
    let a = when(gaps(reg, required).len() > 0, "required evidence missing or empty"@);
    let b = when(sensitive(reg) && !reviewed(reg), sensitive_signal(reg));
    let c = when(!blank(reg.evidence.stack_exception@), "a stack exception is declared"@);
    reveal_strlit("data_class '");
    reveal_strlit("required evidence missing or empty");
    reveal_strlit("a stack exception is declared");
    reveal_strlit("no credible accountability path: ");
    assert(p[0] == 'd');
    assert("required evidence missing or empty"@[0] == 'r');
    assert("a stack exception is declared"@[0] == 'a');
    let n = "no credible accountability path: "@ + joined(absent_paths(reg, required), ", "@)
        + " empty"@;
    assert(n[0] == 'n') by {
        assert("no credible accountability path: "@[0] == 'n');
    }
    if sensitive(reg) && !reviewed(reg) {
        assert(all[a.len() as int] == sensitive_signal(reg));
        assert(p =~= sensitive_signal(reg).subrange(0, p.len() as int));
    } else if exists|i: int| 0 <= i < all.len() && p.is_prefix_of(#[trigger] all[i]) {
        let i = choose|i: int| 0 <= i < all.len() && p.is_prefix_of(#[trigger] all[i]);
        assert(all[i] == "required evidence missing or empty"@ || all[i]
            == "a stack exception is declared"@ || all[i] == n);
        assert(all[i][0] == p[0]) by {
            assert(all[i].subrange(0, p.len() as int)[0] == p[0]);
        }
    }
}

/// What is missing is what is required and not filled in, in the order of the table; and
/// evidence that is missing, a declared stack exception and a blank owner each keep a
/// project from going up by itself.
pub proof fn law_what_stops_a_promotion(reg: Registration, required: Seq<Seq<char>>)
    ensures
        gaps(reg, required) == required.filter(|field: Seq<char>| !present(reg, field)),
        (exists|i: int|
            0 <= i < required.len() && !present(reg, #[trigger] required[i])) ==> signals(
            reg,
            required,
        ).contains("required evidence missing or empty"@),
        !blank(reg.evidence.stack_exception@) <==> signals(reg, required).contains(
            "a stack exception is declared"@,
        ),
        (exists|i: int|
            0 <= i < signals(reg, required).len()
                && "no credible accountability path: "@.is_prefix_of(
                #[trigger] signals(reg, required)[i],
            )) <==> {
            ||| blank(reg.owner@)
            ||| required.contains("team_or_org_of_record"@) && blank(
                reg.evidence.team_or_org_of_record@,
            )
            ||| required.contains("support_contact"@) && blank(reg.evidence.support_contact@)
            ||| required.contains("decommission_path"@) && blank(reg.evidence.decommission_path@)
        },
        signals(reg, required).len() == 0 <==> {
            &&& forall|i: int| 0 <= i < required.len() ==> present(reg, #[trigger] required[i])
            &&& (reg.data_class@ == "confidential"@ || reg.data_class@ == "restricted"@) ==> (
            reg.evidence.security_review_status@ == "approved"@
                || reg.evidence.security_review_status@ == "waived"@)
            &&& blank(reg.evidence.stack_exception@)
            &&& !blank(reg.owner@)
        },
{
    let all = signals(reg, required);
    let sa = "required evidence missing or empty"@;
    let sc = "a stack exception is declared"@;
    let p = "no credible accountability path: "@;
    let a = when(gaps(reg, required).len() > 0, sa);
    let b = when(sensitive(reg) && !reviewed(reg), sensitive_signal(reg));
    let c = when(!blank(reg.evidence.stack_exception@), sc);
    let absent = absent_paths(reg, required);
    let sd = p + joined(absent, ", "@) + " empty"@;
    lemma_gaps_filter(reg, required);
    law_names_name_their_fields(reg);
    reveal_strlit("data_class '");
    reveal_strlit("required evidence missing or empty");
    reveal_strlit("a stack exception is declared");
    reveal_strlit("no credible accountability path: ");
    assert("data_class '"@[0] == 'd' && sa[0] == 'r' && sc[0] == 'a' && p[0] == 'n');
    assert(sensitive_signal(reg)[0] == 'd');
    assert(sd[0] == 'n');
    assert(sd.subrange(0, p.len() as int) =~= p);
    assert forall|i: int| 0 <= i < required.len() implies (present(reg, #[trigger] required[i])
        || gaps(reg, required).len() > 0) by {
        assert(required.contains(required[i]));
        law_gaps_are_required_and_absent(reg, required, required[i]);
    }
    if gaps(reg, required).len() > 0 {
        let g = gaps(reg, required)[0];
        assert(gaps(reg, required).contains(g));
        law_gaps_are_required_and_absent(reg, required, g);
        let i = choose|i: int| 0 <= i < required.len() && required[i] == g;
        assert(!present(reg, required[i]));
        assert(all[0] == sa);
    }
    if !blank(reg.evidence.stack_exception@) {
        assert(all[(a.len() + b.len()) as int] == sc);
    } else if all.contains(sc) {
        let i = choose|i: int| 0 <= i < all.len() && all[i] == sc;
        assert(all[i] == sa || all[i] == sensitive_signal(reg) || all[i] == sd);
    }
    if absent.len() > 0 {
        assert(all[(a.len() + b.len() + c.len()) as int] == sd);
    } else if exists|i: int| 0 <= i < all.len() && p.is_prefix_of(#[trigger] all[i]) {
        let i = choose|i: int| 0 <= i < all.len() && p.is_prefix_of(#[trigger] all[i]);
        assert(all[i] == sa || all[i] == sensitive_signal(reg) || all[i] == sc);
        assert(all[i].subrange(0, p.len() as int)[0] == p[0]);
    }
    if forall|i: int| 0 <= i < required.len() ==> present(reg, #[trigger] required[i]) {
        let names = seq!["team_or_org_of_record"@, "support_contact"@, "decommission_path"@];
        assert forall|k: int| 0 <= k < 3 && required.contains(#[trigger] names[k]) implies present(
            reg,
            names[k],
        ) by {
            let i = choose|i: int| 0 <= i < required.len() && required[i] == names[k];
            assert(present(reg, required[i]));
        }
        assert(names[0] == "team_or_org_of_record"@ && names[1] == "support_contact"@ && names[2]
            == "decommission_path"@);
    }
}

proof fn lemma_gaps_filter(reg: Registration, required: Seq<Seq<char>>)
    ensures
        gaps(reg, required) == required.filter(|field: Seq<char>| !present(reg, field)),
    decreases required.len(),
{
    reveal(Seq::filter);
    if required.len() > 0 {
        lemma_gaps_filter(reg, required.drop_last());
    }
}

/// The name of a required field stands for the field of that name: it is filled in when
/// the text is not blank, or the list not empty.
pub proof fn law_names_name_their_fields(reg: Registration)
    ensures
        present(reg, "owner"@) <==> !blank(reg.owner@),
        present(reg, "manager"@) <==> !blank(reg.manager@),
        present(reg, "group"@) <==> !blank(reg.group@),
        present(reg, "data_class"@) <==> !blank(reg.data_class@),
        present(reg, "description"@) <==> !blank(reg.description@),
        present(reg, "requested_classification"@) <==> !blank(reg.evidence.requested_classification@),
        present(reg, "repo_or_source_url"@) <==> !blank(reg.evidence.repo_or_source_url@),
        present(reg, "business_owner"@) <==> !blank(reg.evidence.business_owner@),
        present(reg, "technical_owner"@) <==> !blank(reg.evidence.technical_owner@),
        present(reg, "team_or_org_of_record"@) <==> !blank(reg.evidence.team_or_org_of_record@),
        present(reg, "support_contact"@) <==> !blank(reg.evidence.support_contact@),
        present(reg, "runbook_url"@) <==> !blank(reg.evidence.runbook_url@),
        present(reg, "monitoring_or_logs_url"@) <==> !blank(reg.evidence.monitoring_or_logs_url@),
        present(reg, "ci_status_url"@) <==> !blank(reg.evidence.ci_status_url@),
        present(reg, "critical_flow_test_or_eval_url"@) <==> !blank(reg.evidence.critical_flow_test_or_eval_url@),
        present(reg, "state_loss_posture"@) <==> !blank(reg.evidence.state_loss_posture@),
        present(reg, "stack_exception"@) <==> !blank(reg.evidence.stack_exception@),
        present(reg, "security_review_status"@) <==> !blank(reg.evidence.security_review_status@),
        present(reg, "architecture_summary_url"@) <==> !blank(reg.evidence.architecture_summary_url@),
        present(reg, "incident_path"@) <==> !blank(reg.evidence.incident_path@),
        present(reg, "slo_or_service_target"@) <==> !blank(reg.evidence.slo_or_service_target@),
        present(reg, "rpo_rto"@) <==> !blank(reg.evidence.rpo_rto@),
        present(reg, "decommission_path"@) <==> !blank(reg.evidence.decommission_path@),
        present(reg, "executive_accountable_owner"@) <==> !blank(reg.evidence.executive_accountable_owner@),
        present(reg, "risk_acceptance_url"@) <==> !blank(reg.evidence.risk_acceptance_url@),
        present(reg, "dr_exercise_evidence_url"@) <==> !blank(reg.evidence.dr_exercise_evidence_url@),
        present(reg, "audit_retention_requirement"@) <==> !blank(reg.evidence.audit_retention_requirement@),
        present(reg, "recurring_review_date"@) <==> !blank(reg.evidence.recurring_review_date@),
        present(reg, "maintainers"@) <==> reg.evidence.maintainers@.len() > 0,
        present(reg, "critical_dependencies"@) <==> reg.evidence.critical_dependencies@.len() > 0,
        present(reg, "primary_data_flows"@) <==> reg.evidence.primary_data_flows@.len() > 0,
{
    reveal_strlit("owner");
    reveal_strlit("manager");
    reveal_strlit("group");
    reveal_strlit("data_class");
    reveal_strlit("description");
    reveal_strlit("requested_classification");
    reveal_strlit("repo_or_source_url");
    reveal_strlit("business_owner");
    reveal_strlit("technical_owner");
    reveal_strlit("team_or_org_of_record");
    reveal_strlit("support_contact");
    reveal_strlit("runbook_url");
    reveal_strlit("monitoring_or_logs_url");
    reveal_strlit("ci_status_url");
    reveal_strlit("critical_flow_test_or_eval_url");
    reveal_strlit("state_loss_posture");
    reveal_strlit("stack_exception");
    reveal_strlit("security_review_status");
    reveal_strlit("architecture_summary_url");
    reveal_strlit("incident_path");
    reveal_strlit("slo_or_service_target");
    reveal_strlit("rpo_rto");
    reveal_strlit("decommission_path");
    reveal_strlit("executive_accountable_owner");
    reveal_strlit("risk_acceptance_url");
    reveal_strlit("dr_exercise_evidence_url");
    reveal_strlit("audit_retention_requirement");
    reveal_strlit("recurring_review_date");
    reveal_strlit("maintainers");
    reveal_strlit("critical_dependencies");
    reveal_strlit("primary_data_flows");
    assert("owner"@.len() == 5 && "group"@.len() == 5);
    assert("manager"@.len() == 7 && "rpo_rto"@.len() == 7);
    assert("data_class"@.len() == 10);
    assert("description"@.len() == 11 && "runbook_url"@.len() == 11 && "maintainers"@.len() == 11);
    assert("ci_status_url"@.len() == 13 && "incident_path"@.len() == 13);
    assert("business_owner"@.len() == 14);
    assert("technical_owner"@.len() == 15 && "support_contact"@.len() == 15 && "stack_exception"@.len() == 15);
    assert("decommission_path"@.len() == 17);
    assert("repo_or_source_url"@.len() == 18 && "state_loss_posture"@.len() == 18 && "primary_data_flows"@.len() == 18);
    assert("risk_acceptance_url"@.len() == 19);
    assert("team_or_org_of_record"@.len() == 21 && "slo_or_service_target"@.len() == 21 && "recurring_review_date"@.len() == 21 && "critical_dependencies"@.len() == 21);
    assert("monitoring_or_logs_url"@.len() == 22 && "security_review_status"@.len() == 22);
    assert("requested_classification"@.len() == 24 && "architecture_summary_url"@.len() == 24 && "dr_exercise_evidence_url"@.len() == 24);
    assert("executive_accountable_owner"@.len() == 27 && "audit_retention_requirement"@.len() == 27);
    assert("critical_flow_test_or_eval_url"@.len() == 30);
    assert("owner"@[0] != "group"@[0]);
    assert("manager"@[0] != "rpo_rto"@[0]);
    assert("description"@[0] != "runbook_url"@[0]);
    assert("description"@[0] != "maintainers"@[0]);
    assert("runbook_url"@[0] != "maintainers"@[0]);
    assert("ci_status_url"@[0] != "incident_path"@[0]);
    assert("technical_owner"@[0] != "support_contact"@[0]);
    assert("technical_owner"@[0] != "stack_exception"@[0]);
    assert("support_contact"@[1] != "stack_exception"@[1]);
    assert("repo_or_source_url"@[0] != "state_loss_posture"@[0]);
    assert("repo_or_source_url"@[0] != "primary_data_flows"@[0]);
    assert("state_loss_posture"@[0] != "primary_data_flows"@[0]);
    assert("team_or_org_of_record"@[0] != "slo_or_service_target"@[0]);
    assert("team_or_org_of_record"@[0] != "recurring_review_date"@[0]);
    assert("team_or_org_of_record"@[0] != "critical_dependencies"@[0]);
    assert("slo_or_service_target"@[0] != "recurring_review_date"@[0]);
    assert("slo_or_service_target"@[0] != "critical_dependencies"@[0]);
    assert("recurring_review_date"@[0] != "critical_dependencies"@[0]);
    assert("monitoring_or_logs_url"@[0] != "security_review_status"@[0]);
    assert("requested_classification"@[0] != "architecture_summary_url"@[0]);
    assert("requested_classification"@[0] != "dr_exercise_evidence_url"@[0]);
    assert("architecture_summary_url"@[0] != "dr_exercise_evidence_url"@[0]);
    assert("executive_accountable_owner"@[0] != "audit_retention_requirement"@[0]);
}

/// A tier asks for its own fields and for those of every tier between it and the lowest;
/// the lowest and an unknown one ask for nothing.
pub proof fn law_tiers_ask_for_their_tables(reqs: ClassificationRequirements, target: Seq<char>)
    ensures
        reqs.required("poc"@) == Seq::<Seq<char>>::empty(),
        reqs.required("light-operational"@) == texts(reqs.light@),
        reqs.required("wide-operational"@) == texts(reqs.light@) + texts(reqs.wide@),
        reqs.required("critical-path"@) == texts(reqs.light@) + texts(reqs.wide@) + texts(
            reqs.critical@,
        ),
        !seq!["poc"@, "light-operational"@, "wide-operational"@, "critical-path"@].contains(target)
            ==> reqs.required(target) == Seq::<Seq<char>>::empty(),
{
    lemma_tiers_differ();
    let tiers = seq!["poc"@, "light-operational"@, "wide-operational"@, "critical-path"@];
    assert(tiers[0] == "poc"@ && tiers[1] == "light-operational"@ && tiers[2] == "wide-operational"@
        && tiers[3] == "critical-path"@);
    assert(tiers.contains(tiers[0]) && tiers.contains(tiers[1]) && tiers.contains(tiers[2])
        && tiers.contains(tiers[3]));
}

/// The ladder goes from `poc` over `light-operational` and `wide-operational` to
/// `critical-path`: exactly its three steps are promotions.
pub proof fn law_ladder_has_three_steps(current: Seq<char>, target: Seq<char>)
    ensures
        step_fault(current, target) is None <==> {
            ||| current == "poc"@ && target == "light-operational"@
            ||| current == "light-operational"@ && target == "wide-operational"@
            ||| current == "wide-operational"@ && target == "critical-path"@
        },
        tier_above("poc"@) == Some("light-operational"@),
        tier_above("light-operational"@) == Some("wide-operational"@),
        tier_above("wide-operational"@) == Some("critical-path"@),
        tier_above("critical-path"@) is None,
        tier_above(current) is Some ==> current == "poc"@ || current == "light-operational"@
            || current == "wide-operational"@,
{
    lemma_tiers_differ();
}

/// A project with no exception signal has all required evidence: the absence of
/// signals alone decides that nothing is missing.
pub proof fn law_no_signal_means_complete(reg: Registration, required: Seq<Seq<char>>)
    ensures
        signals(reg, required).len() == 0 ==> gaps(reg, required).len() == 0,
{
}

/// A higher tier asks for what a lower one asks for, in the same order, and then for its
/// own.
pub proof fn law_requirements_accumulate(
    reqs: ClassificationRequirements,
    lower: Seq<char>,
    higher: Seq<char>,
)
    requires
        rank_of(lower) is Some,
        rank_of(higher) is Some,
        rank_of(lower)->0 <= rank_of(higher)->0,
    ensures
        reqs.required(lower).is_prefix_of(reqs.required(higher)),
        forall|field: Seq<char>| #[trigger]
            reqs.required(lower).contains(field) ==> reqs.required(higher).contains(field),
{
    let l = reqs.required(lower);
    let h = reqs.required(higher);
    assert(l =~= h.take(l.len() as int));
    assert forall|field: Seq<char>| #[trigger] l.contains(field) implies h.contains(field) by {
        let i = choose|i: int| 0 <= i < l.len() && l[i] == field;
        assert(h[i] == l[i]);
    }
}

/// The four tiers are four different names.
pub proof fn lemma_tiers_differ()
    ensures
        "poc"@ != "light-operational"@,
        "poc"@ != "wide-operational"@,
        "poc"@ != "critical-path"@,
        "light-operational"@ != "wide-operational"@,
        "light-operational"@ != "critical-path"@,
        "wide-operational"@ != "critical-path"@,
{
    reveal_strlit("poc");
    reveal_strlit("light-operational");
    reveal_strlit("wide-operational");
    reveal_strlit("critical-path");
    assert("poc"@.len() == 3);
    assert("light-operational"@.len() == 17);
    assert("wide-operational"@.len() == 16);
    assert("critical-path"@.len() == 13);
}

/// A promotion moves one place up the ladder, and to the tier `next_tier` names.
pub proof fn law_promotion_is_one_step(current: Seq<char>, target: Seq<char>)
    ensures
        step_fault(current, target) is None <==> tier_above(current) == Some(target),
{
    lemma_tiers_differ();
}

/// What the shipped table asks for: ownership, support and evidence of care at the light
/// tier; a security review, an architecture and recovery at the wide one; an accountable
/// executive and exercised recovery at the critical one.
pub proof fn law_what_the_shipped_table_asks_for()
    ensures
        default_light().len() == 12,
        default_light()[0] == "repo_or_source_url"@,
        default_light()[1] == "business_owner"@,
        default_light()[2] == "technical_owner"@,
        default_light()[3] == "team_or_org_of_record"@,
        default_light()[4] == "support_contact"@,
        default_light()[5] == "runbook_url"@,
        default_light()[6] == "monitoring_or_logs_url"@,
        default_light()[7] == "ci_status_url"@,
        default_light()[8] == "primary_data_flows"@,
        default_light()[9] == "critical_flow_test_or_eval_url"@,
        default_light()[10] == "state_loss_posture"@,
        default_light()[11] == "requested_classification"@,
        default_wide().len() == 7,
        default_wide()[0] == "security_review_status"@,
        default_wide()[1] == "architecture_summary_url"@,
        default_wide()[2] == "critical_dependencies"@,
        default_wide()[3] == "incident_path"@,
        default_wide()[4] == "slo_or_service_target"@,
        default_wide()[5] == "rpo_rto"@,
        default_wide()[6] == "decommission_path"@,
        default_critical().len() == 5,
        default_critical()[0] == "executive_accountable_owner"@,
        default_critical()[1] == "risk_acceptance_url"@,
        default_critical()[2] == "dr_exercise_evidence_url"@,
        default_critical()[3] == "audit_retention_requirement"@,
        default_critical()[4] == "recurring_review_date"@,
{
}

/// An operator's list for a tier takes the place of the shipped one, and a tier without
/// one keeps it. What cannot be verified is told of every promotion.
pub proof fn law_operators_lists_come_first(
    overrides: Map<Seq<char>, Vec<String>>,
    tier: Seq<char>,
    shipped: Seq<Seq<char>>,
)
    ensures
        overrides.contains_key(tier) ==> tier_list(overrides, tier, shipped) == texts(
            overrides[tier]@,
        ),
        !overrides.contains_key(tier) ==> tier_list(overrides, tier, shipped) == shipped,
        unverified().len() == 3,
{
}

/// The signal on sensitive data names the class and the status of the review, or that
/// none is declared.
pub proof fn law_signal_names_class_and_status(reg: Registration)
    ensures
        ("data_class '"@ + reg.data_class@).is_prefix_of(sensitive_signal(reg)),
        reg.evidence.security_review_status@.len() > 0 ==> (
        reg.evidence.security_review_status@ + "')"@).is_suffix_of(sensitive_signal(reg)),
        reg.evidence.security_review_status@.len() == 0 ==> ("not declared"@
            + "')"@).is_suffix_of(sensitive_signal(reg)),
{
    let all = sensitive_signal(reg);
    let front = "data_class '"@ + reg.data_class@;
    let back = (if reg.evidence.security_review_status@.len() == 0 {
        "not declared"@
    } else {
        reg.evidence.security_review_status@
    }) + "')"@;
    assert(front =~= all.subrange(0, front.len() as int));
    assert(back =~= all.subrange(all.len() - back.len(), all.len() as int));
}

} // verus!
