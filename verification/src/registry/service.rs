//! The registry: the projects on record and the rules under which they change.
use vstd::prelude::*;

use crate::json::{Json, JsonView};
use crate::registry::approvals::{
    approved_promotion, begin_promotion, demote, demotion_fault, demotion_reason,
    promotion_to_apply,
};
use crate::registry::evidence::Evidence;
use crate::registry::governance::GovernanceConfig;
use crate::registry::groups::{email, GroupAllowlist, RegistrationPolicy};
use crate::registry::promotion::{
    checklist, default_critical, default_light, default_wide, gaps, signals, step_fault,
    tier_above, unverified, ClassificationRequirements, EvidenceVerdict, PromotionChecklist,
};
use crate::registry::register::{
    admission, approved_budget, authority, budget_payload, budget_to_apply, check_evidence_update,
    check_registration, counter_scope, counter_scope_of, evidence_update_fault, gate_fault,
    is_authority, looked_up, mint_project_id, new_identity, new_party, plan_budget, plan_identity,
    plan_ownership, project_id_of, require_active, self_service, transfers, year_of, Admitted,
    BudgetChange, ProjectUpdate, RegisterInput,
};
use crate::registry::register::law_project_ids_tell_year_and_number;
use crate::registry::review::{
    extend_review, first_deadline, grant_extension, set_initial, Extension, ReviewConfig,
    ReviewState, SweepSummary,
};
use crate::registry::workflow::WorkflowRequest;
use crate::registry::{Registration, RegistryError, RegistryFault};
use crate::sorted_map::{increasing, SortedMap};
use crate::text::{
    before, blank, contents, lemma_before_irreflexive, lemma_take_more, text_before, text_eq, texts,
    trimmed,
};
use crate::usd::Usd;

verus! {

/// The registry of projects.
#[derive(Debug)]
pub struct ProjectRegistry {
    /// The projects by their ids.
    pub projects: SortedMap<Registration>,
    /// The last number given out in each scope.
    pub counters: SortedMap<u64>,
    pub allowlist: GroupAllowlist,
    pub policy: RegistrationPolicy,
    pub requirements: ClassificationRequirements,
    pub review: ReviewConfig,
    pub governance: GovernanceConfig,
}

/// The last number that a scope has given out.
pub open spec fn last_number(counters: Map<Seq<char>, u64>, scope: Seq<char>) -> nat {
    if counters.contains_key(scope) {
        counters[scope] as nat
    } else {
        0
    }
}

/// Whether an id was given out: it is of some year, and of a number up to the
/// year's last.
pub open spec fn given_out(counters: Map<Seq<char>, u64>, id: Seq<char>) -> bool {
    exists|year: Seq<char>, n: nat|
        year.len() == 4 && n <= last_number(counters, counter_scope_of(year)) && id
            == #[trigger] project_id_of(year, n)
}

/// Whether a registration is the one that an admitted input makes.
pub open spec fn made_of(
    r: Registration,
    id: Seq<char>,
    a: Admitted,
    now: Seq<char>,
    deadline: Seq<char>,
    evidence: Evidence,
) -> bool {
    &&& r.project_id@ == id
    &&& r.name@ == a.name
    &&& r.description@ == a.description
    &&& r.owner@ == a.owner
    &&& r.manager@ == a.manager
    &&& r.group@ == a.group
    &&& r.cost_center@ == a.cost_center
    &&& r.classification@ == a.classification
    &&& r.data_class@ == a.data_class
    &&& r.budget_usd.bits == a.budget_bits
    &&& r.spent_usd.bits == 0
    &&& r.lifecycle@ == "active"@
    &&& r.registered
    &&& !r.killed
    &&& r.created_at@ == now
    &&& r.review_date@ == deadline
    &&& r.review_state@ == "ok"@
    &&& r.review_extensions == 0
    &&& r.stack_exception_renewal_date@.len() == 0
    &&& r.evidence == evidence
}

/// Whether `b` is `a` but for these five fields.
pub open spec fn changed(
    a: Registration,
    b: Registration,
    identity: (Seq<char>, Seq<char>),
    budget: Usd,
    parties: (Seq<char>, Seq<char>),
) -> bool {
    &&& b.name@ == identity.0
    &&& b.description@ == identity.1
    &&& b.budget_usd == budget
    &&& b.owner@ == parties.0
    &&& b.manager@ == parties.1
    &&& b == (Registration {
        name: b.name,
        description: b.description,
        budget_usd: b.budget_usd,
        owner: b.owner,
        manager: b.manager,
        ..a
    })
}

/// The identity after an update.
pub open spec fn identity_after(reg: Registration, update: ProjectUpdate) -> (Seq<char>, Seq<char>) {
    match new_identity(reg, update) {
        Some(p) => p,
        None => (reg.name@, reg.description@),
    }
}

/// The budget after an update: the requested one where it needs no human.
pub open spec fn budget_after(reg: Registration, update: ProjectUpdate, ceiling: Option<Usd>) -> Usd {
    match update.budget_usd {
        Some(req) => if self_service(req, reg.budget_usd, ceiling) {
            req
        } else {
            reg.budget_usd
        },
        None => reg.budget_usd,
    }
}

/// What an update does to a project and what comes of it. A new name stays though
/// the budget is refused, and both stay though an address is.
pub open spec fn update_result(
    project_id: Seq<char>,
    reg: Registration,
    after: Registration,
    r: Result<BudgetChange, RegistryError>,
    update: ProjectUpdate,
    ceiling: Option<Usd>,
    actor: Seq<char>,
    requested_text: Seq<char>,
    current_text: Seq<char>,
) -> bool {
    let identity = identity_after(reg, update);
    let budget = budget_after(reg, update, ceiling);
    let owner = new_party(contents(update.owner_email), reg.owner@);
    let manager = new_party(contents(update.manager_email), reg.manager@);
    let own = (reg.owner@, reg.manager@);
    if update.budget_usd matches Some(req) && req.negative() {
        &&& r matches Err(e) && e@ == RegistryFault::Validation("budget_usd must be >= 0"@)
        &&& changed(reg, after, identity, reg.budget_usd, own)
    } else if transfers(update) && owner is Err {
        &&& r matches Err(e) && e@ == owner->Err_0
        &&& changed(reg, after, identity, budget, own)
    } else if transfers(update) && manager is Err {
        &&& r matches Err(e) && e@ == manager->Err_0
        &&& changed(reg, after, identity, budget, own)
    } else {
        &&& changed(
            reg,
            after,
            identity,
            budget,
            if transfers(update) {
                (owner->Ok_0, manager->Ok_0)
            } else {
                own
            },
        )
        &&& match update.budget_usd {
            None => r matches Ok(BudgetChange::Unchanged),
            Some(req) => if self_service(req, reg.budget_usd, ceiling) {
                r matches Ok(BudgetChange::Apply(a)) && a == req
            } else {
                r matches Ok(BudgetChange::Review(n)) && n.kind@ == "budget"@ && n.requester@
                    == actor && n.subject@ == "budget/"@ + project_id && n.payload@
                    == budget_payload(project_id, requested_text, current_text)
                    && n.sla_seconds == Some(604800i64)
            },
        }
    }
}

/// A registered project with a deadline.
pub open spec fn has_review(r: Registration) -> bool {
    r.registered && r.review_date@.len() > 0
}

/// A project whose deadline has passed unnoticed.
pub open spec fn review_passed(r: Registration, now: Seq<char>) -> bool {
    has_review(r) && r.review_state@ == "ok"@ && before(r.review_date@, now)
}

/// A project whose stack exception has no renewal ahead.
pub open spec fn exception_passed(r: Registration, now: Seq<char>) -> bool {
    r.registered && r.evidence.stack_exception@.len() > 0 && (
    r.stack_exception_renewal_date@.len() == 0 || before(r.stack_exception_renewal_date@, now))
}

/// A project after a sweep: flagged where its deadline had passed, else as it was.
pub open spec fn swept_project(a: Registration, b: Registration, now: Seq<char>) -> bool {
    if review_passed(a, now) {
        b.review_state@ == "expired"@ && b == (Registration { review_state: b.review_state, ..a })
    } else {
        b == a
    }
}

/// How many of some projects have a deadline.
pub open spec fn reviews_among(
    names: Seq<Seq<char>>,
    projects: Map<Seq<char>, Registration>,
) -> nat
    decreases names.len(),
{
    if names.len() == 0 {
        0
    } else {
        reviews_among(names.drop_last(), projects) + if has_review(projects[names.last()]) {
            1nat
        } else {
            0nat
        }
    }
}

/// Those of some projects whose deadline has passed unnoticed.
pub open spec fn passed_among(
    names: Seq<Seq<char>>,
    projects: Map<Seq<char>, Registration>,
    now: Seq<char>,
) -> Seq<Seq<char>>
    decreases names.len(),
{
    if names.len() == 0 {
        Seq::empty()
    } else {
        let rest = passed_among(names.drop_last(), projects, now);
        if review_passed(projects[names.last()], now) {
            rest.push(names.last())
        } else {
            rest
        }
    }
}

/// Those of some projects whose stack exception has no renewal ahead.
pub open spec fn lapsed_among(
    names: Seq<Seq<char>>,
    projects: Map<Seq<char>, Registration>,
    now: Seq<char>,
) -> Seq<Seq<char>>
    decreases names.len(),
{
    if names.len() == 0 {
        Seq::empty()
    } else {
        let rest = lapsed_among(names.drop_last(), projects, now);
        if exception_passed(projects[names.last()], now) {
            rest.push(names.last())
        } else {
            rest
        }
    }
}

/// What a promotion moved.
#[derive(Debug)]
pub struct Promoted {
    pub project_id: String,
    pub from: String,
    pub to: String,
    /// Whether the evidence named the tier and has to be stored again.
    pub evidence_changed: bool,
}

/// The ids of the registered projects, in order.
pub open spec fn registered_ids(
    names: Seq<Seq<char>>,
    projects: Map<Seq<char>, Registration>,
) -> Seq<Seq<char>>
    decreases names.len(),
{
    if names.len() == 0 {
        Seq::empty()
    } else {
        let rest = registered_ids(names.drop_last(), projects);
        if projects[names.last()].registered {
            rest.push(names.last())
        } else {
            rest
        }
    }
}

impl ProjectRegistry {
    /// What is known of a project.
    pub open spec fn found(self, project_id: Seq<char>) -> Option<Registration> {
        if self.projects@.contains_key(project_id) {
            Some(self.projects@[project_id])
        } else {
            None
        }
    }

    /// Every project on record has an id that was given out.
    pub open spec fn wf(self) -> bool {
        forall|id: Seq<char>| #[trigger]
            self.projects@.contains_key(id) ==> given_out(self.counters@, id)
    }

    /// Everything but the projects and the counters is as it was.
    pub open spec fn same_rules(self, other: ProjectRegistry) -> bool {
        self.allowlist == other.allowlist && self.policy == other.policy && self.requirements
            == other.requirements && self.review == other.review && self.governance
            == other.governance
    }

    /// An empty registry under the default rules.
    pub fn new(allowlist: GroupAllowlist, policy: RegistrationPolicy) -> (r: ProjectRegistry)
        ensures
            r.projects@ == Map::<Seq<char>, Registration>::empty(),
            r.counters@ == Map::<Seq<char>, u64>::empty(),
            r.allowlist == allowlist,
            r.policy == policy,
            texts(r.requirements.light@) == default_light(),
            texts(r.requirements.wide@) == default_wide(),
            texts(r.requirements.critical@) == default_critical(),
            r.review.poc_window_days == 90,
            r.review.auto_extensions == 1,
            r.governance.maintainer_min == 2,
            r.wf(),
    {
        ProjectRegistry {
            projects: SortedMap::new(),
            counters: SortedMap::new(),
            allowlist,
            policy,
            requirements: ClassificationRequirements::default(),
            review: ReviewConfig::default(),
            governance: GovernanceConfig::default(),
        }
    }

    /// The registry with other requirements for the tiers.
    pub fn with_requirements(self, requirements: ClassificationRequirements) -> (r: ProjectRegistry)
        ensures
            r == (ProjectRegistry { requirements, ..self }),
    {
        let mut s = self;
        s.requirements = requirements;
        s
    }

    /// The registry with other rules for reviews.
    pub fn with_review_config(self, review: ReviewConfig) -> (r: ProjectRegistry)
        ensures
            r == (ProjectRegistry { review, ..self }),
    {
        let mut s = self;
        s.review = review;
        s
    }

    /// The registry with another governance threshold.
    pub fn with_governance_config(self, governance: GovernanceConfig) -> (r: ProjectRegistry)
        ensures
            r == (ProjectRegistry { governance, ..self }),
    {
        let mut s = self;
        s.governance = governance;
        s
    }

    /// The groups that projects may name.
    pub fn allowlist(&self) -> (r: &GroupAllowlist)
        ensures
            *r == self.allowlist,
    {
        &self.allowlist
    }

    /// What a registration has to name.
    pub fn policy(&self) -> (r: &RegistrationPolicy)
        ensures
            *r == self.policy,
    {
        &self.policy
    }

    /// What the tiers require.
    pub fn requirements(&self) -> (r: &ClassificationRequirements)
        ensures
            *r == self.requirements,
    {
        &self.requirements
    }

    /// A project on record.
    pub fn get(&self, project_id: &str) -> (r: Option<&Registration>)
        ensures
            looked_up(r) == self.found(project_id@),
    {
        self.projects.get(project_id)
    }

    /// The ids of the registered projects, in order.
    pub fn list(&self) -> (r: Vec<String>)
        ensures
            texts(r@) == registered_ids(self.projects.names(), self.projects@),
    {
        let keys = self.projects.keys();
        let ghost names = texts(keys@);
        let mut out: Vec<String> = Vec::new();
        let mut i: usize = 0;
        assert(names.take(0) =~= Seq::empty());
        assert(texts(out@) =~= Seq::empty());
        while i < keys.len()
            invariant
                i <= keys@.len(),
                names == texts(keys@),
                names == self.projects.names(),
                forall|k: Seq<char>|
                    self.projects@.contains_key(k) <==> #[trigger] self.projects.names().contains(
                        k,
                    ),
                texts(out@) == registered_ids(names.take(i as int), self.projects@),
            decreases keys.len() - i,
        {
            assert(names.take(i + 1).drop_last() =~= names.take(i as int));
            let ghost prev = texts(out@);
            let key = keys[i].as_str();
            assert(names[i as int] == key@);
            assert(self.projects.names().contains(key@));
            match self.projects.get(key) {
                Some(reg) => {
                    if reg.registered {
                        out.push(key.to_owned());
                        assert(texts(out@) =~= prev.push(key@));
                    }
                },
                None => {},
            }
            i = i + 1;
        }
        assert(names.take(names.len() as int) =~= names);
        out
    }

    /// Whether a person has authority over a project.
    pub fn is_authority(&self, project_id: &str, email: &str, see_all: bool) -> (r: bool)
        ensures
            r == authority(self.found(project_id@), email@, see_all),
    {
        is_authority(self.get(project_id), email, see_all)
    }

    /// Lets only a registered and active project through.
    pub fn require_active(&self, project_id: &str) -> (r: Result<&Registration, RegistryError>)
        ensures
            match r {
                Ok(reg) => gate_fault(project_id@, self.found(project_id@)) is None && Some(*reg)
                    == self.found(project_id@),
                Err(e) => gate_fault(project_id@, self.found(project_id@)) == Some(e@),
            },
    {
        require_active(project_id, self.get(project_id))
    }

    /// Registers a project at a time: checks the input, gives out the next id of the
    /// year and puts the project on record. `window_end` is the time moved by the
    /// window of a proof of concept.
    pub fn register(&mut self, input: RegisterInput, now: &str, window_end: &str) -> (r: Result<
        String,
        RegistryError,
    >)
        requires
            now@.len() >= 4,
            last_number(old(self).counters@, counter_scope_of(now@.subrange(0, 4))) < u64::MAX,
        ensures
            final(self).same_rules(*old(self)),
            match (r, admission(input, old(self).policy, old(self).allowlist@)) {
                (Err(e), Err(f)) => e@ == f && final(self).projects@ == old(self).projects@
                    && final(self).counters@ == old(self).counters@,
                (Ok(id), Ok(a)) => {
                    let year = now@.subrange(0, 4);
                    let scope = counter_scope_of(year);
                    let n = last_number(old(self).counters@, scope) + 1;
                    let deadline = first_deadline(
                        a.classification,
                        window_end@,
                        input.evidence.recurring_review_date@,
                    );
                    &&& id@ == project_id_of(year, n)
                    &&& final(self).counters@ == old(self).counters@.insert(scope, n as u64)
                    &&& final(self).projects@.contains_key(id@)
                    &&& final(self).projects@ == old(self).projects@.insert(
                        id@,
                        final(self).projects@[id@],
                    )
                    &&& made_of(
                        final(self).projects@[id@],
                        id@,
                        a,
                        now@,
                        deadline,
                        input.evidence,
                    )
                    &&& old(self).wf() ==> !old(self).projects@.contains_key(id@)
                },
                _ => false,
            },
            old(self).wf() ==> final(self).wf(),
    {
        let ghost was = *self;
        let a = match check_registration(&input, &self.policy, &self.allowlist) {
            Ok(a) => a,
            Err(e) => {
                return Err(e);
            },
        };
        let year = year_of(now);
        let scope = counter_scope(year.as_str());
        let n: u64 = match self.counters.get(scope.as_str()) {
            Some(v) => *v + 1,
            None => 1,
        };
        let id = mint_project_id(year.as_str(), n);
        let review_date = set_initial(
            a.classification.as_str(),
            window_end,
            input.evidence.recurring_review_date.as_str(),
        );
        let reg = Registration {
            project_id: id.clone(),
            name: a.name,
            owner: a.owner,
            manager: a.manager,
            group: a.group,
            cost_center: a.cost_center,
            classification: a.classification,
            data_class: a.data_class,
            budget_usd: a.budget_usd,
            spent_usd: Usd::zero(),
            lifecycle: "active".to_owned(),
            registered: true,
            killed: false,
            description: a.description,
            created_at: now.to_owned(),
            review_date,
            review_state: "ok".to_owned(),
            review_extensions: 0,
            stack_exception_renewal_date: String::new(),
            evidence: input.evidence,
        };
        self.counters.insert(scope.as_str(), n);
        self.projects.insert(id.as_str(), reg);
        proof {
            let y = now@.subrange(0, 4);
            let m = last_number(was.counters@, scope@);
            assert(n == m + 1);
            if was.wf() {
                if was.projects@.contains_key(id@) {
                    let (x, k) = choose|x: Seq<char>, k: nat|
                        x.len() == 4 && k <= last_number(was.counters@, counter_scope_of(x))
                            && id@ == #[trigger] project_id_of(x, k);
                    law_project_ids_tell_year_and_number(x, k, y, n as nat);
                }
                assert forall|k: Seq<char>| #[trigger]
                    self.projects@.contains_key(k) implies given_out(self.counters@, k) by {
                    if k == id@ {
                        assert(k == project_id_of(y, n as nat));
                        assert(n <= last_number(self.counters@, counter_scope_of(y)));
                    } else {
                        assert(was.projects@.contains_key(k));
                        let (x, j) = choose|x: Seq<char>, j: nat|
                            x.len() == 4 && j <= last_number(was.counters@, counter_scope_of(x))
                                && k == #[trigger] project_id_of(x, j);
                        assert(j <= last_number(self.counters@, counter_scope_of(x)));
                        assert(k == project_id_of(x, j));
                    }
                }
            }
        }
        Ok(id)
    }

    /// Takes a project out of service.
    pub fn decommission(&mut self, project_id: &str) -> (r: Result<(), RegistryError>)
        ensures
            final(self).same_rules(*old(self)),
            final(self).counters == old(self).counters,
            match r {
                Err(e) => gate_fault(project_id@, old(self).found(project_id@)) == Some(e@)
                    && final(self).projects@ == old(self).projects@,
                Ok(_) => {
                    let reg = old(self).projects@[project_id@];
                    let after = final(self).projects@[project_id@];
                    &&& gate_fault(project_id@, old(self).found(project_id@)) is None
                    &&& after.lifecycle@ == "decommissioned"@
                    &&& after == (Registration { lifecycle: after.lifecycle, ..reg })
                    &&& final(self).projects@ == old(self).projects@.insert(project_id@, after)
                },
            },
            r is Ok <==> old(self).projects@.contains_key(project_id@)
                && old(self).projects@[project_id@].registered
                && old(self).projects@[project_id@].lifecycle@ == "active"@,
            r is Ok ==> gate_fault(project_id@, final(self).found(project_id@)) is Some,
            old(self).wf() ==> final(self).wf(),
    {
        proof {
            reveal_strlit("active");
            reveal_strlit("decommissioned");
            assert("active"@.len() == 6 && "decommissioned"@.len() == 14);
        }
        match self.require_active(project_id) {
            Ok(_) => {},
            Err(e) => {
                return Err(e);
            },
        }
        let ghost was = self.projects@;
        match self.projects.take(project_id) {
            Some(reg) => {
                let mut reg = reg;
                reg.lifecycle = "decommissioned".to_owned();
                let ghost after = reg;
                self.projects.insert(project_id, reg);
                assert(self.projects@ =~= was.insert(project_id@, after));
            },
            None => {},
        }
        Ok(())
    }

    /// Replaces the evidence of a project.
    pub fn update_evidence(&mut self, project_id: &str, evidence: Evidence) -> (r: Result<
        (),
        RegistryError,
    >)
        ensures
            final(self).same_rules(*old(self)),
            final(self).counters == old(self).counters,
            ({
                let known = old(self).projects@.contains_key(project_id@);
                match r {
                    Err(e) => evidence_update_fault(project_id@, known, evidence) == Some(e@)
                        && final(self).projects@ == old(self).projects@,
                    Ok(_) => evidence_update_fault(project_id@, known, evidence) is None && final(self).projects@ == old(self).projects@.insert(
                        project_id@,
                        (Registration { evidence, ..old(self).projects@[project_id@] }),
                    ),
                }
            }),
            old(self).wf() ==> final(self).wf(),
    {
        let known = self.projects.contains(project_id);
        match check_evidence_update(project_id, known, &evidence) {
            Ok(_) => {},
            Err(e) => {
                return Err(e);
            },
        }
        let ghost was = self.projects@;
        match self.projects.take(project_id) {
            Some(reg) => {
                let mut reg = reg;
                reg.evidence = evidence;
                let ghost after = reg;
                self.projects.insert(project_id, reg);
                assert(self.projects@ =~= was.insert(project_id@, after));
            },
            None => {},
        }
        Ok(())
    }

    /// Changes what may change of a project without registering it anew: its id
    /// stays. The two texts are the writings of the requested and the current
    /// budget.
    pub fn update_project(
        &mut self,
        project_id: &str,
        update: &ProjectUpdate,
        ceiling: Option<Usd>,
        actor: &str,
        requested_text: &str,
        current_text: &str,
    ) -> (r: Result<BudgetChange, RegistryError>)
        ensures
            final(self).same_rules(*old(self)),
            final(self).counters == old(self).counters,
            match gate_fault(project_id@, old(self).found(project_id@)) {
                Some(f) => (r matches Err(e) && e@ == f) && final(self).projects@ == old(self).projects@,
                None => {
                    let reg = old(self).projects@[project_id@];
                    let after = final(self).projects@[project_id@];
                    &&& final(self).projects@ == old(self).projects@.insert(project_id@, after)
                    &&& update_result(
                        project_id@,
                        reg,
                        after,
                        r,
                        *update,
                        ceiling,
                        actor@,
                        requested_text@,
                        current_text@,
                    )
                },
            },
            old(self).wf() ==> final(self).wf(),
    {
        match self.require_active(project_id) {
            Ok(_) => {},
            Err(e) => {
                return Err(e);
            },
        }
        let ghost was = self.projects@;
        let ghost first = was[project_id@];
        let mut reg = match self.projects.take(project_id) {
            Some(reg) => reg,
            None => {
                return Err(RegistryError::NotRegistered(project_id.to_owned()));
            },
        };
        match plan_identity(&reg, update) {
            Some((name, description)) => {
                reg.name = name;
                reg.description = description;
            },
            None => {},
        }
        let planned = plan_budget(
            project_id,
            reg.budget_usd,
            update.budget_usd,
            ceiling,
            actor,
            requested_text,
            current_text,
        );
        let r = match planned {
            Err(e) => Err(e),
            Ok(change) => {
                match &change {
                    BudgetChange::Apply(b) => {
                        reg.budget_usd = *b;
                    },
                    _ => {},
                }
                match plan_ownership(&reg, update) {
                    Err(e) => Err(e),
                    Ok(parties) => {
                        match parties {
                            Some((owner, manager)) => {
                                reg.owner = owner;
                                reg.manager = manager;
                            },
                            None => {},
                        }
                        Ok(change)
                    },
                }
            },
        };
        let ghost after = reg;
        self.projects.insert(project_id, reg);
        assert(self.projects@ =~= was.insert(project_id@, after));
        r
    }

    /// Applies an approved budget. `amount` is what the request's text reads as;
    /// none where it is no number.
    pub fn fulfill_budget(&mut self, req: &WorkflowRequest, amount: Option<Usd>) -> (r: Result<
        String,
        RegistryError,
    >)
        ensures
            final(self).same_rules(*old(self)),
            final(self).counters == old(self).counters,
            match (approved_budget(*req), amount) {
                (Err(f), _) => (r matches Err(e) && e@ == f) && final(self).projects@ == old(self).projects@,
                (Ok(_), None) => (r matches Err(e) && e@ == RegistryFault::Validation(
                    "request has no requested_budget"@,
                )) && final(self).projects@ == old(self).projects@,
                (Ok((id, _)), Some(b)) => (r matches Ok(got) && got@ == id) && final(self).projects@ == if old(self).projects@.contains_key(id) {
                    old(self).projects@.insert(
                        id,
                        (Registration { budget_usd: b, ..old(self).projects@[id] }),
                    )
                } else {
                    old(self).projects@
                },
            },
            old(self).wf() ==> final(self).wf(),
    {
        let (id, _) = match budget_to_apply(req) {
            Ok(p) => p,
            Err(e) => {
                return Err(e);
            },
        };
        let b = match amount {
            Some(b) => b,
            None => {
                return Err(RegistryError::validation("request has no requested_budget"));
            },
        };
        let ghost was = self.projects@;
        match self.projects.take(id.as_str()) {
            Some(reg) => {
                let mut reg = reg;
                reg.budget_usd = b;
                let ghost after = reg;
                self.projects.insert(id.as_str(), reg);
                assert(self.projects@ =~= was.insert(id@, after));
            },
            None => {
                assert(self.projects@ =~= was);
            },
        }
        Ok(id)
    }

    /// Where a project stands, the tier it may move to, and what is missing.
    pub fn promotion_checklist(&self, project_id: &str) -> (r: Result<
        PromotionChecklist,
        RegistryError,
    >)
        ensures
            match self.found(project_id@) {
                None => r matches Err(e) && e@ == RegistryFault::NotRegistered(project_id@),
                Some(reg) => r matches Ok(c) && c.current@ == reg.classification@ && match tier_above(
                    reg.classification@,
                ) {
                    Some(t) => (c.next_tier matches Some(n) && n@ == t) && (c.verdict matches Some(
                        v,
                    ) && v.target@ == t && texts(v.missing@) == gaps(
                        reg,
                        self.requirements.required(t),
                    ) && v.evidence_complete == (gaps(
                        reg,
                        self.requirements.required(t),
                    ).len() == 0) && texts(v.exception_signals@) == signals(
                        reg,
                        self.requirements.required(t),
                    ) && texts(v.unverified_signals@) == unverified()),
                    None => c.next_tier is None && c.verdict is None,
                },
            },
    {
        match self.get(project_id) {
            Some(reg) => Ok(checklist(reg, &self.requirements)),
            None => Err(RegistryError::NotRegistered(project_id.to_owned())),
        }
    }

    /// The verdict on a move to a tier, once the project and the step are admitted: what a
    /// promotion is requested with.
    pub fn request_promotion(&self, project_id: &str, target: &str) -> (r: Result<
        EvidenceVerdict,
        RegistryError,
    >)
        ensures
            match gate_fault(project_id@, self.found(project_id@)) {
                Some(f) => r matches Err(e) && e@ == f,
                None => {
                    let reg = self.projects@[project_id@];
                    let required = self.requirements.required(target@);
                    match step_fault(reg.classification@, target@) {
                        Some(f) => r matches Err(e) && e@ == f,
                        None => r matches Ok(v) && v.target@ == target@ && texts(v.missing@)
                            == gaps(reg, required) && v.evidence_complete == (gaps(
                            reg,
                            required,
                        ).len() == 0) && texts(v.exception_signals@) == signals(reg, required)
                            && texts(v.unverified_signals@) == unverified(),
                    }
                },
            },
    {
        match self.require_active(project_id) {
            Ok(reg) => begin_promotion(reg, target, &self.requirements),
            Err(e) => Err(e),
        }
    }

    /// Applies an approved promotion: the project is in its new tier, and a request
    /// for it is no longer among its evidence.
    pub fn fulfill_promotion(&mut self, req: &WorkflowRequest) -> (r: Result<Promoted, RegistryError>)
        ensures
            final(self).same_rules(*old(self)),
            final(self).counters == old(self).counters,
            match approved_promotion(*req) {
                Err(f) => (r matches Err(e) && e@ == f) && final(self).projects@ == old(self).projects@,
                Ok((id, target)) => match gate_fault(id, old(self).found(id)) {
                    Some(f) => (r matches Err(e) && e@ == f) && final(self).projects@ == old(self).projects@,
                    None => {
                        let reg = old(self).projects@[id];
                        let after = final(self).projects@[id];
                        &&& r matches Ok(p) && p.project_id@ == id && p.from@
                            == reg.classification@ && p.to@ == target && p.evidence_changed == (
                        reg.evidence.requested_classification@.len() > 0)
                        &&& after.classification@ == target
                        &&& after.evidence.requested_classification@.len() == 0
                        &&& after == crate::registry::approvals::promoted(
                            reg,
                            after.classification,
                            after.evidence.requested_classification,
                        )
                        &&& final(self).projects@ == old(self).projects@.insert(id, after)
                    },
                },
            },
            old(self).wf() ==> final(self).wf(),
    {
        let (id, target) = match promotion_to_apply(req) {
            Ok(p) => p,
            Err(e) => {
                return Err(e);
            },
        };
        match self.require_active(id.as_str()) {
            Ok(_) => {},
            Err(e) => {
                return Err(e);
            },
        }
        let ghost was = self.projects@;
        match self.projects.take(id.as_str()) {
            Some(reg) => {
                let from = reg.classification.clone();
                let (after, evidence_changed) = crate::registry::approvals::apply_promotion(
                    reg,
                    target.as_str(),
                );
                let ghost done = after;
                self.projects.insert(id.as_str(), after);
                assert(self.projects@ =~= was.insert(id@, done));
                Ok(Promoted { project_id: id, from, to: target, evidence_changed })
            },
            None => Err(RegistryError::NotRegistered(id)),
        }
    }

    /// Moves a project down the ladder, for a stated reason. The tier that it came
    /// from is returned.
    pub fn demote(&mut self, project_id: &str, target: &str, reason: &str) -> (r: Result<
        String,
        RegistryError,
    >)
        ensures
            final(self).same_rules(*old(self)),
            final(self).counters == old(self).counters,
            ({
                let gate = gate_fault(project_id@, old(self).found(project_id@));
                let reg = old(self).projects@[project_id@];
                let fault = if blank(reason@) {
                    Some(RegistryFault::Validation("a reason is required to demote a project"@))
                } else if gate is Some {
                    gate
                } else {
                    demotion_fault(reg.classification@, target@, reason@)
                };
                match fault {
                    Some(f) => (r matches Err(e) && e@ == f) && final(self).projects@ == old(self).projects@,
                    None => {
                        let after = final(self).projects@[project_id@];
                        &&& r matches Ok(from) && from@ == reg.classification@
                        &&& after.classification@ == target@
                        &&& after == (Registration { classification: after.classification, ..reg })
                        &&& final(self).projects@ == old(self).projects@.insert(
                            project_id@,
                            after,
                        )
                    },
                }
            }),
            old(self).wf() ==> final(self).wf(),
    {
        match demotion_reason(reason) {
            Ok(_) => {},
            Err(e) => {
                return Err(e);
            },
        }
        match self.require_active(project_id) {
            Ok(reg) => match demote(reg.classification.as_str(), target, reason) {
                Ok(_) => {},
                Err(e) => {
                    return Err(e);
                },
            },
            Err(e) => {
                return Err(e);
            },
        }
        let ghost was = self.projects@;
        match self.projects.take(project_id) {
            Some(reg) => {
                let mut reg = reg;
                let from = reg.classification.clone();
                reg.classification = target.to_owned();
                let ghost after = reg;
                self.projects.insert(project_id, reg);
                assert(self.projects@ =~= was.insert(project_id@, after));
                Ok(from)
            },
            None => Err(RegistryError::NotRegistered(project_id.to_owned())),
        }
    }

    /// Sweeps the projects: flags those whose deadline has passed and reports them
    /// once, and reports the stack exceptions that have no renewal ahead.
    pub fn sweep(&mut self, now: &str) -> (r: SweepSummary)
        ensures
            final(self).same_rules(*old(self)),
            final(self).counters == old(self).counters,
            r.checked == reviews_among(old(self).projects.names(), old(self).projects@),
            texts(r.newly_expired@) == passed_among(
                old(self).projects.names(),
                old(self).projects@,
                now@,
            ),
            texts(r.expired_exceptions@) == lapsed_among(
                old(self).projects.names(),
                old(self).projects@,
                now@,
            ),
            forall|id: Seq<char>| #[trigger]
                final(self).projects@.contains_key(id) <==> old(self).projects@.contains_key(id),
            forall|id: Seq<char>| #[trigger]
                old(self).projects@.contains_key(id) ==> swept_project(
                    old(self).projects@[id],
                    final(self).projects@[id],
                    now@,
                ),
            old(self).wf() ==> final(self).wf(),
    {
        let ghost was = self.projects@;
        let keys = self.projects.keys();
        let ghost names = texts(keys@);
        let mut checked: usize = 0;
        let mut newly_expired: Vec<String> = Vec::new();
        let mut expired_exceptions: Vec<String> = Vec::new();
        let mut i: usize = 0;
        assert(names.take(0) =~= Seq::empty());
        assert(texts(newly_expired@) =~= Seq::empty());
        assert(texts(expired_exceptions@) =~= Seq::empty());
        while i < keys.len()
            invariant
                i <= keys@.len(),
                checked <= i,
                names == texts(keys@),
                increasing(names),
                self.counters == old(self).counters,
                self.same_rules(*old(self)),
                was == old(self).projects@,
                names == old(self).projects.names(),
                forall|k: Seq<char>| was.contains_key(k) <==> #[trigger] names.contains(k),
                checked == reviews_among(names.take(i as int), was),
                texts(newly_expired@) == passed_among(names.take(i as int), was, now@),
                texts(expired_exceptions@) == lapsed_among(names.take(i as int), was, now@),
                forall|k: Seq<char>| #[trigger]
                    self.projects@.contains_key(k) <==> was.contains_key(k),
                forall|k: Seq<char>| #[trigger]
                    was.contains_key(k) ==> if names.take(i as int).contains(k) {
                        swept_project(was[k], self.projects@[k], now@)
                    } else {
                        self.projects@[k] == was[k]
                    },
            decreases keys.len() - i,
        {
            let key = keys[i].as_str();
            let ghost here = self.projects@;
            proof {
                lemma_take_more(names, i as int);
                assert(names.take(i + 1).drop_last() =~= names.take(i as int));
                assert(names[i as int] == key@);
                assert(names.contains(key@));
                assert(!names.take(i as int).contains(key@)) by {
                    if names.take(i as int).contains(key@) {
                        let j = choose|j: int| 0 <= j < i && names.take(i as int)[j] == key@;
                        assert(names[j] == key@);
                        assert(before(names[j], names[i as int]));
                        lemma_before_irreflexive(key@);
                    }
                }
            }
            let ghost seen = texts(newly_expired@);
            let ghost told = texts(expired_exceptions@);
            match self.projects.take(key) {
                Some(reg) => {
                    let mut reg = reg;
                    if reg.registered && !reg.review_date.as_str().is_empty() {
                        checked = checked + 1;
                    }
                    if reg.registered && !reg.evidence.stack_exception.as_str().is_empty() && (
                    reg.stack_exception_renewal_date.as_str().is_empty() || text_before(
                        reg.stack_exception_renewal_date.as_str(),
                        now,
                    )) {
                        expired_exceptions.push(key.to_owned());
                        assert(texts(expired_exceptions@) =~= told.push(key@));
                    }
                    if reg.registered && !reg.review_date.as_str().is_empty() && text_eq(
                        reg.review_state.as_str(),
                        "ok",
                    ) && text_before(reg.review_date.as_str(), now) {
                        reg.review_state = "expired".to_owned();
                        newly_expired.push(key.to_owned());
                        assert(texts(newly_expired@) =~= seen.push(key@));
                    }
                    let ghost after = reg;
                    self.projects.insert(key, reg);
                    assert(self.projects@ =~= here.insert(key@, after));
                },
                None => {},
            }
            i = i + 1;
        }
        assert(names.take(names.len() as int) =~= names);
        SweepSummary { checked, newly_expired, expired_exceptions }
    }

    /// Decides a request for more time: granted while the allowance lasts, else put
    /// to a human.
    pub fn extend_review(&self, project_id: &str, now: &str, actor: &str) -> (r: Result<
        Extension,
        RegistryError,
    >)
        ensures
            match gate_fault(project_id@, self.found(project_id@)) {
                Some(f) => r matches Err(e) && e@ == f,
                None => {
                    let reg = self.projects@[project_id@];
                    if reg.review_extensions < self.review.auto_extensions {
                        r matches Ok(Extension::Grant { base }) && base@ == if reg.review_date@.len()
                            == 0 {
                            now@
                        } else {
                            reg.review_date@
                        }
                    } else {
                        r matches Ok(Extension::Ask(n)) && n.kind@ == "review-extension"@
                            && n.requester@ == actor@ && n.subject@ == "project:"@ + project_id@
                            && n.payload@ == JsonView::Object(
                            Map::empty().insert("project_id"@, JsonView::Str(project_id@)),
                        ) && n.sla_seconds == Some(604800i64)
                    }
                },
            },
    {
        match self.require_active(project_id) {
            Ok(reg) => {
                let rv = ReviewState {
                    review_date: reg.review_date.clone(),
                    review_state: reg.review_state.clone(),
                    review_extensions: reg.review_extensions,
                    stack_exception_renewal_date: reg.stack_exception_renewal_date.clone(),
                };
                Ok(extend_review(project_id, &rv, &self.review, now, actor))
            },
            Err(e) => Err(e),
        }
    }

    /// Grants a project a new deadline: one extension more is used, and an expiry is
    /// cleared.
    pub fn grant_extension(&mut self, project_id: &str, new_date: &str)
        requires
            old(self).found(project_id@) matches Some(reg) ==> reg.review_extensions < i64::MAX,
        ensures
            final(self).same_rules(*old(self)),
            final(self).counters == old(self).counters,
            match old(self).found(project_id@) {
                None => final(self).projects@ == old(self).projects@,
                Some(reg) => {
                    let after = final(self).projects@[project_id@];
                    &&& after.review_date@ == new_date@
                    &&& after.review_state@ == "ok"@
                    &&& after.review_extensions == reg.review_extensions + 1
                    &&& after == (Registration {
                        review_date: after.review_date,
                        review_state: after.review_state,
                        review_extensions: after.review_extensions,
                        ..reg
                    })
                    &&& final(self).projects@ == old(self).projects@.insert(project_id@, after)
                },
            },
            old(self).wf() ==> final(self).wf(),
    {
        let ghost was = self.projects@;
        match self.projects.take(project_id) {
            Some(reg) => {
                let mut reg = reg;
                let rv = grant_extension(
                    ReviewState {
                        review_date: reg.review_date,
                        review_state: reg.review_state,
                        review_extensions: reg.review_extensions,
                        stack_exception_renewal_date: reg.stack_exception_renewal_date,
                    },
                    new_date,
                );
                reg.review_date = rv.review_date;
                reg.review_state = rv.review_state;
                reg.review_extensions = rv.review_extensions;
                reg.stack_exception_renewal_date = rv.stack_exception_renewal_date;
                let ghost after = reg;
                self.projects.insert(project_id, reg);
                assert(self.projects@ =~= was.insert(project_id@, after));
            },
            None => {
                assert(self.projects@ =~= was);
            },
        }
    }
}

/// A project as the catalog shows it.
#[derive(Debug)]
pub struct ProjectEntity {
    pub name: String,
    pub title: String,
    pub description: Option<String>,
    pub spec: Json,
}

/// What the catalog is told of a project; `budget` is its budget as a number.
pub fn project_entity(reg: &Registration, budget: Json) -> (r: ProjectEntity)
    ensures
        r.name@ == reg.project_id@,
        r.title@ == reg.name@,
        contents(r.description) == if reg.description@.len() == 0 {
            None
        } else {
            Some(reg.description@)
        },
        r.spec@ == JsonView::Object(
            Map::empty().insert("id"@, JsonView::Str(reg.project_id@)).insert(
                "owner"@,
                JsonView::Str(reg.owner@),
            ).insert("manager"@, JsonView::Str(reg.manager@)).insert(
                "group"@,
                JsonView::Str(reg.group@),
            ).insert("costCenter"@, JsonView::Str(reg.cost_center@)).insert(
                "classification"@,
                JsonView::Str(reg.classification@),
            ).insert("budgetUsd"@, budget@).insert("lifecycle"@, JsonView::Str(reg.lifecycle@)),
        ),
{
    let mut spec = Json::object();
    spec.insert_str("id", reg.project_id.as_str());
    spec.insert_str("owner", reg.owner.as_str());
    spec.insert_str("manager", reg.manager.as_str());
    spec.insert_str("group", reg.group.as_str());
    spec.insert_str("costCenter", reg.cost_center.as_str());
    spec.insert_str("classification", reg.classification.as_str());
    spec.insert("budgetUsd", budget);
    spec.insert_str("lifecycle", reg.lifecycle.as_str());
    let description = if reg.description.as_str().is_empty() {
        None
    } else {
        Some(reg.description.clone())
    };
    ProjectEntity {
        name: reg.project_id.clone(),
        title: reg.name.clone(),
        description,
        spec,
    }
}

/// A project that was taken out of service is let through no more.
pub proof fn law_decommissioned_is_shut_out(id: Seq<char>, before: Registration, after: Registration)
    requires
        after.lifecycle@ == "decommissioned"@,
        after == (Registration { lifecycle: after.lifecycle, ..before }),
    ensures
        gate_fault(id, Some(after)) is Some,
{
    reveal_strlit("active");
    reveal_strlit("decommissioned");
    assert("active"@.len() != "decommissioned"@.len());
}

/// A sweep blocks nothing: what was let through before is let through after, and a
/// second sweep at the same time finds nothing new.
pub proof fn law_sweep_only_flags(id: Seq<char>, a: Registration, b: Registration, now: Seq<char>)
    requires
        swept_project(a, b, now),
    ensures
        gate_fault(id, Some(b)) == gate_fault(id, Some(a)),
        !review_passed(b, now),
        exception_passed(b, now) == exception_passed(a, now),
{
    reveal_strlit("ok");
    reveal_strlit("expired");
    assert("ok"@.len() != "expired"@.len());
}

/// A project is let through once it is registered, and its owner and manager have
/// authority over it.
pub proof fn law_registered_project_is_open(
    r: Registration,
    id: Seq<char>,
    a: Admitted,
    now: Seq<char>,
    deadline: Seq<char>,
    evidence: Evidence,
)
    requires
        made_of(r, id, a, now, deadline, evidence),
    ensures
        gate_fault(id, Some(r)) is None,
        authority(Some(r), a.owner, false),
        authority(Some(r), a.manager, false),
{
}

/// An update keeps everything that it is not for: the tier, the evidence, the time
/// of registration, the spend and the id.
pub proof fn law_update_keeps_the_rest(
    project_id: Seq<char>,
    reg: Registration,
    after: Registration,
    r: Result<BudgetChange, RegistryError>,
    update: ProjectUpdate,
    ceiling: Option<Usd>,
    actor: Seq<char>,
    requested_text: Seq<char>,
    current_text: Seq<char>,
)
    requires
        update_result(project_id, reg, after, r, update, ceiling, actor, requested_text, current_text),
    ensures
        after.project_id == reg.project_id,
        after.classification == reg.classification,
        after.evidence == reg.evidence,
        after.created_at == reg.created_at,
        after.spent_usd == reg.spent_usd,
        after.lifecycle == reg.lifecycle,
{
}

/// A sweep names exactly the registered projects whose deadline is past and whose state
/// is still `ok`, exactly the registered ones whose stack exception has no renewal date
/// or one that is past, and counts those that have a deadline.
pub proof fn law_sweep_names_what_is_past(
    names: Seq<Seq<char>>,
    projects: Map<Seq<char>, Registration>,
    now: Seq<char>,
)
    ensures
        passed_among(names, projects, now) == names.filter(
            |id: Seq<char>|
                projects[id].registered && projects[id].review_date@.len() > 0
                    && projects[id].review_state@ == "ok"@ && before(
                    projects[id].review_date@,
                    now,
                ),
        ),
        lapsed_among(names, projects, now) == names.filter(
            |id: Seq<char>|
                projects[id].registered && projects[id].evidence.stack_exception@.len() > 0 && (
                projects[id].stack_exception_renewal_date@.len() == 0 || before(
                    projects[id].stack_exception_renewal_date@,
                    now,
                )),
        ),
        reviews_among(names, projects) == names.filter(
            |id: Seq<char>| projects[id].registered && projects[id].review_date@.len() > 0,
        ).len(),
        registered_ids(names, projects) == names.filter(
            |id: Seq<char>| projects[id].registered,
        ),
    decreases names.len(),
{
    reveal(Seq::filter);
    if names.len() > 0 {
        law_sweep_names_what_is_past(names.drop_last(), projects, now);
    }
}

/// A sweep changes nothing of a project but the state of one whose deadline is past,
/// which goes from `ok` to `expired`.
pub proof fn law_sweep_expires_what_is_past(a: Registration, b: Registration, now: Seq<char>)
    requires
        swept_project(a, b, now),
    ensures
        b == (Registration { review_state: b.review_state, ..a }),
        a.registered && a.review_date@.len() > 0 && a.review_state@ == "ok"@ && before(
            a.review_date@,
            now,
        ) ==> b.review_state@ == "expired"@,
        !(a.registered && a.review_date@.len() > 0 && a.review_state@ == "ok"@ && before(
            a.review_date@,
            now,
        )) ==> b == a,
{
}

/// A new project is on record as it was admitted: registered and active, nothing spent,
/// under review from its first deadline on and with no extension used.
pub proof fn law_new_project_is_as_admitted(
    r: Registration,
    id: Seq<char>,
    a: Admitted,
    now: Seq<char>,
    deadline: Seq<char>,
    evidence: Evidence,
)
    requires
        made_of(r, id, a, now, deadline, evidence),
    ensures
        r.project_id@ == id,
        r.name@ == a.name,
        r.description@ == a.description,
        r.owner@ == a.owner,
        r.manager@ == a.manager,
        r.group@ == a.group,
        r.cost_center@ == a.cost_center,
        r.classification@ == a.classification,
        r.data_class@ == a.data_class,
        r.budget_usd.bits == a.budget_bits,
        r.spent_usd.bits == 0,
        r.lifecycle@ == "active"@,
        r.registered,
        !r.killed,
        r.created_at@ == now,
        r.review_date@ == deadline,
        r.review_state@ == "ok"@,
        r.review_extensions == 0,
        r.stack_exception_renewal_date@.len() == 0,
        r.evidence == evidence,
{
}

/// The budget changes only where it needs no human: it is not below zero, and no higher
/// than today's or than the ceiling. A higher one waits for a human and leaves the budget
/// as it was; one below zero is refused.
pub proof fn law_budget_changes_only_within_the_ceiling(
    project_id: Seq<char>,
    reg: Registration,
    after: Registration,
    r: Result<BudgetChange, RegistryError>,
    update: ProjectUpdate,
    ceiling: Option<Usd>,
    actor: Seq<char>,
    requested_text: Seq<char>,
    current_text: Seq<char>,
)
    requires
        update_result(project_id, reg, after, r, update, ceiling, actor, requested_text, current_text),
    ensures
        update.budget_usd is None ==> after.budget_usd == reg.budget_usd,
        update.budget_usd matches Some(b) ==> {
            let alone = b.within(reg.budget_usd) || (ceiling is Some && b.within(ceiling->0));
            &&& b.negative() ==> r is Err && after.budget_usd == reg.budget_usd
            &&& !b.negative() && alone ==> after.budget_usd == b
            &&& !b.negative() && !alone ==> after.budget_usd == reg.budget_usd
            &&& !b.negative() && !alone && r is Ok ==> r->Ok_0 is Review
            &&& !b.negative() && alone && r is Ok ==> r->Ok_0 is Apply
        },
{
}

/// An update gives a project the name and the description that it supplies, and, where
/// all addresses are in order, the owner and the manager.
pub proof fn law_update_gives_what_it_supplies(
    project_id: Seq<char>,
    reg: Registration,
    after: Registration,
    r: Result<BudgetChange, RegistryError>,
    update: ProjectUpdate,
    ceiling: Option<Usd>,
    actor: Seq<char>,
    requested_text: Seq<char>,
    current_text: Seq<char>,
)
    requires
        update_result(project_id, reg, after, r, update, ceiling, actor, requested_text, current_text),
    ensures
        update.name matches Some(n) && trimmed(n@).len() > 0 ==> after.name@ == trimmed(
            update.name->0@,
        ),
        (update.name is None || trimmed(update.name->0@).len() == 0) ==> after.name@ == reg.name@,
        update.description is Some ==> after.description@ == update.description->0@,
        update.description is None ==> after.description@ == reg.description@,
        r is Ok && (update.owner_email matches Some(o) && trimmed(o@).len() > 0) ==> email(
            trimmed(update.owner_email->0@),
        ) == Ok::<Seq<char>, RegistryFault>(after.owner@),
        r is Ok && (update.manager_email matches Some(m) && trimmed(m@).len() > 0) ==> email(
            trimmed(update.manager_email->0@),
        ) == Ok::<Seq<char>, RegistryFault>(after.manager@),
        (r is Err || update.owner_email is None || trimmed(update.owner_email->0@).len() == 0)
            ==> after.owner@ == reg.owner@,
        (r is Err || update.manager_email is None || trimmed(update.manager_email->0@).len() == 0)
            ==> after.manager@ == reg.manager@,
{
}

} // verus!
