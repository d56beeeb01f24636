//! The path of a promotion: what is submitted, where it comes to rest once its
//! review is known, and what a fulfilled promotion or a demotion changes.
use vstd::prelude::*;

use crate::json::{strings_view, Json, JsonView};
use crate::registry::evidence::Evidence;
use crate::registry::promotion::{
    evaluate,
    gaps,
    lemma_tiers_differ,
    rank_of,
    signals,
    step_fault,
    tier_rank,
    unverified,
    validate_step,
    ClassificationRequirements,
    EvidenceVerdict,
};
use crate::registry::workflow::{
    named_state,
    state_name,
    NewRequest,
    State,
    WorkflowRequest,
    WEEK_SECS,
};
use crate::registry::{Registration, RegistryError, RegistryFault};
use crate::text::{blank, copy_texts, is_blank, text_eq, texts, trim, trimmed};

verus! {

/// What a panel adds to a promotion. It can raise exceptions, never
/// clear them.
#[derive(Debug)]
pub struct ReviewerOutcome {
    pub passed: bool,
    pub added_exception_signals: Vec<String>,
    pub findings: Vec<String>,
    pub summary: String,
    pub reviewer_ids: Vec<String>,
}

impl Default for ReviewerOutcome {
    fn default() -> (r: ReviewerOutcome)
        ensures
            r.passed,
            r.added_exception_signals@.len() == 0,
            r.findings@.len() == 0,
            r.summary@.len() == 0,
            r.reviewer_ids@.len() == 0,
    {
        ReviewerOutcome {
            passed: true,
            added_exception_signals: Vec::new(),
            findings: Vec::new(),
            summary: String::new(),
            reviewer_ids: Vec::new(),
        }
    }
}

impl ReviewerOutcome {
    /// A clean pass that changes nothing.
    pub fn empty() -> (r: ReviewerOutcome)
        ensures
            r.passed,
            r.added_exception_signals@.len() == 0,
            r.findings@.len() == 0,
            r.summary@.len() == 0,
            r.reviewer_ids@.len() == 0,
    {
        ReviewerOutcome::default()
    }
}

/// The subject under which the requests of a project are filed.
pub open spec fn project_subject(project_id: Seq<char>) -> Seq<char> {
    "project:"@ + project_id
}

fn subject_of(project_id: &str) -> (r: String)
    ensures
        r@ == project_subject(project_id@),
{
    let mut s = "project:".to_owned();
    s.append(project_id);
    s
}

/// Checks the step to `target` and judges the evidence for it.
pub fn begin_promotion(
    reg: &Registration,
    target: &str,
    reqs: &ClassificationRequirements,
) -> (r: Result<EvidenceVerdict, RegistryError>)
    ensures
        match r {
            Ok(v) => {
                &&& step_fault(reg.classification@, target@) is None
                &&& v.target@ == target@
                &&& texts(v.missing@) == gaps(*reg, reqs.required(target@))
                &&& v.evidence_complete == (gaps(*reg, reqs.required(target@)).len() == 0)
                &&& texts(v.exception_signals@) == signals(*reg, reqs.required(target@))
                &&& texts(v.unverified_signals@) == unverified()
            },
            Err(e) => step_fault(reg.classification@, target@) == Some(e@),
        },
{
    match validate_step(reg.classification.as_str(), target) {
        Ok(_) => Ok(evaluate(reg, target, reqs)),
        Err(e) => Err(e),
    }
}

/// The facts of a promotion that the policy decides on.
pub open spec fn promotion_facts(
    reg: Registration,
    target: Seq<char>,
    verdict: EvidenceVerdict,
    exceptions: Seq<Seq<char>>,
) -> Map<Seq<char>, JsonView> {
    Map::empty().insert("project_id"@, JsonView::Str(reg.project_id@)).insert(
        "from_classification"@,
        JsonView::Str(reg.classification@),
    ).insert("target_classification"@, JsonView::Str(target)).insert(
        "evidence_complete"@,
        JsonView::Bool(verdict.evidence_complete),
    ).insert("has_exception"@, JsonView::Bool(exceptions.len() > 0)).insert(
        "is_critical"@,
        JsonView::Bool(target == "critical-path"@),
    ).insert(
        "risk_accepted"@,
        JsonView::Bool(!blank(reg.evidence.risk_acceptance_url@)),
    ).insert("missing"@, JsonView::Array(strings_view(texts(verdict.missing@)))).insert(
        "exception_signals"@,
        JsonView::Array(strings_view(exceptions)),
    )
}

/// A payload with the review's result written into it.
pub open spec fn with_review(m: Map<Seq<char>, JsonView>, o: ReviewerOutcome) -> Map<
    Seq<char>,
    JsonView,
> {
    m.insert("review_passed"@, JsonView::Bool(o.passed)).insert(
        "review_findings"@,
        JsonView::Array(strings_view(texts(o.findings@))),
    ).insert("review_summary"@, JsonView::Str(o.summary@)).insert(
        "reviewers_ran"@,
        JsonView::Array(strings_view(texts(o.reviewer_ids@))),
    )
}

/// The exceptions of a promotion: the machine's and those the review adds.
pub open spec fn all_exceptions(verdict: EvidenceVerdict, outcome: Option<ReviewerOutcome>) -> Seq<
    Seq<char>,
> {
    match outcome {
        Some(o) => texts(verdict.exception_signals@) + texts(o.added_exception_signals@),
        None => texts(verdict.exception_signals@),
    }
}

/// The payload a promotion is submitted with: the facts, and the review's result
/// where the review ran before the submission.
pub open spec fn promotion_payload(
    reg: Registration,
    target: Seq<char>,
    verdict: EvidenceVerdict,
    outcome: Option<ReviewerOutcome>,
) -> JsonView {
    let facts = promotion_facts(reg, target, verdict, all_exceptions(verdict, outcome));
    match outcome {
        Some(o) => JsonView::Object(with_review(facts, o)),
        None => JsonView::Object(facts),
    }
}

fn put_review(payload: &mut Json, o: &ReviewerOutcome)
    ensures
        final(payload)@ == match old(payload)@ {
            JsonView::Object(m) => JsonView::Object(with_review(m, *o)),
            v => v,
        },
{
    payload.insert("review_passed", Json::Bool(o.passed));
    payload.insert("review_findings", Json::strings(&o.findings));
    payload.insert_str("review_summary", o.summary.as_str());
    payload.insert("reviewers_ran", Json::strings(&o.reviewer_ids));
}

/// The request a promotion is submitted as. `outcome` is the review's result, or
/// `None` when the review is put off to the worker.
pub fn promotion_request(
    reg: &Registration,
    target: &str,
    verdict: &EvidenceVerdict,
    outcome: &Option<ReviewerOutcome>,
    actor: &str,
) -> (r: NewRequest)
    ensures
        r.kind@ == "promotion"@,
        r.requester@ == actor@,
        r.subject@ == project_subject(reg.project_id@),
        r.payload@ == promotion_payload(*reg, target@, *verdict, *outcome),
        r.sla_seconds == Some(604800i64),
{
    let mut exceptions = copy_texts(&verdict.exception_signals);
    match outcome {
        Some(o) => {
            let mut added = copy_texts(&o.added_exception_signals);
            exceptions.append(&mut added);
        },
        None => {},
    }
    assert(texts(exceptions@) =~= all_exceptions(*verdict, *outcome));
    assert(texts(exceptions@).len() == exceptions@.len());
    let mut payload = Json::object();
    payload.insert_str("project_id", reg.project_id.as_str());
    payload.insert_str("from_classification", reg.classification.as_str());
    payload.insert_str("target_classification", target);
    payload.insert("evidence_complete", Json::Bool(verdict.evidence_complete));
    payload.insert("has_exception", Json::Bool(!exceptions.is_empty()));
    payload.insert("is_critical", Json::Bool(text_eq(target, "critical-path")));
    payload.insert(
        "risk_accepted",
        Json::Bool(!is_blank(reg.evidence.risk_acceptance_url.as_str())),
    );
    payload.insert("missing", Json::strings(&verdict.missing));
    payload.insert("exception_signals", Json::strings(&exceptions));
    match outcome {
        Some(o) => put_review(&mut payload, o),
        None => {},
    }
    NewRequest {
        kind: "promotion".to_owned(),
        requester: actor.to_owned(),
        subject: subject_of(reg.project_id.as_str()),
        payload,
        sla_seconds: Some(WEEK_SECS),
    }
}

/// What follows the submission of a promotion whose review is put off.
#[derive(Debug, Clone, Copy, PartialEq, Eq, Structural)]
pub enum Deferral {
    /// The policy said no; nothing is reviewed.
    Denied,
    /// Park the request for review and remember the state it came from.
    Park(State),
}

/// What follows the submission of a promotion whose review is put off.
pub fn after_deferred_submit(state: State) -> (r: Deferral)
    ensures
        r == if state == State::Rejected {
            Deferral::Denied
        } else {
            Deferral::Park(state)
        },
        r == Deferral::Denied <==> state == State::Rejected,
{
    match state {
        State::Rejected => Deferral::Denied,
        s => Deferral::Park(s),
    }
}

/// Writes the state to come back to into the payload of a parked promotion.
pub fn remember_state(payload: &mut Json, state: State)
    ensures
        final(payload)@ == match old(payload)@ {
            JsonView::Object(m) => JsonView::Object(
                m.insert("pre_review_state"@, JsonView::Str(state_name(state))),
            ),
            v => v,
        },
{
    payload.insert_str("pre_review_state", state.as_str());
}

/// The state a parked promotion came from; the human gate where none is noted.
pub open spec fn remembered_state(payload: JsonView) -> State {
    match payload.text_at("pre_review_state"@) {
        Some(s) => match named_state(s) {
            Some(st) => st,
            None => State::Requested,
        },
        None => State::Requested,
    }
}

/// The state a clean review restores.
pub fn pre_review_state(req: &WorkflowRequest) -> (r: State)
    ensures
        r == remembered_state(req.payload@),
{
    match req.payload.get_str("pre_review_state") {
        Some(s) => match State::parse(s) {
            Some(st) => st,
            None => State::Requested,
        },
        None => State::Requested,
    }
}

/// The state noted at parking is the state a clean review restores.
pub proof fn law_clean_review_restores_state(m: Map<Seq<char>, JsonView>, state: State)
    ensures
        remembered_state(
            JsonView::Object(m.insert("pre_review_state"@, JsonView::Str(state_name(state)))),
        ) == state,
{
    crate::registry::workflow::law_state_names_round_trip(state);
}

/// A promotion that a newer attempt replaces.
pub open spec fn superseded(r: WorkflowRequest) -> bool {
    r.kind@ == "promotion"@ && (r.state == State::Requested || r.state == State::Flagged || r.state
        == State::Reviewing)
}

/// The ids of the promotions that a newer attempt replaces, in order.
pub open spec fn superseded_ids(rs: Seq<WorkflowRequest>) -> Seq<Seq<char>>
    decreases rs.len(),
{
    if rs.len() == 0 {
        Seq::empty()
    } else {
        let rest = superseded_ids(rs.drop_last());
        if superseded(rs.last()) {
            rest.push(rs.last().id@)
        } else {
            rest
        }
    }
}

/// The open promotions among the requests of one subject.
pub fn open_promotions(all: &Vec<WorkflowRequest>) -> (r: Vec<String>)
    ensures
        texts(r@) == superseded_ids(all@),
{
    let mut out: Vec<String> = Vec::new();
    let mut i: usize = 0;
    assert(texts(out@) =~= superseded_ids(all@.take(0)));
    while i < all.len()
        invariant
            i <= all@.len(),
            texts(out@) == superseded_ids(all@.take(i as int)),
        decreases all.len() - i,
    {
        assert(all@.take(i + 1).drop_last() =~= all@.take(i as int));
        let ghost prev = texts(out@);
        let is_open = match all[i].state {
            State::Requested => true,
            State::Flagged => true,
            State::Reviewing => true,
            _ => false,
        };
        if text_eq(all[i].kind.as_str(), "promotion") && is_open {
            out.push(all[i].id.clone());
            assert(texts(out@) =~= prev.push(all@[i as int].id@));
        }
        i = i + 1;
    }
    assert(all@.take(all@.len() as int) =~= all@);
    out
}

/// Requests of which those with the given ids have been cancelled, and nothing else
/// has changed.
pub open spec fn cancelled_by_id(
    before: Seq<WorkflowRequest>,
    after: Seq<WorkflowRequest>,
    ids: Seq<Seq<char>>,
) -> bool {
    &&& after.len() == before.len()
    &&& forall|i: int|
        0 <= i < before.len() ==> #[trigger] after[i] == if ids.contains(before[i].id@) {
            (WorkflowRequest { state: State::Cancelled, ..before[i] })
        } else {
            before[i]
        }
}

proof fn lemma_superseded_ids(rs: Seq<WorkflowRequest>, i: int)
    requires
        0 <= i < rs.len(),
        superseded(rs[i]),
    ensures
        superseded_ids(rs).contains(rs[i].id@),
    decreases rs.len(),
{
    let rest = superseded_ids(rs.drop_last());
    if i < rs.len() - 1 {
        lemma_superseded_ids(rs.drop_last(), i);
        let k = choose|k: int| 0 <= k < rest.len() && rest[k] == rs[i].id@;
        assert(superseded_ids(rs)[k] == rs[i].id@);
    } else {
        assert(superseded_ids(rs)[rest.len() as int] == rs[i].id@);
    }
}

proof fn lemma_none_superseded(rs: Seq<WorkflowRequest>)
    requires
        forall|i: int| 0 <= i < rs.len() ==> !superseded(#[trigger] rs[i]),
    ensures
        superseded_ids(rs) == Seq::<Seq<char>>::empty(),
    decreases rs.len(),
{
    if rs.len() > 0 {
        let t = rs.drop_last();
        assert forall|i: int| 0 <= i < t.len() implies !superseded(#[trigger] t[i]) by {
            assert(t[i] == rs[i]);
        }
        lemma_none_superseded(t);
        assert(rs.last() == rs[rs.len() - 1]);
    }
}

/// A newer attempt leaves at most one promotion open: once the open ones have been
/// cancelled and the new request is filed, the new one is all that can be open. What
/// a human has decided is left alone.
pub proof fn law_one_promotion_is_open(
    before: Seq<WorkflowRequest>,
    after: Seq<WorkflowRequest>,
    fresh: WorkflowRequest,
)
    requires
        cancelled_by_id(before, after, superseded_ids(before)),
    ensures
        superseded_ids(after.push(fresh)) == if superseded(fresh) {
            seq![fresh.id@]
        } else {
            Seq::<Seq<char>>::empty()
        },
        forall|i: int|
            0 <= i < before.len() && superseded(#[trigger] before[i]) ==> after[i].state
                == State::Cancelled,
        forall|i: int|
            0 <= i < before.len() && !superseded_ids(before).contains(
                (#[trigger] before[i]).id@,
            ) ==> after[i] == before[i],
{
    assert forall|i: int| 0 <= i < before.len() && superseded(#[trigger] before[i]) implies after[i].state
        == State::Cancelled by {
        lemma_superseded_ids(before, i);
        assert(after[i].state == State::Cancelled);
    }
    assert forall|i: int| 0 <= i < after.len() implies !superseded(#[trigger] after[i]) by {
        if superseded(before[i]) {
            lemma_superseded_ids(before, i);
        }
    }
    lemma_none_superseded(after);
    assert(after.push(fresh).drop_last() =~= after);
    assert(superseded_ids(after.push(fresh)) =~= if superseded(fresh) {
        seq![fresh.id@]
    } else {
        Seq::<Seq<char>>::empty()
    });
}

// ---------------------------------------------------------------------------
// Coming to rest
// ---------------------------------------------------------------------------

/// How a promotion is brought to rest once its review is known.
#[derive(Debug)]
pub enum Finalize {
    /// Decided or superseded already; it stays as it is.
    Leave,
    /// Return it to the submitter with this reason.
    Flag(String),
    /// It is with the submitter already.
    StayFlagged,
    /// Restore this state.
    Resolve(State),
    /// It rests where it should.
    Rest,
}

/// A promotion that no review can move any more.
pub open spec fn settled(s: State) -> bool {
    s == State::Rejected || s == State::Cancelled || s == State::Fulfilled
}

/// The reason a flagged promotion carries.
pub open spec fn flag_reason(summary: Seq<char>) -> Seq<char> {
    if blank(summary) {
        "promotion blocked by review findings"@
    } else {
        summary
    }
}

/// Decides how a promotion comes to rest: an exception only ever returns it to
/// the submitter; a clean review restores `clean_state`.
pub fn finalize(
    state: State,
    clean_state: State,
    summary: &str,
    has_exception: bool,
) -> (r: Finalize)
    ensures
        if settled(state) {
            r is Leave
        } else if has_exception && state == State::Flagged {
            r is StayFlagged
        } else if has_exception {
            r matches Finalize::Flag(reason) && reason@ == flag_reason(summary@)
        } else if state != clean_state {
            r == Finalize::Resolve(clean_state)
        } else {
            r is Rest
        },
        rest_state(r, state) == resting(state, clean_state, has_exception),
        state == State::Rejected || state == State::Cancelled || state == State::Fulfilled
            <==> r is Leave,
        !(r is Leave) && has_exception ==> r is Flag || (r is StayFlagged && state
            == State::Flagged),
        !(r is Leave) && !has_exception ==> r is Rest || r == Finalize::Resolve(clean_state),
{
    match state {
        State::Rejected => {
            return Finalize::Leave;
        },
        State::Cancelled => {
            return Finalize::Leave;
        },
        State::Fulfilled => {
            return Finalize::Leave;
        },
        _ => {},
    }
    if has_exception {
        match state {
            State::Flagged => Finalize::StayFlagged,
            _ => {
                if is_blank(summary) {
                    Finalize::Flag("promotion blocked by review findings".to_owned())
                } else {
                    Finalize::Flag(summary.to_owned())
                }
            },
        }
    } else if state != clean_state {
        Finalize::Resolve(clean_state)
    } else {
        Finalize::Rest
    }
}

/// The state an action leaves a promotion in.
pub open spec fn rest_state(action: Finalize, state: State) -> State {
    match action {
        Finalize::Leave => state,
        Finalize::Flag(_) => State::Flagged,
        Finalize::StayFlagged => state,
        Finalize::Resolve(s) => s,
        Finalize::Rest => state,
    }
}

/// The state in which a promotion comes to rest.
pub open spec fn resting(state: State, clean_state: State, has_exception: bool) -> State {
    if settled(state) {
        state
    } else if has_exception {
        State::Flagged
    } else {
        clean_state
    }
}

/// A review only escalates: with an exception no promotion comes to rest
/// approved, unless it had been settled before.
pub proof fn law_review_only_escalates(state: State, clean_state: State)
    ensures
        resting(state, clean_state, true) != State::Approved,
        !settled(state) ==> resting(state, clean_state, true) == State::Flagged,
{
}

/// A review never moves a settled promotion, and a second review of a flagged one
/// with the same exception changes nothing.
pub proof fn law_settled_promotions_stay(state: State, clean_state: State, has_exception: bool)
    ensures
        settled(state) ==> resting(state, clean_state, has_exception) == state,
        resting(resting(state, clean_state, true), clean_state, true) == resting(
            state,
            clean_state,
            true,
        ),
{
}

// ---------------------------------------------------------------------------
// Reviews put off to the worker
// ---------------------------------------------------------------------------

/// Whether a review job still has work to do: its promotion is still parked.
pub fn still_reviewing(req: &WorkflowRequest) -> (r: bool)
    ensures
        r == (req.state == State::Reviewing),
{
    match req.state {
        State::Reviewing => true,
        _ => false,
    }
}

/// Whether the panel is asked at all: not where the evidence already fails.
pub fn needs_panel(verdict: &EvidenceVerdict) -> (r: bool)
    ensures
        r == (verdict.exception_signals@.len() == 0),
{
    verdict.exception_signals.is_empty()
}

/// Whether a promotion has an exception after its review.
pub fn has_exception(verdict: &EvidenceVerdict, outcome: &ReviewerOutcome) -> (r: bool)
    ensures
        r == (all_exceptions(*verdict, Some(*outcome)).len() > 0),
{
    assert(texts(verdict.exception_signals@).len() == verdict.exception_signals@.len());
    assert(texts(outcome.added_exception_signals@).len() == outcome.added_exception_signals@.len());
    !verdict.exception_signals.is_empty() || !outcome.added_exception_signals.is_empty()
}

/// Writes the review's result into the payload of a parked promotion.
pub fn record_review(payload: &mut Json, outcome: &ReviewerOutcome)
    ensures
        final(payload)@ == match old(payload)@ {
            JsonView::Object(m) => JsonView::Object(with_review(m, *outcome)),
            v => v,
        },
{
    put_review(payload, outcome);
}

/// The outcome that stands for a review that did not complete.
pub fn failed_review(error: &str) -> (r: ReviewerOutcome)
    ensures
        !r.passed,
        texts(r.added_exception_signals@) == seq![
            "automated code review did not complete: "@ + error@,
        ],
        texts(r.findings@) == seq!["code review failed to complete after retries: "@ + error@],
        r.summary@ == "code review unavailable — fix and retry, or escalate"@,
        texts(r.reviewer_ids@) == seq!["code-review"@],
{
    let mut signal = "automated code review did not complete: ".to_owned();
    signal.append(error);
    let mut finding = "code review failed to complete after retries: ".to_owned();
    finding.append(error);
    let r = ReviewerOutcome {
        passed: false,
        added_exception_signals: vec![signal],
        findings: vec![finding],
        summary: "code review unavailable — fix and retry, or escalate".to_owned(),
        reviewer_ids: vec!["code-review".to_owned()],
    };
    assert(texts(r.added_exception_signals@) =~= seq![
        "automated code review did not complete: "@ + error@,
    ]);
    assert(texts(r.findings@) =~= seq![
        "code review failed to complete after retries: "@ + error@,
    ]);
    assert(texts(r.reviewer_ids@) =~= seq!["code-review"@]);
    r
}

// ---------------------------------------------------------------------------
// Applying a decision
// ---------------------------------------------------------------------------

/// The project and the tier that an approved promotion applies.
pub open spec fn approved_promotion(req: WorkflowRequest) -> Result<
    (Seq<char>, Seq<char>),
    RegistryFault,
> {
    if req.state != State::Approved {
        Err(
            RegistryFault::Validation(
                "request is "@ + state_name(req.state) + ", must be approved before promotion"@,
            ),
        )
    } else if req.payload@.text_at("project_id"@) is None {
        Err(RegistryFault::Validation("request has no project_id"@))
    } else if req.payload@.text_at("target_classification"@) is None {
        Err(RegistryFault::Validation("request has no target_classification"@))
    } else {
        Ok(
            (
                req.payload@.text_at("project_id"@)->0,
                req.payload@.text_at("target_classification"@)->0,
            ),
        )
    }
}

/// What an approved promotion applies.
pub fn promotion_to_apply(req: &WorkflowRequest) -> (r: Result<(String, String), RegistryError>)
    ensures
        match r {
            Ok(p) => approved_promotion(*req) == Ok::<(Seq<char>, Seq<char>), RegistryFault>(
                (p.0@, p.1@),
            ),
            Err(e) => approved_promotion(*req) == Err::<(Seq<char>, Seq<char>), RegistryFault>(e@),
        },
{
    match req.state {
        State::Approved => {},
        _ => {
            let mut m = "request is ".to_owned();
            m.append(req.state.as_str());
            m.append(", must be approved before promotion");
            return Err(RegistryError::Validation(m));
        },
    }
    let project = match req.payload.get_str("project_id") {
        Some(p) => p.to_owned(),
        None => {
            return Err(RegistryError::validation("request has no project_id"));
        },
    };
    match req.payload.get_str("target_classification") {
        Some(t) => Ok((project, t.to_owned())),
        None => Err(RegistryError::validation("request has no target_classification")),
    }
}

/// A project after a promotion: in its new tier, with the met request cleared
/// from its evidence and everything else as it was.
pub open spec fn promoted(reg: Registration, target: String, cleared: String) -> Registration {
    Registration {
        classification: target,
        evidence: Evidence { requested_classification: cleared, ..reg.evidence },
        ..reg
    }
}

/// Moves a project to the tier of a fulfilled promotion and clears the met
/// request. Whether the evidence has to be stored again is returned with it.
pub fn apply_promotion(reg: Registration, target: &str) -> (r: (Registration, bool))
    ensures
        r.1 == (reg.evidence.requested_classification@.len() > 0),
        r.0.classification@ == target@,
        r.0.evidence.requested_classification@.len() == 0,
        r.0 == promoted(
            reg,
            r.0.classification,
            r.0.evidence.requested_classification,
        ),
{
    let mut reg = reg;
    let rewrite = !reg.evidence.requested_classification.as_str().is_empty();
    if rewrite {
        reg.evidence.requested_classification = String::new();
    }
    reg.classification = target.to_owned();
    (reg, rewrite)
}

/// Why a demotion is refused.
pub open spec fn demotion_fault(current: Seq<char>, target: Seq<char>, reason: Seq<char>) -> Option<
    RegistryFault,
> {
    if blank(reason) {
        Some(RegistryFault::Validation("a reason is required to demote a project"@))
    } else if rank_of(current) is None {
        Some(
            RegistryFault::Validation(
                "project has an unknown classification '"@ + current + "'"@,
            ),
        )
    } else if rank_of(target) is None {
        Some(RegistryFault::Validation("unknown classification '"@ + target + "'"@))
    } else if rank_of(target)->0 >= rank_of(current)->0 {
        Some(
            RegistryFault::Validation(
                "demotion target '"@ + target + "' must be below the current tier '"@ + current
                    + "'"@,
            ),
        )
    } else {
        None
    }
}

/// A demotion needs a reason; checked before the project is looked at.
pub fn demotion_reason(reason: &str) -> (r: Result<String, RegistryError>)
    ensures
        match r {
            Ok(t) => !blank(reason@) && t@ == trimmed(reason@),
            Err(e) => blank(reason@) && e@ == RegistryFault::Validation(
                "a reason is required to demote a project"@,
            ),
        },
{
    if is_blank(reason) {
        return Err(RegistryError::validation("a reason is required to demote a project"));
    }
    Ok(trim(reason))
}

/// Admits a move strictly down the ladder, for a stated reason.
pub fn demote(current: &str, target: &str, reason: &str) -> (r: Result<(), RegistryError>)
    ensures
        match r {
            Ok(_) => demotion_fault(current@, target@, reason@) is None,
            Err(e) => demotion_fault(current@, target@, reason@) == Some(e@),
        },
{
    if is_blank(reason) {
        return Err(RegistryError::validation("a reason is required to demote a project"));
    }
    let cur: usize = match tier_rank(current) {
        Some(k) => k,
        None => {
            let mut m = "project has an unknown classification '".to_owned();
            m.append(current);
            m.append("'");
            return Err(RegistryError::Validation(m));
        },
    };
    let tgt: usize = match tier_rank(target) {
        Some(k) => k,
        None => {
            let mut m = "unknown classification '".to_owned();
            m.append(target);
            m.append("'");
            return Err(RegistryError::Validation(m));
        },
    };
    if tgt >= cur {
        let mut m = "demotion target '".to_owned();
        m.append(target);
        m.append("' must be below the current tier '");
        m.append(current);
        m.append("'");
        return Err(RegistryError::Validation(m));
    }
    Ok(())
}

/// No move is both a promotion and a demotion.
pub proof fn law_promotion_and_demotion_exclude(
    current: Seq<char>,
    target: Seq<char>,
    reason: Seq<char>,
)
    ensures
        !(step_fault(current, target) is None && demotion_fault(current, target, reason) is None),
{
}

/// The policy is shown the facts as they are: the move, whether the evidence is complete,
/// whether there is an exception, whether the target is the critical tier and whether its
/// risk was accepted; with the review's result beside them where it ran.
pub proof fn law_policy_sees_the_facts(
    reg: Registration,
    target: Seq<char>,
    verdict: EvidenceVerdict,
    outcome: Option<ReviewerOutcome>,
)
    ensures
        ({
            let p = promotion_payload(reg, target, verdict, outcome);
            let exceptions = match outcome {
                Some(o) => texts(verdict.exception_signals@) + texts(o.added_exception_signals@),
                None => texts(verdict.exception_signals@),
            };
            &&& p.text_at("project_id"@) == Some(reg.project_id@)
            &&& p.text_at("from_classification"@) == Some(reg.classification@)
            &&& p.text_at("target_classification"@) == Some(target)
            &&& p.at("evidence_complete"@) == Some(JsonView::Bool(verdict.evidence_complete))
            &&& p.at("has_exception"@) == Some(JsonView::Bool(exceptions.len() > 0))
            &&& p.at("is_critical"@) == Some(JsonView::Bool(target == "critical-path"@))
            &&& p.at("risk_accepted"@) == Some(
                JsonView::Bool(!blank(reg.evidence.risk_acceptance_url@)),
            )
            &&& p.at("missing"@) == Some(JsonView::Array(strings_view(texts(verdict.missing@))))
            &&& p.at("exception_signals"@) == Some(JsonView::Array(strings_view(exceptions)))
            &&& outcome matches Some(o) ==> {
                &&& p.at("review_passed"@) == Some(JsonView::Bool(o.passed))
                &&& p.at("review_findings"@) == Some(
                    JsonView::Array(strings_view(texts(o.findings@))),
                )
                &&& p.text_at("review_summary"@) == Some(o.summary@)
                &&& p.at("reviewers_ran"@) == Some(
                    JsonView::Array(strings_view(texts(o.reviewer_ids@))),
                )
            }
        }),
{
    reveal_strlit("project_id");
    reveal_strlit("from_classification");
    reveal_strlit("target_classification");
    reveal_strlit("evidence_complete");
    reveal_strlit("has_exception");
    reveal_strlit("is_critical");
    reveal_strlit("risk_accepted");
    reveal_strlit("missing");
    reveal_strlit("exception_signals");
    reveal_strlit("review_passed");
    reveal_strlit("review_findings");
    reveal_strlit("review_summary");
    reveal_strlit("reviewers_ran");
    assert("project_id"@.len() == 10);
    assert("from_classification"@.len() == 19);
    assert("target_classification"@.len() == 21);
    assert("evidence_complete"@.len() == 17);
    assert("has_exception"@.len() == 13);
    assert("is_critical"@.len() == 11);
    assert("risk_accepted"@.len() == 13);
    assert("missing"@.len() == 7);
    assert("exception_signals"@.len() == 17);
    assert("review_passed"@.len() == 13);
    assert("review_findings"@.len() == 15);
    assert("review_summary"@.len() == 14);
    assert("reviewers_ran"@.len() == 13);
    assert("evidence_complete"@[1] != "exception_signals"@[1]);
    assert("has_exception"@[0] != "risk_accepted"@[0]);
    assert("has_exception"@[0] != "review_passed"@[0]);
    assert("has_exception"@[0] != "reviewers_ran"@[0]);
    assert("risk_accepted"@[1] != "review_passed"@[1]);
    assert("risk_accepted"@[1] != "reviewers_ran"@[1]);
    assert("review_passed"@[6] != "reviewers_ran"@[6]);
}

/// A review adds exceptions and takes none away: with its result the exceptions are the
/// machine's followed by the panel's.
pub proof fn law_review_takes_no_exception_away(verdict: EvidenceVerdict, o: ReviewerOutcome)
    ensures
        all_exceptions(verdict, None) == texts(verdict.exception_signals@),
        all_exceptions(verdict, Some(o)) == texts(verdict.exception_signals@) + texts(
            o.added_exception_signals@,
        ),
        all_exceptions(verdict, Some(o)).len() == verdict.exception_signals@.len()
            + o.added_exception_signals@.len(),
{
}

/// A newer attempt replaces the promotions that wait, are flagged or are reviewed, all of
/// them and no other request.
pub proof fn law_newer_attempt_replaces_open_ones(rs: Seq<WorkflowRequest>)
    ensures
        superseded_ids(rs) == rs.filter(
            |r: WorkflowRequest|
                r.kind@ == "promotion"@ && (r.state == State::Requested || r.state
                    == State::Flagged || r.state == State::Reviewing),
        ).map_values(|r: WorkflowRequest| r.id@),
    decreases rs.len(),
{
    reveal(Seq::filter);
    let f = |r: WorkflowRequest|
        r.kind@ == "promotion"@ && (r.state == State::Requested || r.state == State::Flagged
            || r.state == State::Reviewing);
    let g = |r: WorkflowRequest| r.id@;
    if rs.len() > 0 {
        let t = rs.drop_last();
        law_newer_attempt_replaces_open_ones(t);
        let last = rs.last();
        assert(t.filter(f).push(last).map_values(g) =~= t.filter(f).map_values(g).push(g(last)));
    }
    assert(superseded_ids(rs) =~= rs.filter(f).map_values(g));
}

/// Where a promotion comes to rest: a rejected, cancelled or fulfilled one stays; of any
/// other an exception makes a flagged one, and without one it is where a clean review
/// puts it. A flag has a reason, the review's own where it gave one.
pub proof fn law_where_a_promotion_rests(
    state: State,
    clean_state: State,
    has_exception: bool,
    summary: Seq<char>,
)
    ensures
        state == State::Rejected || state == State::Cancelled || state == State::Fulfilled
            ==> resting(state, clean_state, has_exception) == state,
        state != State::Rejected && state != State::Cancelled && state != State::Fulfilled
            && has_exception ==> resting(state, clean_state, has_exception) == State::Flagged,
        state != State::Rejected && state != State::Cancelled && state != State::Fulfilled
            && !has_exception ==> resting(state, clean_state, has_exception) == clean_state,
        !blank(summary) ==> flag_reason(summary) == summary,
        blank(summary) ==> flag_reason(summary) == "promotion blocked by review findings"@,
{
}

/// A promotion is applied exactly when it is approved and names a project and a tier, and
/// it is that project that moves to that tier.
pub proof fn law_only_approved_promotions_apply(req: WorkflowRequest)
    ensures
        approved_promotion(req) is Ok <==> req.state == State::Approved && req.payload@.text_at(
            "project_id"@,
        ) is Some && req.payload@.text_at("target_classification"@) is Some,
        approved_promotion(req) matches Ok(p) ==> req.payload@.text_at("project_id"@) == Some(p.0)
            && req.payload@.text_at("target_classification"@) == Some(p.1),
{
}

/// A promotion changes a project's tier and clears the request that it met; everything
/// else stays as it was.
pub proof fn law_promotion_changes_the_tier_alone(
    reg: Registration,
    target: String,
    cleared: String,
)
    ensures
        ({
            let p = promoted(reg, target, cleared);
            &&& p.classification == target
            &&& p.evidence.requested_classification == cleared
            &&& p == (Registration {
                classification: p.classification,
                evidence: p.evidence,
                ..reg
            })
            &&& p.evidence == (Evidence {
                requested_classification: p.evidence.requested_classification,
                ..reg.evidence
            })
        }),
{
}

/// A demotion goes down the ladder, by any number of steps, and has a reason.
pub proof fn law_demotion_goes_down(current: Seq<char>, target: Seq<char>, reason: Seq<char>)
    ensures
        demotion_fault(current, target, reason) is None <==> !blank(reason) && {
            ||| target == "poc"@ && (current == "light-operational"@ || current
                == "wide-operational"@ || current == "critical-path"@)
            ||| target == "light-operational"@ && (current == "wide-operational"@ || current
                == "critical-path"@)
            ||| target == "wide-operational"@ && current == "critical-path"@
        },
{
    lemma_tiers_differ();
}

} // verus!
