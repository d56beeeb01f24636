//! Registering a project and changing it afterwards: what is checked, in which
//! order, and what is then recorded.
use vstd::prelude::*;

use crate::json::{Json, JsonView};
use crate::registry::evidence::{evidence_fault, Evidence};
use crate::registry::groups::{
    email,
    is_placeholder,
    normalize_email,
    placeholder,
    resolution,
    GroupAllowlist,
    GroupView,
    RegistrationPolicy,
};
use crate::registry::workflow::{NewRequest, State, WorkflowRequest, WEEK_SECS};
use crate::registry::{
    classification_names,
    classifications,
    data_class_names,
    data_classes,
    Registration,
    RegistryError,
    RegistryFault,
};
use crate::text::{
    chars_of, contents, decimal, digit, join, joined, list_contains, padded4, padded4_text,
    repeated, text_between, text_eq, texts, trim, trimmed,
};
use crate::usd::Usd;

verus! {

/// What a caller supplies to register a project. The id is not among it.
#[derive(Debug)]
pub struct RegisterInput {
    pub name: String,
    pub owner_email: String,
    pub manager_email: String,
    pub group: String,
    pub classification: Option<String>,
    pub data_class: Option<String>,
    pub budget_usd: Option<Usd>,
    pub description: Option<String>,
    pub evidence: Evidence,
}

/// What a registration records once its input has been admitted.
#[derive(Debug)]
pub struct NewRegistration {
    pub name: String,
    pub description: String,
    pub owner: String,
    pub manager: String,
    pub group: String,
    pub cost_center: String,
    pub classification: String,
    pub data_class: String,
    pub budget_usd: Usd,
}

/// What an admitted registration says.
pub struct Admitted {
    pub name: Seq<char>,
    pub description: Seq<char>,
    pub owner: Seq<char>,
    pub manager: Seq<char>,
    pub group: Seq<char>,
    pub cost_center: Seq<char>,
    pub classification: Seq<char>,
    pub data_class: Seq<char>,
    pub budget_bits: u64,
}

impl View for NewRegistration {
    type V = Admitted;

    open spec fn view(&self) -> Admitted {
        Admitted {
            name: self.name@,
            description: self.description@,
            owner: self.owner@,
            manager: self.manager@,
            group: self.group@,
            cost_center: self.cost_center@,
            classification: self.classification@,
            data_class: self.data_class@,
            budget_bits: self.budget_usd.bits,
        }
    }
}

/// The name a project is registered under.
pub open spec fn admitted_name(raw: Seq<char>) -> Result<Seq<char>, RegistryFault> {
    let name = trimmed(raw);
    if name.len() == 0 || placeholder(name) {
        Err(
            RegistryFault::Validation(
                "project name is required and must not be a template placeholder"@,
            ),
        )
    } else {
        Ok(name)
    }
}

/// The manager of a project: the owner where none is given and none is required.
pub open spec fn admitted_manager(raw: Seq<char>, owner: Seq<char>, required: bool) -> Result<
    Seq<char>,
    RegistryFault,
> {
    if trimmed(raw).len() == 0 {
        if required {
            Err(RegistryFault::Validation("manager_email is required"@))
        } else {
            Ok(owner)
        }
    } else {
        email(trimmed(raw))
    }
}

/// The group of a project: none where none is given and none is required.
pub open spec fn admitted_group(
    raw: Seq<char>,
    allowed: Seq<GroupView>,
    required: bool,
) -> Result<GroupView, RegistryFault> {
    if trimmed(raw).len() == 0 {
        if required {
            Err(RegistryFault::Validation("group is required"@))
        } else {
            Ok(
                GroupView {
                    key: Seq::empty(),
                    display_name: Seq::empty(),
                    cost_center: Seq::empty(),
                    active: true,
                },
            )
        }
    } else {
        resolution(allowed, trimmed(raw))
    }
}

/// A supplied value without its surrounding white space, or the default for a
/// missing or blank one.
pub open spec fn given_or(value: Option<Seq<char>>, default: Seq<char>) -> Seq<char> {
    match value {
        Some(s) => if trimmed(s).len() == 0 {
            default
        } else {
            trimmed(s)
        },
        None => default,
    }
}

/// One of a list of names, or the error that lists them.
pub open spec fn one_of(value: Seq<char>, field: Seq<char>, allowed: Seq<Seq<char>>) -> Result<
    Seq<char>,
    RegistryFault,
> {
    if allowed.contains(value) {
        Ok(value)
    } else {
        Err(RegistryFault::Validation(field + " must be one of: "@ + joined(allowed, ", "@)))
    }
}

/// The budget asked for; zero without one.
pub open spec fn budget_bits(budget: Option<Usd>) -> u64 {
    match budget {
        Some(b) => b.bits,
        None => 0,
    }
}

/// What a registration with this input comes to: the record, or the first
/// objection in the order name, owner, manager, group, classification, data
/// class, budget, evidence.
pub open spec fn admission(
    input: RegisterInput,
    policy: RegistrationPolicy,
    allowed: Seq<GroupView>,
) -> Result<Admitted, RegistryFault> {
    let name = admitted_name(input.name@);
    let owner = email(input.owner_email@);
    let manager = admitted_manager(
        input.manager_email@,
        owner->Ok_0,
        policy.require_manager,
    );
    let group = admitted_group(input.group@, allowed, policy.require_group);
    let classification = one_of(
        given_or(contents(input.classification), "poc"@),
        "classification"@,
        classification_names(),
    );
    let data_class = one_of(
        given_or(contents(input.data_class), "internal"@),
        "data_class"@,
        data_class_names(),
    );
    let budget = Usd { bits: budget_bits(input.budget_usd) };
    if name is Err {
        Err(name->Err_0)
    } else if owner is Err {
        Err(owner->Err_0)
    } else if manager is Err {
        Err(manager->Err_0)
    } else if group is Err {
        Err(group->Err_0)
    } else if classification is Err {
        Err(classification->Err_0)
    } else if data_class is Err {
        Err(data_class->Err_0)
    } else if budget.negative() {
        Err(RegistryFault::Validation("budget_usd must be >= 0"@))
    } else if evidence_fault(input.evidence) is Some {
        Err(evidence_fault(input.evidence)->0)
    } else {
        Ok(
            Admitted {
                name: name->Ok_0,
                description: match contents(input.description) {
                    Some(d) => d,
                    None => Seq::empty(),
                },
                owner: owner->Ok_0,
                manager: manager->Ok_0,
                group: group->Ok_0.key,
                cost_center: group->Ok_0.charged_to(),
                classification: classification->Ok_0,
                data_class: data_class->Ok_0,
                budget_bits: budget.bits,
            },
        )
    }
}

fn trimmed_or(value: &Option<String>, default: &str) -> (r: String)
    ensures
        r@ == given_or(contents(*value), default@),
{
    match value {
        Some(s) => {
            let t = trim(s.as_str());
            if t.as_str().is_empty() {
                default.to_owned()
            } else {
                t
            }
        },
        None => default.to_owned(),
    }
}

fn must_be_one_of(value: String, field: &str, allowed: &Vec<String>) -> (r: Result<
    String,
    RegistryError,
>)
    ensures
        match r {
            Ok(v) => one_of(value@, field@, texts(allowed@)) == Ok::<Seq<char>, RegistryFault>(v@),
            Err(e) => one_of(value@, field@, texts(allowed@)) == Err::<Seq<char>, RegistryFault>(
                e@,
            ),
        },
{
    if list_contains(allowed, value.as_str()) {
        Ok(value)
    } else {
        let mut m = field.to_owned();
        m.append(" must be one of: ");
        let list = join(allowed, ", ");
        m.append(list.as_str());
        Err(RegistryError::Validation(m))
    }
}

/// The group and the cost center a registration charges.
fn group_and_cost_center(
    raw: &str,
    policy: &RegistrationPolicy,
    allowlist: &GroupAllowlist,
) -> (r: Result<(String, String), RegistryError>)
    ensures
        match r {
            Ok(p) => {
                &&& admitted_group(raw@, allowlist@, policy.require_group) is Ok
                &&& p.0@ == admitted_group(raw@, allowlist@, policy.require_group)->Ok_0.key
                &&& p.1@ == admitted_group(
                    raw@,
                    allowlist@,
                    policy.require_group,
                )->Ok_0.charged_to()
            },
            Err(e) => admitted_group(raw@, allowlist@, policy.require_group) == Err::<
                GroupView,
                RegistryFault,
            >(e@),
        },
{
    let group_raw = trim(raw);
    if group_raw.as_str().is_empty() {
        if policy.require_group {
            return Err(RegistryError::validation("group is required"));
        }
        return Ok((String::new(), String::new()));
    }
    match allowlist.resolve(group_raw.as_str()) {
        Ok(e) => Ok((e.key.clone(), e.resolved_cost_center())),
        Err(e) => Err(e),
    }
}

/// Checks the input of a registration and returns what is to be recorded.
pub fn check_registration(
    input: &RegisterInput,
    policy: &RegistrationPolicy,
    allowlist: &GroupAllowlist,
) -> (r: Result<NewRegistration, RegistryError>)
    ensures
        match r {
            Ok(n) => admission(*input, *policy, allowlist@) == Ok::<Admitted, RegistryFault>(n@),
            Err(e) => admission(*input, *policy, allowlist@) == Err::<Admitted, RegistryFault>(e@),
        },
{
    let name = trim(input.name.as_str());
    if name.as_str().is_empty() || is_placeholder(name.as_str()) {
        return Err(
            RegistryError::validation(
                "project name is required and must not be a template placeholder",
            ),
        );
    }
    let owner = match normalize_email(input.owner_email.as_str()) {
        Ok(o) => o,
        Err(e) => {
            return Err(e);
        },
    };
    let manager_raw = trim(input.manager_email.as_str());
    let manager = if manager_raw.as_str().is_empty() {
        if policy.require_manager {
            return Err(RegistryError::validation("manager_email is required"));
        }
        owner.clone()
    } else {
        match normalize_email(manager_raw.as_str()) {
            Ok(m) => m,
            Err(e) => {
                return Err(e);
            },
        }
    };
    let (group, cost_center) = match group_and_cost_center(
        input.group.as_str(),
        policy,
        allowlist,
    ) {
        Ok(g) => g,
        Err(e) => {
            return Err(e);
        },
    };
    let tiers = classifications();
    let classification = match must_be_one_of(
        trimmed_or(&input.classification, "poc"),
        "classification",
        &tiers,
    ) {
        Ok(c) => c,
        Err(e) => {
            return Err(e);
        },
    };
    let classes = data_classes();
    let data_class = match must_be_one_of(
        trimmed_or(&input.data_class, "internal"),
        "data_class",
        &classes,
    ) {
        Ok(c) => c,
        Err(e) => {
            return Err(e);
        },
    };
    let budget_usd = match &input.budget_usd {
        Some(b) => *b,
        None => Usd::zero(),
    };
    if budget_usd.is_negative() {
        return Err(RegistryError::validation("budget_usd must be >= 0"));
    }
    match input.evidence.validate() {
        Ok(_) => {},
        Err(e) => {
            return Err(e);
        },
    }
    let description = match &input.description {
        Some(d) => d.clone(),
        None => String::new(),
    };
    Ok(
        NewRegistration {
            name,
            description,
            owner,
            manager,
            group,
            cost_center,
            classification,
            data_class,
            budget_usd,
        },
    )
}

// ---------------------------------------------------------------------------
// Project ids
// ---------------------------------------------------------------------------

/// The id of the `n`-th project of a year.
pub open spec fn project_id_of(year: Seq<char>, n: nat) -> Seq<char> {
    "proj-"@ + year + "-"@ + padded4(n)
}

/// The counter that numbers the projects of a year.
pub open spec fn counter_scope_of(year: Seq<char>) -> Seq<char> {
    "project-"@ + year
}

/// The year a timestamp begins with.
pub fn year_of(now: &str) -> (r: String)
    requires
        now@.len() >= 4,
    ensures
        r@ == now@.subrange(0, 4),
{
    let cs = chars_of(now);
    text_between(&cs, 0, 4)
}

/// The name of the counter that numbers the projects of a year.
pub fn counter_scope(year: &str) -> (r: String)
    ensures
        r@ == counter_scope_of(year@),
{
    let mut s = "project-".to_owned();
    s.append(year);
    s
}

/// The id of the project that took number `value` of its year.
pub fn mint_project_id(year: &str, value: u64) -> (r: String)
    ensures
        r@ == project_id_of(year@, value as nat),
{
    let mut s = "proj-".to_owned();
    s.append(year);
    s.append("-");
    let n = padded4_text(value);
    s.append(n.as_str());
    s
}

/// The number that a row of digits stands for.
pub open spec fn number_of(s: Seq<char>) -> int
    decreases s.len(),
{
    if s.len() == 0 {
        0
    } else {
        number_of(s.drop_last()) * 10 + (s.last() as int - 48)
    }
}

proof fn lemma_number_of_decimal(n: nat)
    ensures
        number_of(decimal(n)) == n,
        decimal(n).len() > 0,
    decreases n,
{
    reveal_with_fuel(number_of, 2);
    if n < 10 {
        assert(seq![digit(n as int)].drop_last() =~= Seq::<char>::empty());
    } else {
        lemma_number_of_decimal(n / 10);
        let s = decimal(n / 10).push(digit((n % 10) as int));
        assert(s.drop_last() =~= decimal(n / 10));
    }
}

proof fn lemma_number_of_padded(zeros: int, s: Seq<char>)
    ensures
        number_of(repeated('0', zeros) + s) == number_of(s),
    decreases s.len(), zeros,
{
    let t = repeated('0', zeros) + s;
    if s.len() > 0 {
        assert(t.drop_last() =~= repeated('0', zeros) + s.drop_last());
        assert(t.last() == s.last());
        lemma_number_of_padded(zeros, s.drop_last());
    } else if zeros > 0 {
        assert(t.drop_last() =~= repeated('0', zeros - 1) + s);
        lemma_number_of_padded(zeros - 1, s);
        assert(t.last() == '0');
    }
}

/// The year and the number are read back from an id.
pub proof fn law_project_ids_tell_year_and_number(x: Seq<char>, a: nat, y: Seq<char>, b: nat)
    requires
        x.len() == 4,
        y.len() == 4,
        project_id_of(x, a) == project_id_of(y, b),
    ensures
        x == y,
        a == b,
{
    reveal_strlit("proj-");
    let p = project_id_of(x, a);
    let q = project_id_of(y, b);
    assert(p.subrange(5, 9) =~= x);
    assert(q.subrange(5, 9) =~= y);
    law_project_ids_are_distinct(x, a, b);
}

/// Two projects of one year share an id only if they share a number: an id is
/// never given out twice.
pub proof fn law_project_ids_are_distinct(year: Seq<char>, a: nat, b: nat)
    requires
        project_id_of(year, a) == project_id_of(year, b),
    ensures
        a == b,
{
    let head = "proj-"@ + year + "-"@;
    let x = project_id_of(year, a);
    let y = project_id_of(year, b);
    assert(x.subrange(head.len() as int, x.len() as int) =~= padded4(a));
    assert(y.subrange(head.len() as int, y.len() as int) =~= padded4(b));
    lemma_number_of_decimal(a);
    lemma_number_of_decimal(b);
    lemma_number_of_padded(4 - decimal(a).len(), decimal(a));
    lemma_number_of_padded(4 - decimal(b).len(), decimal(b));
}

// ---------------------------------------------------------------------------
// Admission to work
// ---------------------------------------------------------------------------

/// Why a project may not be worked on: it is unknown, not registered, or no
/// longer active.
pub open spec fn gate_fault(project_id: Seq<char>, found: Option<Registration>) -> Option<
    RegistryFault,
> {
    match found {
        None => Some(RegistryFault::NotRegistered(project_id)),
        Some(r) => if !r.registered {
            Some(RegistryFault::NotRegistered(project_id))
        } else if r.lifecycle@ != "active"@ {
            Some(RegistryFault::Inactive(project_id))
        } else {
            None
        },
    }
}

/// A project that was looked up.
pub open spec fn looked_up(found: Option<&Registration>) -> Option<Registration> {
    match found {
        Some(r) => Some(*r),
        None => None,
    }
}

/// Lets only a registered and active project through.
pub fn require_active<'a>(project_id: &str, found: Option<&'a Registration>) -> (r: Result<
    &'a Registration,
    RegistryError,
>)
    ensures
        match r {
            Ok(reg) => gate_fault(project_id@, looked_up(found)) is None && found == Some(reg),
            Err(e) => gate_fault(project_id@, looked_up(found)) == Some(e@),
        },
{
    match found {
        None => Err(RegistryError::NotRegistered(project_id.to_owned())),
        Some(reg) => {
            if !reg.registered {
                Err(RegistryError::NotRegistered(project_id.to_owned()))
            } else if !text_eq(reg.lifecycle.as_str(), "active") {
                Err(RegistryError::Inactive(project_id.to_owned()))
            } else {
                Ok(reg)
            }
        },
    }
}

/// Authority over a project: its owner, its manager, or anyone who sees all.
pub open spec fn authority(found: Option<Registration>, who: Seq<char>, see_all: bool) -> bool {
    see_all || (found matches Some(r) && (r.owner@ == who || r.manager@ == who))
}

/// Whether `email` has authority over a project.
pub fn is_authority(found: Option<&Registration>, email: &str, see_all: bool) -> (r: bool)
    ensures
        r == authority(looked_up(found), email@, see_all),
{
    if see_all {
        return true;
    }
    match found {
        Some(r) => text_eq(r.owner.as_str(), email) || text_eq(r.manager.as_str(), email),
        None => false,
    }
}

/// Replacing evidence asks for a known project and a valid record.
pub open spec fn evidence_update_fault(
    project_id: Seq<char>,
    known: bool,
    evidence: Evidence,
) -> Option<RegistryFault> {
    if !known {
        Some(RegistryFault::NotRegistered(project_id))
    } else {
        evidence_fault(evidence)
    }
}

/// Admits a new evidence record for a project.
pub fn check_evidence_update(project_id: &str, known: bool, evidence: &Evidence) -> (r: Result<
    (),
    RegistryError,
>)
    ensures
        match r {
            Ok(_) => evidence_update_fault(project_id@, known, *evidence) is None,
            Err(e) => evidence_update_fault(project_id@, known, *evidence) == Some(e@),
        },
{
    if !known {
        return Err(RegistryError::NotRegistered(project_id.to_owned()));
    }
    evidence.validate()
}

// ---------------------------------------------------------------------------
// Changing a project
// ---------------------------------------------------------------------------

/// The fields that change after registration; `None` leaves one as it is. The
/// project id is not among them.
#[derive(Debug)]
pub struct ProjectUpdate {
    pub name: Option<String>,
    pub description: Option<String>,
    pub budget_usd: Option<Usd>,
    pub owner_email: Option<String>,
    pub manager_email: Option<String>,
}

/// What becomes of a budget change.
#[derive(Debug)]
pub enum BudgetChange {
    Unchanged,
    Apply(Usd),
    Review(NewRequest),
}

/// A supplied text without surrounding white space; nothing for a missing or
/// blank one.
pub open spec fn supplied(value: Option<Seq<char>>) -> Option<Seq<char>> {
    match value {
        Some(s) => if trimmed(s).len() == 0 {
            None
        } else {
            Some(trimmed(s))
        },
        None => None,
    }
}

fn supplied_text(value: &Option<String>) -> (r: Option<String>)
    ensures
        contents(r) == supplied(contents(*value)),
{
    match value {
        Some(s) => {
            let t = trim(s.as_str());
            if t.as_str().is_empty() {
                None
            } else {
                Some(t)
            }
        },
        None => None,
    }
}

/// The name and description after an update; nothing when it touches neither.
pub open spec fn new_identity(reg: Registration, update: ProjectUpdate) -> Option<
    (Seq<char>, Seq<char>),
> {
    let name = supplied(contents(update.name));
    let desc = contents(update.description);
    if name is Some || desc is Some {
        Some(
            (
                match name {
                    Some(n) => n,
                    None => reg.name@,
                },
                match desc {
                    Some(d) => d,
                    None => reg.description@,
                },
            ),
        )
    } else {
        None
    }
}

/// The name and description to record, when an update touches either.
pub fn plan_identity(reg: &Registration, update: &ProjectUpdate) -> (r: Option<(String, String)>)
    ensures
        match r {
            Some(p) => new_identity(*reg, *update) == Some((p.0@, p.1@)),
            None => new_identity(*reg, *update) is None,
        },
{
    let name = supplied_text(&update.name);
    if name.is_none() && update.description.is_none() {
        return None;
    }
    let n = match name {
        Some(n) => n,
        None => reg.name.clone(),
    };
    let d = match &update.description {
        Some(d) => d.clone(),
        None => reg.description.clone(),
    };
    Some((n, d))
}

/// A budget that needs no human: no higher than today's, or within the ceiling.
pub open spec fn self_service(req: Usd, current: Usd, ceiling: Option<Usd>) -> bool {
    req.within(current) || (ceiling matches Some(c) && req.within(c))
}

/// The payload of a budget request.
pub open spec fn budget_payload(
    project_id: Seq<char>,
    requested: Seq<char>,
    current: Seq<char>,
) -> JsonView {
    JsonView::Object(
        Map::empty().insert("project_id"@, JsonView::Str(project_id)).insert(
            "requested_budget"@,
            JsonView::Str(requested),
        ).insert("current_budget"@, JsonView::Str(current)),
    )
}

/// Decides a budget change: applied at once up to the ceiling, sent to a human
/// above it, refused below zero. The two texts are the writings of the requested
/// and the current amount.
pub fn plan_budget(
    project_id: &str,
    current: Usd,
    requested: Option<Usd>,
    ceiling: Option<Usd>,
    actor: &str,
    requested_text: &str,
    current_text: &str,
) -> (r: Result<BudgetChange, RegistryError>)
    ensures
        match requested {
            None => r matches Ok(BudgetChange::Unchanged),
            Some(req) => if req.negative() {
                r matches Err(e) && e@ == RegistryFault::Validation("budget_usd must be >= 0"@)
            } else if self_service(req, current, ceiling) {
                r matches Ok(BudgetChange::Apply(a)) && a == req
            } else {
                r matches Ok(BudgetChange::Review(n)) && n.kind@ == "budget"@ && n.requester@
                    == actor@ && n.subject@ == "budget/"@ + project_id@ && n.payload@
                    == budget_payload(project_id@, requested_text@, current_text@)
                    && n.sla_seconds == Some(604800i64)
            },
        },
        r is Err <==> (requested matches Some(b) && b.negative()),
        requested is None ==> r is Ok && r->Ok_0 is Unchanged,
        requested matches Some(b) ==> !b.negative() && (b.within(current) || (ceiling is Some
            && b.within(ceiling->0))) ==> r is Ok && r->Ok_0 is Apply,
        requested matches Some(b) ==> !b.negative() && !b.within(current) && !(ceiling is Some
            && b.within(ceiling->0)) ==> r is Ok && r->Ok_0 is Review,
{
    let req = match requested {
        None => {
            return Ok(BudgetChange::Unchanged);
        },
        Some(req) => req,
    };
    if req.is_negative() {
        return Err(RegistryError::validation("budget_usd must be >= 0"));
    }
    let under_ceiling = match &ceiling {
        Some(c) => req.is_within(c),
        None => false,
    };
    if req.is_within(&current) || under_ceiling {
        return Ok(BudgetChange::Apply(req));
    }
    let mut payload = Json::object();
    payload.insert_str("project_id", project_id);
    payload.insert_str("requested_budget", requested_text);
    payload.insert_str("current_budget", current_text);
    let mut subject = "budget/".to_owned();
    subject.append(project_id);
    Ok(
        BudgetChange::Review(
            NewRequest {
                kind: "budget".to_owned(),
                requester: actor.to_owned(),
                subject,
                payload,
                sla_seconds: Some(WEEK_SECS),
            },
        ),
    )
}

/// The address after an update of one relationship.
pub open spec fn new_party(given: Option<Seq<char>>, current: Seq<char>) -> Result<
    Seq<char>,
    RegistryFault,
> {
    match supplied(given) {
        Some(s) => email(s),
        None => Ok(current),
    }
}

/// Whether an update names a new owner or manager.
pub open spec fn transfers(update: ProjectUpdate) -> bool {
    supplied(contents(update.owner_email)) is Some || supplied(
        contents(update.manager_email),
    ) is Some
}

fn party(given: &Option<String>, current: &String) -> (r: Result<String, RegistryError>)
    ensures
        match r {
            Ok(p) => new_party(contents(*given), current@) == Ok::<Seq<char>, RegistryFault>(p@),
            Err(e) => new_party(contents(*given), current@) == Err::<Seq<char>, RegistryFault>(e@),
        },
{
    match supplied_text(given) {
        Some(s) => normalize_email(s.as_str()),
        None => Ok(current.clone()),
    }
}

/// The owner and manager to record, when an update names either.
pub fn plan_ownership(cur: &Registration, update: &ProjectUpdate) -> (r: Result<
    Option<(String, String)>,
    RegistryError,
>)
    ensures
        ({
            let owner = new_party(contents(update.owner_email), cur.owner@);
            let manager = new_party(contents(update.manager_email), cur.manager@);
            if !transfers(*update) {
                r matches Ok(None)
            } else if owner is Err {
                r matches Err(e) && e@ == owner->Err_0
            } else if manager is Err {
                r matches Err(e) && e@ == manager->Err_0
            } else {
                r matches Ok(Some(p)) && p.0@ == owner->Ok_0 && p.1@ == manager->Ok_0
            }
        }),
{
    let new_owner = supplied_text(&update.owner_email);
    let new_manager = supplied_text(&update.manager_email);
    if new_owner.is_none() && new_manager.is_none() {
        return Ok(None);
    }
    let owner = match party(&update.owner_email, &cur.owner) {
        Ok(o) => o,
        Err(e) => {
            return Err(e);
        },
    };
    match party(&update.manager_email, &cur.manager) {
        Ok(m) => Ok(Some((owner, m))),
        Err(e) => Err(e),
    }
}

/// The project and the writing of the amount that an approved budget request
/// applies.
pub open spec fn approved_budget(req: WorkflowRequest) -> Result<
    (Seq<char>, Seq<char>),
    RegistryFault,
> {
    if req.state != State::Approved {
        Err(
            RegistryFault::Validation(
                "request is "@ + crate::registry::workflow::state_name(req.state)
                    + ", must be approved before applying"@,
            ),
        )
    } else if req.payload@.text_at("project_id"@) is None {
        Err(RegistryFault::Validation("request has no project_id"@))
    } else if req.payload@.text_at("requested_budget"@) is None {
        Err(RegistryFault::Validation("request has no requested_budget"@))
    } else {
        Ok((req.payload@.text_at("project_id"@)->0, req.payload@.text_at("requested_budget"@)->0))
    }
}

/// What an approved budget request applies.
pub fn budget_to_apply(req: &WorkflowRequest) -> (r: Result<(String, String), RegistryError>)
    ensures
        match r {
            Ok(p) => approved_budget(*req) == Ok::<(Seq<char>, Seq<char>), RegistryFault>(
                (p.0@, p.1@),
            ),
            Err(e) => approved_budget(*req) == Err::<(Seq<char>, Seq<char>), RegistryFault>(e@),
        },
{
    match req.state {
        State::Approved => {},
        _ => {
            let mut m = "request is ".to_owned();
            m.append(req.state.as_str());
            m.append(", must be approved before applying");
            return Err(RegistryError::Validation(m));
        },
    }
    let project = match req.payload.get_str("project_id") {
        Some(p) => p.to_owned(),
        None => {
            return Err(RegistryError::validation("request has no project_id"));
        },
    };
    match req.payload.get_str("requested_budget") {
        Some(a) => Ok((project, a.to_owned())),
        None => Err(RegistryError::validation("request has no requested_budget")),
    }
}

/// Lowering a budget never needs a human, whatever the ceiling.
pub proof fn law_lowering_is_self_service(req: Usd, current: Usd, ceiling: Option<Usd>)
    requires
        req.less(current),
    ensures
        self_service(req, current, ceiling),
{
}

/// A raise above both the current budget and the ceiling is never applied
/// without a human.
pub proof fn law_raise_above_ceiling_is_reviewed(req: Usd, current: Usd, ceiling: Option<Usd>)
    requires
        current.less(req),
        ceiling matches Some(c) ==> c.less(req),
    ensures
        !self_service(req, current, ceiling),
{
}

proof fn lemma_class_names(s: Seq<char>)
    ensures
        classification_names().contains(s) <==> s == "poc"@ || s == "light-operational"@ || s
            == "wide-operational"@ || s == "critical-path"@,
        data_class_names().contains(s) <==> s == "public"@ || s == "internal"@ || s
            == "confidential"@ || s == "restricted"@,
{
    let a = classification_names();
    let b = data_class_names();
    assert(a[0] == "poc"@ && a[1] == "light-operational"@ && a[2] == "wide-operational"@ && a[3]
        == "critical-path"@);
    assert(b[0] == "public"@ && b[1] == "internal"@ && b[2] == "confidential"@ && b[3]
        == "restricted"@);
    assert(a.contains(a[0]) && a.contains(a[1]) && a.contains(a[2]) && a.contains(a[3]));
    assert(b.contains(b[0]) && b.contains(b[1]) && b.contains(b[2]) && b.contains(b[3]));
}

/// A registration is admitted exactly when it has a name that is no placeholder, an
/// address of the owner, one of the manager unless it is left out where none is required,
/// a group that resolves unless it is left out where none is required, a tier and a data
/// class that are known or left out, a budget that is not below zero and valid evidence.
pub proof fn law_what_is_admitted(
    input: RegisterInput,
    policy: RegistrationPolicy,
    allowed: Seq<GroupView>,
)
    ensures
        ({
            let tier = trimmed(match input.classification {
                Some(c) => c@,
                None => "poc"@,
            });
            let data = trimmed(match input.data_class {
                Some(d) => d@,
                None => "internal"@,
            });
            admission(input, policy, allowed) is Ok <==> {
                &&& trimmed(input.name@).len() > 0
                &&& !placeholder(trimmed(input.name@))
                &&& email(input.owner_email@) is Ok
                &&& if trimmed(input.manager_email@).len() == 0 {
                    !policy.require_manager
                } else {
                    email(trimmed(input.manager_email@)) is Ok
                }
                &&& if trimmed(input.group@).len() == 0 {
                    !policy.require_group
                } else {
                    resolution(allowed, trimmed(input.group@)) is Ok
                }
                &&& input.classification is None || tier.len() == 0 || tier == "poc"@ || tier
                    == "light-operational"@ || tier == "wide-operational"@ || tier
                    == "critical-path"@
                &&& input.data_class is None || data.len() == 0 || data == "public"@ || data
                    == "internal"@ || data == "confidential"@ || data == "restricted"@
                &&& input.budget_usd matches Some(b) ==> !b.negative()
                &&& evidence_fault(input.evidence) is None
            }
        }),
{
    lemma_class_names(given_or(contents(input.classification), "poc"@));
    lemma_class_names(given_or(contents(input.data_class), "internal"@));
}

/// What is recorded is what was given, without the white space around it: the manager is
/// the owner where none is given, the tier `poc` and the data class `internal` where none
/// is given, the budget zero where none is given; the cost center is the group's.
pub proof fn law_what_is_recorded(
    input: RegisterInput,
    policy: RegistrationPolicy,
    allowed: Seq<GroupView>,
)
    ensures
        admission(input, policy, allowed) matches Ok(a) ==> {
            &&& a.name == trimmed(input.name@)
            &&& input.description matches Some(d) ==> a.description == d@
            &&& input.description is None ==> a.description.len() == 0
            &&& email(input.owner_email@) == Ok::<Seq<char>, RegistryFault>(a.owner)
            &&& trimmed(input.manager_email@).len() == 0 ==> a.manager == a.owner
            &&& trimmed(input.manager_email@).len() > 0 ==> email(trimmed(input.manager_email@))
                == Ok::<Seq<char>, RegistryFault>(a.manager)
            &&& trimmed(input.group@).len() == 0 ==> a.group.len() == 0 && a.cost_center.len() == 0
            &&& trimmed(input.group@).len() > 0 ==> {
                let g = resolution(allowed, trimmed(input.group@))->Ok_0;
                &&& a.group == g.key
                &&& g.cost_center.len() > 0 ==> a.cost_center == g.cost_center
                &&& g.cost_center.len() == 0 ==> a.cost_center == g.key
            }
            &&& input.classification is None ==> a.classification == "poc"@
            &&& input.classification matches Some(c) ==> a.classification == (if trimmed(
                c@,
            ).len() == 0 {
                "poc"@
            } else {
                trimmed(c@)
            })
            &&& input.data_class is None ==> a.data_class == "internal"@
            &&& input.data_class matches Some(d) ==> a.data_class == (if trimmed(d@).len() == 0 {
                "internal"@
            } else {
                trimmed(d@)
            })
            &&& input.budget_usd matches Some(b) ==> a.budget_bits == b.bits
            &&& input.budget_usd is None ==> a.budget_bits == 0
        },
{
}

/// Only a registered project whose lifecycle is `active` is worked on; an unknown or
/// unregistered one is told apart from one that is no longer active.
pub proof fn law_only_active_projects_pass(project_id: Seq<char>, found: Option<Registration>)
    ensures
        gate_fault(project_id, found) is None <==> (found matches Some(r) && r.registered
            && r.lifecycle@ == "active"@),
        (found is None || !found->0.registered) ==> gate_fault(project_id, found) == Some(
            RegistryFault::NotRegistered(project_id),
        ),
        (found matches Some(r) && r.registered && r.lifecycle@ != "active"@) ==> gate_fault(
            project_id,
            found,
        ) == Some(RegistryFault::Inactive(project_id)),
{
}

/// Authority over a project is its owner's, its manager's and that of whoever sees all,
/// and nobody else's.
pub proof fn law_who_has_authority(reg: Registration, who: Seq<char>)
    ensures
        authority(Some(reg), who, false) <==> who == reg.owner@ || who == reg.manager@,
        authority(Some(reg), who, true),
        authority(None, who, true),
        !authority(None, who, false),
{
}

/// An update leaves a name that it does not give, or gives as a blank, as it was, and a
/// description that it does not give; a new owner or manager has to be an address.
pub proof fn law_update_takes_what_is_given(reg: Registration, update: ProjectUpdate)
    ensures
        ({
            let named = update.name matches Some(n) && trimmed(n@).len() > 0;
            let told = update.description is Some;
            &&& new_identity(reg, update) is Some <==> named || told
            &&& new_identity(reg, update) matches Some(p) ==> {
                &&& p.0 == (if named {
                    trimmed(update.name->0@)
                } else {
                    reg.name@
                })
                &&& p.1 == (if told {
                    update.description->0@
                } else {
                    reg.description@
                })
            }
            &&& transfers(update) <==> (update.owner_email matches Some(o) && trimmed(o@).len() > 0)
                || (update.manager_email matches Some(m) && trimmed(m@).len() > 0)
        }),
{
}

/// The party after an update is the address given for it, or as it was where none is.
pub proof fn law_party_after_an_update(given: Seq<char>, current: Seq<char>)
    ensures
        new_party(None, current) == Ok::<Seq<char>, RegistryFault>(current),
        trimmed(given).len() == 0 ==> new_party(Some(given), current) == Ok::<
            Seq<char>,
            RegistryFault,
        >(current),
        trimmed(given).len() > 0 ==> new_party(Some(given), current) == email(trimmed(given)),
{
}

/// A budget is set without a human exactly when it is no higher than today's or no higher
/// than the ceiling.
pub proof fn law_budgets_within_the_ceiling(req: Usd, current: Usd, ceiling: Option<Usd>)
    ensures
        self_service(req, current, ceiling) <==> {
            ||| req.within(current)
            ||| ceiling is Some && req.within(ceiling->0)
        },
        ceiling is None ==> (self_service(req, current, ceiling) <==> req.within(current)),
{
}

/// A budget is applied exactly when its request is approved and names a project and an
/// amount, and it is that project's and that amount.
pub proof fn law_only_approved_budgets_apply(req: WorkflowRequest)
    ensures
        approved_budget(req) is Ok <==> req.state == State::Approved && req.payload@.text_at(
            "project_id"@,
        ) is Some && req.payload@.text_at("requested_budget"@) is Some,
        approved_budget(req) matches Ok(p) ==> req.payload@.text_at("project_id"@) == Some(p.0)
            && req.payload@.text_at("requested_budget"@) == Some(p.1),
{
}

/// A request for a budget carries the project, the amount asked for and today's.
pub proof fn law_budget_request_says_both_amounts(
    project_id: Seq<char>,
    requested: Seq<char>,
    current: Seq<char>,
)
    ensures
        budget_payload(project_id, requested, current).text_at("project_id"@) == Some(project_id),
        budget_payload(project_id, requested, current).text_at("requested_budget"@) == Some(
            requested,
        ),
        budget_payload(project_id, requested, current).text_at("current_budget"@) == Some(current),
{
    reveal_strlit("project_id");
    reveal_strlit("requested_budget");
    reveal_strlit("current_budget");
    assert("project_id"@.len() == 10 && "requested_budget"@.len() == 16
        && "current_budget"@.len() == 14);
}

/// The id of a project is `proj-`, the year, a dash and its number with zeros in front up
/// to four digits; the numbers of a year are counted by themselves; and evidence is
/// replaced for a known project only.
pub proof fn law_how_ids_are_written(year: Seq<char>, n: nat, project_id: Seq<char>, e: Evidence)
    ensures
        project_id_of(year, n) == "proj-"@ + year + "-"@ + padded4(n),
        counter_scope_of(year) == "project-"@ + year,
        evidence_update_fault(project_id, false, e) == Some(
            RegistryFault::NotRegistered(project_id),
        ),
        evidence_update_fault(project_id, true, e) == evidence_fault(e),
{
}

} // verus!
