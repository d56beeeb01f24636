//! A project's resources taken as a whole: suspending, resuming and tearing them
//! down one by one, and linking infrastructure that is only watched.
use vstd::prelude::*;

use crate::json::{Json, JsonView};
use crate::provision::context::{context_for, put_tag, text_map, ResourceContext};
use crate::provision::repo::{ProvisionedRecord, ResourceRow};
use crate::provision::service::ProvisionService;
use crate::provision::{ProvisionError, ProvisionFault};
use crate::registry::Registration;
use crate::sorted_map::SortedMap;
use crate::text::{
    blank, lemma_take_more, lemma_trimmed_blank, text_eq, texts, trim, trimmed,
};
use crate::usd::Usd;

verus! {

// ---------------------------------------------------------------------------
// The cascades
// ---------------------------------------------------------------------------

/// A resource that a cascade could not act on, and why.
#[derive(Debug)]
pub struct LifecycleFailure {
    pub resource: String,
    pub error: String,
}

/// What a cascade did to a project's resources, by their names.
#[derive(Debug)]
pub struct LifecycleSummary {
    pub suspended: Vec<String>,
    pub resumed: Vec<String>,
    pub destroyed: Vec<String>,
    pub skipped: Vec<String>,
    pub failed: Vec<LifecycleFailure>,
}

/// A failure by its contents.
pub struct FailureView {
    pub resource: Seq<char>,
    pub error: Seq<char>,
}

/// A summary by its contents.
#[verifier::ext_equal]
pub struct SummaryView {
    pub suspended: Seq<Seq<char>>,
    pub resumed: Seq<Seq<char>>,
    pub destroyed: Seq<Seq<char>>,
    pub skipped: Seq<Seq<char>>,
    pub failed: Seq<FailureView>,
}

/// Failures by their contents.
pub open spec fn failures(s: Seq<LifecycleFailure>) -> Seq<FailureView> {
    Seq::new(
        s.len(),
        |i: int| FailureView { resource: s[i].resource@, error: s[i].error@ },
    )
}

impl View for LifecycleSummary {
    type V = SummaryView;

    open spec fn view(&self) -> SummaryView {
        SummaryView {
            suspended: texts(self.suspended@),
            resumed: texts(self.resumed@),
            destroyed: texts(self.destroyed@),
            skipped: texts(self.skipped@),
            failed: failures(self.failed@),
        }
    }
}

impl SummaryView {
    /// A summary of nothing.
    pub open spec fn empty() -> SummaryView {
        SummaryView {
            suspended: Seq::empty(),
            resumed: Seq::empty(),
            destroyed: Seq::empty(),
            skipped: Seq::empty(),
            failed: Seq::empty(),
        }
    }

    /// The number of resources it accounts for.
    pub open spec fn total(self) -> nat {
        self.suspended.len() + self.resumed.len() + self.destroyed.len() + self.skipped.len()
            + self.failed.len()
    }
}

impl Default for LifecycleSummary {
    fn default() -> (r: LifecycleSummary)
        ensures
            r@ == SummaryView::empty(),
    {
        let r = LifecycleSummary {
            suspended: Vec::new(),
            resumed: Vec::new(),
            destroyed: Vec::new(),
            skipped: Vec::new(),
            failed: Vec::new(),
        };
        assert(r@ =~= SummaryView::empty());
        r
    }
}

/// What a cascade does to each resource.
#[derive(Debug, Clone, Copy, PartialEq, Eq, Structural)]
pub enum Cascade {
    /// Halts the charges, so that they can be taken up again.
    Suspend,
    /// Takes suspended resources up again.
    Resume,
    /// Tears everything down.
    Destroy,
}

/// Whether a cascade calls on the connector of a resource in a state.
pub open spec fn touches(c: Cascade, state: Seq<char>) -> bool {
    match c {
        Cascade::Suspend => state == "provisioned"@,
        Cascade::Resume => state == "suspended"@,
        Cascade::Destroy => state != "destroyed"@ && state != "linked"@,
    }
}

/// The state of a resource while its connector is called on.
pub open spec fn passing_state(c: Cascade) -> Seq<char> {
    match c {
        Cascade::Suspend => "suspending"@,
        Cascade::Resume => "resuming"@,
        Cascade::Destroy => "destroying"@,
    }
}

/// The state of a resource once its connector has answered: done (and for a
/// suspension whether there was anything to stop), or an error.
pub open spec fn resting_state(c: Cascade, prior: Seq<char>, done: Option<bool>) -> Seq<char> {
    match (c, done) {
        (Cascade::Suspend, Some(true)) => "suspended"@,
        (Cascade::Suspend, _) => "provisioned"@,
        (Cascade::Resume, Some(_)) => "provisioned"@,
        (Cascade::Resume, None) => "suspended"@,
        (Cascade::Destroy, Some(_)) => "destroyed"@,
        (Cascade::Destroy, None) => prior,
    }
}

/// A summary with one more resource accounted for.
pub open spec fn accounted(
    c: Cascade,
    s: SummaryView,
    name: Seq<char>,
    outcome: Result<bool, Seq<char>>,
) -> SummaryView {
    match outcome {
        Ok(stopped) => match c {
            Cascade::Suspend => if stopped {
                SummaryView { suspended: s.suspended.push(name), ..s }
            } else {
                SummaryView { skipped: s.skipped.push(name), ..s }
            },
            Cascade::Resume => SummaryView { resumed: s.resumed.push(name), ..s },
            Cascade::Destroy => SummaryView { destroyed: s.destroyed.push(name), ..s },
        },
        Err(e) => SummaryView {
            failed: s.failed.push(FailureView { resource: name, error: e }),
            ..s
        },
    }
}

/// An outcome by its contents.
pub open spec fn outcome_view(o: Result<bool, String>) -> Result<bool, Seq<char>> {
    match o {
        Ok(b) => Ok(b),
        Err(e) => Err(e@),
    }
}

/// Whether an outcome is good, and what it says then.
pub open spec fn good(o: Result<bool, Seq<char>>) -> Option<bool> {
    match o {
        Ok(b) => Some(b),
        Err(_) => None,
    }
}

fn push_name(list: &mut Vec<String>, name: &str)
    ensures
        texts(final(list)@) == texts(old(list)@).push(name@),
{
    let ghost prev = texts(list@);
    list.push(name.to_owned());
    assert(texts(list@) =~= prev.push(name@));
}

/// Takes a resource into a cascade: says whether its connector is to be called
/// on, and marks it so. A resource that was only linked is let go in a teardown
/// without a call; any other stays as it is.
pub fn cascade_begin(
    c: Cascade,
    row: &mut ResourceRow,
    summary: &mut LifecycleSummary,
    now: &str,
) -> (r: bool)
    ensures
        r == touches(c, old(row).rec.state@),
        ({
            let state = old(row).rec.state@;
            let unlinked = c == Cascade::Destroy && state == "linked"@;
            &&& r ==> final(row).rec.state@ == passing_state(c) && final(row).rec.updated_at@
                == now@
            &&& unlinked ==> final(row).rec.state@ == "destroyed"@ && final(row).rec.updated_at@
                == now@
            &&& !r && !unlinked ==> *final(row) == *old(row)
            &&& final(row).worker_owner == old(row).worker_owner
            &&& final(row).rec == (ProvisionedRecord {
                state: final(row).rec.state,
                updated_at: final(row).rec.updated_at,
                ..old(row).rec
            })
            &&& final(summary)@ == if unlinked {
                accounted(c, old(summary)@, old(row).rec.name@, Ok(true))
            } else {
                old(summary)@
            }
        }),
        c == Cascade::Suspend ==> (r <==> old(row).rec.state@ == "provisioned"@) && (r
            ==> final(row).rec.state@ == "suspending"@),
        c == Cascade::Resume ==> (r <==> old(row).rec.state@ == "suspended"@) && (r
            ==> final(row).rec.state@ == "resuming"@),
        c == Cascade::Destroy && old(row).rec.state@ == "destroyed"@ ==> !r && *final(row) == *old(row),
        c == Cascade::Destroy && old(row).rec.state@ == "linked"@ ==> !r && final(row).rec.state@
            == "destroyed"@ && final(summary)@.destroyed == old(summary)@.destroyed.push(
            old(row).rec.name@,
        ),
        c == Cascade::Destroy && old(row).rec.state@ != "destroyed"@ && old(row).rec.state@
            != "linked"@ ==> r && final(row).rec.state@ == "destroying"@,
{
    proof {
        reveal_strlit("provisioned");
        reveal_strlit("suspended");
        reveal_strlit("linked");
        reveal_strlit("destroyed");
        assert("destroyed"@.len() == 9);
        assert("provisioned"@.len() == 11 && "suspended"@.len() == 9 && "linked"@.len() == 6);
    }
    let state = row.rec.state.clone();
    match c {
        Cascade::Suspend => {
            if text_eq(state.as_str(), "provisioned") {
                row.mark_state("suspending", now);
                return true;
            }
        },
        Cascade::Resume => {
            if text_eq(state.as_str(), "suspended") {
                row.mark_state("resuming", now);
                return true;
            }
        },
        Cascade::Destroy => {
            if text_eq(state.as_str(), "linked") {
                push_name(&mut summary.destroyed, row.rec.name.as_str());
                row.mark_state("destroyed", now);
                return false;
            }
            if !text_eq(state.as_str(), "destroyed") {
                row.mark_state("destroying", now);
                return true;
            }
        },
    }
    false
}

/// Ends a resource's part in a cascade with what its connector answered; `prior`
/// is the state it was in before. A failure leaves it in that state.
pub fn cascade_end(
    c: Cascade,
    row: &mut ResourceRow,
    prior: &str,
    outcome: Result<bool, String>,
    summary: &mut LifecycleSummary,
    now: &str,
)
    ensures
        final(row).rec.state@ == resting_state(c, prior@, good(outcome_view(outcome))),
        final(row).rec.updated_at@ == now@,
        final(row).worker_owner == old(row).worker_owner,
        final(row).rec == (ProvisionedRecord {
            state: final(row).rec.state,
            updated_at: final(row).rec.updated_at,
            ..old(row).rec
        }),
        final(summary)@ == accounted(c, old(summary)@, old(row).rec.name@, outcome_view(outcome)),
        (match (c, outcome) {
            (Cascade::Suspend, Ok(true)) => final(row).rec.state@ == "suspended"@ && final(summary)@.suspended == old(summary)@.suspended.push(old(row).rec.name@),
            (Cascade::Suspend, Ok(false)) => final(row).rec.state@ == "provisioned"@ && final(summary)@.skipped == old(summary)@.skipped.push(old(row).rec.name@),
            (Cascade::Resume, Ok(_)) => final(row).rec.state@ == "provisioned"@ && final(summary)@.resumed == old(summary)@.resumed.push(old(row).rec.name@),
            (Cascade::Destroy, Ok(_)) => final(row).rec.state@ == "destroyed"@ && final(summary)@.destroyed == old(summary)@.destroyed.push(old(row).rec.name@),
            (Cascade::Suspend, Err(e)) => final(row).rec.state@ == "provisioned"@,
            (Cascade::Resume, Err(e)) => final(row).rec.state@ == "suspended"@,
            (Cascade::Destroy, Err(e)) => final(row).rec.state@ == prior@,
        }),
        outcome matches Err(e) ==> final(summary)@.failed == old(summary)@.failed.push(
            FailureView { resource: old(row).rec.name@, error: e@ },
        ),
{
    let name = row.rec.name.clone();
    match outcome {
        Ok(stopped) => match c {
            Cascade::Suspend => {
                if stopped {
                    push_name(&mut summary.suspended, name.as_str());
                    row.mark_state("suspended", now);
                } else {
                    push_name(&mut summary.skipped, name.as_str());
                    row.mark_state("provisioned", now);
                }
            },
            Cascade::Resume => {
                push_name(&mut summary.resumed, name.as_str());
                row.mark_state("provisioned", now);
            },
            Cascade::Destroy => {
                push_name(&mut summary.destroyed, name.as_str());
                row.mark_state("destroyed", now);
            },
        },
        Err(e) => {
            let ghost prev = failures(summary.failed@);
            let ghost told = FailureView { resource: name@, error: e@ };
            summary.failed.push(LifecycleFailure { resource: name, error: e });
            assert(failures(summary.failed@) =~= prev.push(told));
            match c {
                Cascade::Suspend => row.mark_state("provisioned", now),
                Cascade::Resume => row.mark_state("suspended", now),
                Cascade::Destroy => row.mark_state(prior, now),
            }
        },
    }
}

/// A resource that a cascade takes in is accounted for exactly once, and one that
/// fails is back in the state it came from.
pub proof fn law_cascade_accounts_once(
    c: Cascade,
    s: SummaryView,
    name: Seq<char>,
    prior: Seq<char>,
    outcome: Result<bool, Seq<char>>,
)
    requires
        touches(c, prior),
    ensures
        accounted(c, s, name, outcome).total() == s.total() + 1,
        outcome is Err ==> resting_state(c, prior, good(outcome)) == prior,
{
}

/// What a suspension stopped, a resumption brings back: it takes in exactly the
/// suspended resources and leaves them live.
pub proof fn law_resume_undoes_suspend(prior: Seq<char>)
    requires
        touches(Cascade::Suspend, prior),
    ensures
        touches(Cascade::Resume, resting_state(Cascade::Suspend, prior, Some(true))),
        forall|done: bool|
            #[trigger] resting_state(
                Cascade::Resume,
                resting_state(Cascade::Suspend, prior, Some(true)),
                Some(done),
            ) == prior,
{
}

/// A teardown takes in every resource of a project, whatever state it is in: its
/// connector is called on, or, where it is only linked, it is let go at once. Where the
/// connectors succeed nothing is left but `destroyed`.
pub proof fn law_teardown_takes_everything(prior: Seq<char>, done: bool)
    ensures
        prior != "destroyed"@ && prior != "linked"@ ==> touches(Cascade::Destroy, prior)
            && passing_state(Cascade::Destroy) == "destroying"@,
        !touches(Cascade::Destroy, prior) ==> prior == "destroyed"@ || prior == "linked"@,
        resting_state(Cascade::Destroy, prior, Some(done)) == "destroyed"@,
        ({
            let after = if touches(Cascade::Destroy, prior) {
                resting_state(Cascade::Destroy, prior, Some(done))
            } else if prior == "linked"@ {
                "destroyed"@
            } else {
                prior
            };
            after == "destroyed"@
        }),
{
}

/// A suspension takes in exactly what is live and a resumption exactly what is suspended;
/// what had nothing to stop stays live.
pub proof fn law_suspend_and_resume_take_their_own(state: Seq<char>)
    ensures
        touches(Cascade::Suspend, state) <==> state == "provisioned"@,
        touches(Cascade::Resume, state) <==> state == "suspended"@,
        passing_state(Cascade::Suspend) == "suspending"@,
        passing_state(Cascade::Resume) == "resuming"@,
        resting_state(Cascade::Suspend, state, Some(true)) == "suspended"@,
        resting_state(Cascade::Suspend, state, Some(false)) == "provisioned"@,
        resting_state(Cascade::Suspend, state, None) == "provisioned"@,
        resting_state(Cascade::Resume, state, Some(true)) == "provisioned"@,
        resting_state(Cascade::Resume, state, Some(false)) == "provisioned"@,
        resting_state(Cascade::Resume, state, None) == "suspended"@,
{
}

/// A teardown leaves nothing behind that a second one would touch, but for what
/// failed.
pub proof fn law_teardown_is_final(prior: Seq<char>, done: bool)
    ensures
        !touches(Cascade::Destroy, resting_state(Cascade::Destroy, prior, Some(done))),
{
}

// ---------------------------------------------------------------------------
// Linked infrastructure
// ---------------------------------------------------------------------------

/// Why infrastructure is not linked: it has no name or no cost source.
pub open spec fn link_fault(name: Seq<char>, cost_source: Seq<char>) -> Option<ProvisionFault> {
    if blank(name) {
        Some(ProvisionFault::InvalidSpec("name is required"@))
    } else if blank(cost_source) {
        Some(
            ProvisionFault::InvalidSpec(
                "cost_source is required (e.g. aws-cost-explorer, databricks-billing, flat, none)"@,
            ),
        )
    } else {
        None
    }
}

/// The record of linked infrastructure: the project's, with its tags and the
/// caller's own over them, and a spec that names the cost source. The tag that
/// tells whose cost it is stays the project's id, whatever the caller's tags say.
pub open spec fn linked_record(
    reg: Registration,
    name: Seq<char>,
    cost_source: Seq<char>,
    est: Usd,
    extra: Map<Seq<char>, Seq<char>>,
    note: Seq<char>,
    id: Seq<char>,
    now: Seq<char>,
    rec: ProvisionedRecord,
) -> bool {
    &&& rec.id@ == id
    &&& rec.project_id@ == reg.project_id@
    &&& rec.rtype@ == "external"@
    &&& rec.name@ == trimmed(name)
    &&& rec.spec@ == JsonView::Object(
        Map::empty().insert("cost_source"@, JsonView::Str(trimmed(cost_source))).insert(
            "note"@,
            JsonView::Str(note),
        ),
    )
    &&& rec.outputs@ == JsonView::Object(Map::empty())
    &&& text_map(rec.tags@) == context_for(reg, ""@, ""@).tag_map().insert(
        "managed-by"@,
        "external"@,
    ).union_prefer_right(extra).insert("project"@, reg.project_id@)
    &&& text_map(rec.tags@)["project"@] == reg.project_id@
    &&& rec.est_monthly_usd == est
    &&& rec.state@ == "linked"@
    &&& rec.backend@ == "external"@
    &&& !rec.dry_run
    &&& rec.request_id is None
    &&& rec.created_at@ == now
    &&& rec.updated_at@ == now
    &&& rec.error@.len() == 0
    &&& rec.attempts == 0
    &&& rec.next_retry_at is None
}

/// Sets every tag of another set.
fn extend_tags(tags: &mut SortedMap<String>, extra: &SortedMap<String>)
    ensures
        text_map(final(tags)@) == text_map(old(tags)@).union_prefer_right(text_map(extra@)),
{
    let ghost base = text_map(tags@);
    let ks = extra.keys();
    let n: usize = ks.len();
    let mut i: usize = 0;
    while i < n
        invariant
            i <= n == ks@.len(),
            texts(ks@) == extra.names(),
            n == extra.names().len(),
            forall|k: Seq<char>| extra@.contains_key(k) <==> #[trigger] extra.names().contains(k),
            forall|k: Seq<char>|
                #[trigger] text_map(tags@).contains_key(k) <==> base.contains_key(k)
                    || extra.names().take(i as int).contains(k),
            forall|k: Seq<char>|
                #[trigger] text_map(tags@).contains_key(k) ==> text_map(tags@)[k]
                    == if extra.names().take(i as int).contains(k) {
                    text_map(extra@)[k]
                } else {
                    base[k]
                },
        decreases n - i,
    {
        let ghost before = text_map(tags@);
        let ghost names = extra.names();
        let key = extra.key_at(i);
        let value = extra.value_at(i);
        put_tag(tags, key, value.as_str());
        proof {
            assert(names.contains(key@));
            assert(text_map(extra@)[key@] == value@);
            lemma_take_more(names, i as int);
        }
        i = i + 1;
    }
    proof {
        let names = extra.names();
        assert(names.take(n as int) =~= names);
        let want = base.union_prefer_right(text_map(extra@));
        assert forall|k: Seq<char>| #[trigger] text_map(tags@).dom().contains(k) == want.dom().contains(
            k,
        ) by {
            assert(text_map(tags@).contains_key(k) == want.dom().contains(k)) by {
                assert(extra@.contains_key(k) == names.contains(k));
            }
        }
        assert forall|k: Seq<char>| #[trigger] text_map(tags@).dom().contains(k) implies text_map(
            tags@,
        )[k] == want[k] by {
            assert(text_map(tags@).contains_key(k));
            assert(extra@.contains_key(k) == names.contains(k));
        }
        assert(text_map(tags@) =~= want);
    }
}

impl ProvisionService {
    /// The record of infrastructure that a project's cost is to show and nobody
    /// manages.
    pub fn link_resource(
        reg: &Registration,
        name: &str,
        cost_source: &str,
        est_monthly_usd: Usd,
        extra_tags: &SortedMap<String>,
        note: &str,
        id: &str,
        now: &str,
    ) -> (r: Result<ProvisionedRecord, ProvisionError>)
        ensures
            match r {
                Ok(rec) => link_fault(name@, cost_source@) is None && linked_record(
                    *reg,
                    name@,
                    cost_source@,
                    est_monthly_usd,
                    text_map(extra_tags@),
                    note@,
                    id@,
                    now@,
                    rec,
                ),
                Err(e) => link_fault(name@, cost_source@) == Some(e@),
            },
            r is Ok <==> !blank(name@) && !blank(cost_source@),
            r matches Ok(rec) ==> rec.state@ == "linked"@ && rec.project_id@ == reg.project_id@
                && rec.est_monthly_usd == est_monthly_usd && rec.rtype@ == "external"@
                && text_map(rec.tags@)["project"@] == reg.project_id@,
            r matches Err(e) ==> e@ is InvalidSpec,
    {
        proof {
            lemma_trimmed_blank(name@);
            lemma_trimmed_blank(cost_source@);
        }
        let name = trim(name);
        if name.as_str().is_empty() {
            return Err(ProvisionError::invalid("name is required"));
        }
        let cost_source = trim(cost_source);
        if cost_source.as_str().is_empty() {
            return Err(
                ProvisionError::invalid(
                    "cost_source is required (e.g. aws-cost-explorer, databricks-billing, flat, none)",
                ),
            );
        }
        let ctx = ResourceContext::from_registration(reg, "", "");
        let mut tags = ctx.tags();
        put_tag(&mut tags, "managed-by", "external");
        extend_tags(&mut tags, extra_tags);
        put_tag(&mut tags, "project", reg.project_id.as_str());
        let mut spec = Json::object();
        spec.insert_str("cost_source", cost_source.as_str());
        spec.insert_str("note", note);
        Ok(
            ProvisionedRecord {
                id: id.to_owned(),
                project_id: reg.project_id.clone(),
                rtype: "external".to_owned(),
                name,
                spec,
                outputs: Json::object(),
                tags,
                est_monthly_usd,
                state: "linked".to_owned(),
                backend: "external".to_owned(),
                dry_run: false,
                request_id: None,
                created_at: now.to_owned(),
                updated_at: now.to_owned(),
                error: String::new(),
                attempts: 0,
                next_retry_at: None,
            },
        )
    }
}

/// Linked infrastructure is the project's own, of type `external`, under its trimmed name
/// and with its estimate; its spec names the cost source and the note, its tags are the
/// project's with the caller's over them, but for the project's id, and nothing is there
/// to be driven.
pub proof fn law_linked_infrastructure_is_the_projects(
    reg: Registration,
    name: Seq<char>,
    cost_source: Seq<char>,
    est: Usd,
    extra: Map<Seq<char>, Seq<char>>,
    note: Seq<char>,
    id: Seq<char>,
    now: Seq<char>,
    rec: ProvisionedRecord,
)
    requires
        linked_record(reg, name, cost_source, est, extra, note, id, now, rec),
    ensures
        rec.id@ == id,
        rec.project_id@ == reg.project_id@,
        rec.rtype@ == "external"@,
        rec.backend@ == "external"@,
        rec.name@ == trimmed(name),
        rec.spec@.text_at("cost_source"@) == Some(trimmed(cost_source)),
        rec.spec@.text_at("note"@) == Some(note),
        rec.est_monthly_usd == est,
        rec.state@ == "linked"@,
        !rec.dry_run,
        rec.request_id is None,
        rec.next_retry_at is None,
        rec.attempts == 0,
        rec.created_at@ == now,
        text_map(rec.tags@)["project"@] == reg.project_id@,
        forall|k: Seq<char>|
            extra.contains_key(k) && k != "project"@ ==> #[trigger] text_map(rec.tags@)[k]
                == extra[k],
        !extra.contains_key("managed-by"@) ==> text_map(rec.tags@)["managed-by"@] == "external"@,
{
    reveal_strlit("cost_source");
    reveal_strlit("note");
    assert("cost_source"@.len() == 11);
    assert("note"@.len() == 4);
    reveal_strlit("project");
    reveal_strlit("managed-by");
    assert("project"@.len() == 7);
    assert("managed-by"@.len() == 10);
}

} // verus!
