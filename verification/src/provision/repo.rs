//! Records of provisioned resources and the transitions of a recorded row: who
//! may work on it, how work ends, and when it is taken up again.
use vstd::prelude::*;

use crate::json::Json;
use crate::ordering::{
    arranged, at_most, keep_first, law_arranged_is_in_order, lemma_arranged, lemma_slot_found,
    numbers, orders, put_at,
};
use crate::sorted_map::SortedMap;
use crate::text::{
    before, contents, lemma_before_irreflexive, lemma_before_total, lemma_before_transitive,
    text_before, text_eq,
};
use crate::usd::Usd;

verus! {

/// A resource on record.
#[derive(Debug)]
pub struct ProvisionedRecord {
    pub id: String,
    pub project_id: String,
    pub rtype: String,
    pub name: String,
    pub spec: Json,
    pub outputs: Json,
    pub tags: SortedMap<String>,
    pub est_monthly_usd: Usd,
    pub state: String,
    pub backend: String,
    pub dry_run: bool,
    pub request_id: Option<String>,
    pub created_at: String,
    pub updated_at: String,
    /// Why the last attempt failed; blank otherwise.
    pub error: String,
    pub attempts: i64,
    /// When the next attempt is due; none once the attempts are used up.
    pub next_retry_at: Option<String>,
}

/// A record together with the worker that holds it.
#[derive(Debug)]
pub struct ResourceRow {
    pub rec: ProvisionedRecord,
    pub worker_owner: Option<String>,
}

/// A state in which a row waits for a worker.
pub open spec fn work_state(state: Seq<char>) -> bool {
    state == "provisioning"@ || state == "destroying"@
}

/// A state in which a row stands after a failed attempt.
pub open spec fn failed_state(state: Seq<char>) -> bool {
    state == "failed"@ || state == "destroy_failed"@
}

/// A state in which a resource counts as taken: in flight or live.
pub open spec fn active_state(state: Seq<char>) -> bool {
    state == "provisioning"@ || state == "provisioned"@
}

/// Whether a state is outstanding work.
pub fn is_work_state(state: &str) -> (r: bool)
    ensures
        r == work_state(state@),
{
    text_eq(state, "provisioning") || text_eq(state, "destroying")
}

/// Whether a state follows a failed attempt.
pub fn is_failed_state(state: &str) -> (r: bool)
    ensures
        r == failed_state(state@),
{
    text_eq(state, "failed") || text_eq(state, "destroy_failed")
}

/// A row that no live worker holds: nobody does, or the holder's last sign of
/// life is older than the cutoff.
pub open spec fn abandoned(row: ResourceRow, cutoff: Seq<char>) -> bool {
    row.worker_owner is None || before(row.rec.updated_at@, cutoff)
}

fn is_abandoned(row: &ResourceRow, cutoff: &str) -> (r: bool)
    ensures
        r == abandoned(*row, cutoff@),
{
    match &row.worker_owner {
        None => true,
        Some(_) => text_before(row.rec.updated_at.as_str(), cutoff),
    }
}

/// Whether a worker may take the row.
pub open spec fn claimable(row: ResourceRow, expect_state: Seq<char>, cutoff: Seq<char>) -> bool {
    row.rec.state@ == expect_state && abandoned(row, cutoff)
}

/// Two records that differ in nothing but the named fields of progress.
pub open spec fn same_resource(a: ProvisionedRecord, b: ProvisionedRecord) -> bool {
    &&& a.id == b.id
    &&& a.project_id == b.project_id
    &&& a.rtype == b.rtype
    &&& a.name == b.name
    &&& a.tags == b.tags
    &&& a.backend == b.backend
    &&& a.dry_run == b.dry_run
    &&& a.created_at == b.created_at
}

impl ResourceRow {
    /// Takes the row for a worker, if it is still in the expected state and no
    /// live worker holds it. Says whether the worker won it.
    pub fn claim(&mut self, expect_state: &str, owner: &str, cutoff: &str, now: &str) -> (r: bool)
        ensures
            r == claimable(*old(self), expect_state@, cutoff@),
            r <==> old(self).rec.state@ == expect_state@ && (old(self).worker_owner is None
                || before(old(self).rec.updated_at@, cutoff@)),
            !r ==> *final(self) == *old(self),
            r ==> {
                &&& contents(final(self).worker_owner) == Some(owner@)
                &&& final(self).rec.updated_at@ == now@
                &&& final(self).rec == (ProvisionedRecord {
                    updated_at: final(self).rec.updated_at,
                    ..old(self).rec
                })
            },
    {
        if !text_eq(self.rec.state.as_str(), expect_state) || !is_abandoned(self, cutoff) {
            return false;
        }
        self.worker_owner = Some(owner.to_owned());
        self.rec.updated_at = now.to_owned();
        true
    }

    /// Refreshes the holder's sign of life. Only the holder can.
    pub fn heartbeat(&mut self, owner: &str, now: &str)
        ensures
            if contents(old(self).worker_owner) == Some(owner@) {
                final(self).worker_owner == old(self).worker_owner && final(self).rec.updated_at@
                    == now@ && final(self).rec == (ProvisionedRecord {
                    updated_at: final(self).rec.updated_at,
                    ..old(self).rec
                })
            } else {
                *final(self) == *old(self)
            },
    {
        let holds = match &self.worker_owner {
            Some(o) => text_eq(o.as_str(), owner),
            None => false,
        };
        if holds {
            self.rec.updated_at = now.to_owned();
        }
    }

    /// Ends the work: the final state and outputs, nothing left of the failures,
    /// and the row released.
    pub fn finish(&mut self, state: &str, outputs: Json, now: &str)
        ensures
            final(self).worker_owner is None,
            final(self).rec.state@ == state@,
            final(self).rec.outputs == outputs,
            final(self).rec.error@.len() == 0,
            final(self).rec.attempts == 0,
            final(self).rec.next_retry_at is None,
            final(self).rec.updated_at@ == now@,
            same_resource(old(self).rec, final(self).rec),
            final(self).rec.spec == old(self).rec.spec,
            final(self).rec.est_monthly_usd == old(self).rec.est_monthly_usd,
            final(self).rec.request_id == old(self).rec.request_id,
    {
        self.worker_owner = None;
        self.rec.state = state.to_owned();
        self.rec.outputs = outputs;
        self.rec.error = String::new();
        self.rec.attempts = 0;
        self.rec.next_retry_at = None;
        self.rec.updated_at = now.to_owned();
    }

    /// Records a failed attempt and when the next one is due, and releases the
    /// row. The outputs stay as they were.
    pub fn mark_failed(
        &mut self,
        state: &str,
        error: &str,
        attempts: i64,
        next_retry_at: Option<String>,
        now: &str,
    )
        ensures
            final(self).worker_owner is None,
            final(self).rec.state@ == state@,
            final(self).rec.error@ == error@,
            final(self).rec.attempts == attempts,
            final(self).rec.next_retry_at == next_retry_at,
            final(self).rec.updated_at@ == now@,
            same_resource(old(self).rec, final(self).rec),
            final(self).rec.spec == old(self).rec.spec,
            final(self).rec.outputs == old(self).rec.outputs,
            final(self).rec.est_monthly_usd == old(self).rec.est_monthly_usd,
            final(self).rec.request_id == old(self).rec.request_id,
    {
        self.worker_owner = None;
        self.rec.state = state.to_owned();
        self.rec.error = error.to_owned();
        self.rec.attempts = attempts;
        self.rec.next_retry_at = next_retry_at;
        self.rec.updated_at = now.to_owned();
    }

    /// Sets the lifecycle state.
    pub fn mark_state(&mut self, state: &str, now: &str)
        ensures
            final(self).rec.state@ == state@,
            final(self).rec.updated_at@ == now@,
            final(self).worker_owner == old(self).worker_owner,
            final(self).rec == (ProvisionedRecord {
                state: final(self).rec.state,
                updated_at: final(self).rec.updated_at,
                ..old(self).rec
            }),
    {
        self.rec.state = state.to_owned();
        self.rec.updated_at = now.to_owned();
    }

    /// Returns a failed row to its work state for an attempt now; any other row
    /// stays as it is.
    pub fn reset_for_retry(&mut self, now: &str)
        ensures
            if failed_state(old(self).rec.state@) {
                &&& final(self).rec.state@ == if old(self).rec.state@ == "failed"@ {
                    "provisioning"@
                } else {
                    "destroying"@
                }
                &&& final(self).worker_owner is None
                &&& final(self).rec.next_retry_at is None
                &&& final(self).rec.updated_at@ == now@
                &&& final(self).rec == (ProvisionedRecord {
                    state: final(self).rec.state,
                    next_retry_at: final(self).rec.next_retry_at,
                    updated_at: final(self).rec.updated_at,
                    ..old(self).rec
                })
            } else {
                *final(self) == *old(self)
            },
            old(self).rec.state@ == "failed"@ ==> final(self).rec.state@ == "provisioning"@,
            old(self).rec.state@ == "destroy_failed"@ && old(self).rec.state@ != "failed"@
                ==> final(self).rec.state@ == "destroying"@,
            old(self).rec.state@ != "failed"@ && old(self).rec.state@ != "destroy_failed"@
                ==> *final(self) == *old(self),
    {
        if text_eq(self.rec.state.as_str(), "failed") {
            self.rec.state = "provisioning".to_owned();
        } else if text_eq(self.rec.state.as_str(), "destroy_failed") {
            self.rec.state = "destroying".to_owned();
        } else {
            return ;
        }
        self.worker_owner = None;
        self.rec.next_retry_at = None;
        self.rec.updated_at = now.to_owned();
    }

    /// Releases a row in a work state that no live worker holds. Says whether
    /// there was one to release.
    pub fn reclaim_stale(&mut self, cutoff: &str) -> (r: bool)
        ensures
            r == (work_state(old(self).rec.state@) && abandoned(*old(self), cutoff@)),
            r <==> (old(self).rec.state@ == "provisioning"@ || old(self).rec.state@
                == "destroying"@) && (old(self).worker_owner is None || before(
                old(self).rec.updated_at@,
                cutoff@,
            )),
            final(self).rec == old(self).rec,
            r ==> final(self).worker_owner is None,
            !r ==> *final(self) == *old(self),
    {
        if !is_work_state(self.rec.state.as_str()) || !is_abandoned(self, cutoff) {
            return false;
        }
        self.worker_owner = None;
        true
    }

    /// Arms a live row for an update in place: the new spec and estimate under
    /// the new request. The outputs stay as they were.
    pub fn update_for_reapply(&mut self, spec: Json, est: Usd, request_id: &str, now: &str)
        ensures
            final(self).worker_owner is None,
            final(self).rec.state@ == "provisioning"@,
            final(self).rec.spec == spec,
            final(self).rec.est_monthly_usd == est,
            contents(final(self).rec.request_id) == Some(request_id@),
            final(self).rec.error@.len() == 0,
            final(self).rec.attempts == 0,
            final(self).rec.next_retry_at is None,
            final(self).rec.updated_at@ == now@,
            same_resource(old(self).rec, final(self).rec),
            final(self).rec.outputs == old(self).rec.outputs,
    {
        self.worker_owner = None;
        self.rec.state = "provisioning".to_owned();
        self.rec.spec = spec;
        self.rec.est_monthly_usd = est;
        self.rec.request_id = Some(request_id.to_owned());
        self.rec.error = String::new();
        self.rec.attempts = 0;
        self.rec.next_retry_at = None;
        self.rec.updated_at = now.to_owned();
    }
}

/// A row that the reconciler drives again: outstanding work without a live
/// worker.
pub open spec fn reclaimable(row: ResourceRow, cutoff: Seq<char>) -> bool {
    work_state(row.rec.state@) && abandoned(row, cutoff)
}

/// A failed row whose next attempt is due and that no live worker holds. A row
/// without a next attempt never is.
pub open spec fn retryable(row: ResourceRow, now: Seq<char>, cutoff: Seq<char>) -> bool {
    &&& failed_state(row.rec.state@)
    &&& row.rec.next_retry_at matches Some(t) && !before(now, t@)
    &&& abandoned(row, cutoff)
}

/// Whether the reconciler drives a row again.
pub fn is_reclaimable(row: &ResourceRow, cutoff: &str) -> (r: bool)
    ensures
        r == reclaimable(*row, cutoff@),
{
    is_work_state(row.rec.state.as_str()) && is_abandoned(row, cutoff)
}

/// Whether the reconciler retries a failed row.
pub fn is_retryable(row: &ResourceRow, now: &str, cutoff: &str) -> (r: bool)
    ensures
        r == retryable(*row, now@, cutoff@),
{
    let due = match &row.rec.next_retry_at {
        Some(t) => !text_before(now, t.as_str()),
        None => false,
    };
    is_failed_state(row.rec.state.as_str()) && due && is_abandoned(row, cutoff)
}

/// Which rows are read.
#[derive(Debug)]
pub enum Selection<'a> {
    Reclaimable { cutoff: &'a str },
    Retryable { now: &'a str, cutoff: &'a str },
    OfProject { project_id: &'a str },
    OfRequest { request_id: &'a str },
    ActiveNamed { project_id: &'a str, rtype: &'a str, name: &'a str },
}

/// Which rows are read, by the contents of what they are asked for.
pub enum SelectionView {
    Reclaimable { cutoff: Seq<char> },
    Retryable { now: Seq<char>, cutoff: Seq<char> },
    OfProject { project_id: Seq<char> },
    OfRequest { request_id: Seq<char> },
    ActiveNamed { project_id: Seq<char>, rtype: Seq<char>, name: Seq<char> },
}

impl<'a> View for Selection<'a> {
    type V = SelectionView;

    open spec fn view(&self) -> SelectionView {
        match *self {
            Selection::Reclaimable { cutoff } => SelectionView::Reclaimable { cutoff: cutoff@ },
            Selection::Retryable { now, cutoff } => SelectionView::Retryable {
                now: now@,
                cutoff: cutoff@,
            },
            Selection::OfProject { project_id } => SelectionView::OfProject {
                project_id: project_id@,
            },
            Selection::OfRequest { request_id } => SelectionView::OfRequest {
                request_id: request_id@,
            },
            Selection::ActiveNamed { project_id, rtype, name } => SelectionView::ActiveNamed {
                project_id: project_id@,
                rtype: rtype@,
                name: name@,
            },
        }
    }
}

/// An active row of a name.
pub open spec fn active_named(
    row: ResourceRow,
    project_id: Seq<char>,
    rtype: Seq<char>,
    name: Seq<char>,
) -> bool {
    row.rec.project_id@ == project_id && row.rec.rtype@ == rtype && row.rec.name@ == name
        && active_state(row.rec.state@)
}

/// Whether a row is among those that are read.
pub open spec fn selects(sel: SelectionView, row: ResourceRow) -> bool {
    match sel {
        SelectionView::Reclaimable { cutoff } => reclaimable(row, cutoff),
        SelectionView::Retryable { now, cutoff } => retryable(row, now, cutoff),
        SelectionView::OfProject { project_id } => row.rec.project_id@ == project_id,
        SelectionView::OfRequest { request_id } => contents(row.rec.request_id) == Some(request_id),
        SelectionView::ActiveNamed { project_id, rtype, name } => active_named(
            row,
            project_id,
            rtype,
            name,
        ),
    }
}

fn is_selected(sel: &Selection, row: &ResourceRow) -> (r: bool)
    ensures
        r == selects(sel@, *row),
{
    match sel {
        Selection::Reclaimable { cutoff } => is_reclaimable(row, cutoff),
        Selection::Retryable { now, cutoff } => is_retryable(row, now, cutoff),
        Selection::OfProject { project_id } => text_eq(row.rec.project_id.as_str(), project_id),
        Selection::OfRequest { request_id } => match &row.rec.request_id {
            Some(id) => text_eq(id.as_str(), request_id),
            None => false,
        },
        Selection::ActiveNamed { project_id, rtype, name } => text_eq(
            row.rec.project_id.as_str(),
            project_id,
        ) && text_eq(row.rec.rtype.as_str(), rtype) && text_eq(row.rec.name.as_str(), name) && (
        text_eq(row.rec.state.as_str(), "provisioning") || text_eq(
            row.rec.state.as_str(),
            "provisioned",
        )),
    }
}

/// The places of the rows that are read.
pub open spec fn selected(rows: Seq<ResourceRow>, sel: SelectionView) -> Seq<int>
    decreases rows.len(),
{
    if rows.len() == 0 {
        Seq::empty()
    } else if selects(sel, rows.last()) {
        selected(rows.drop_last(), sel).push(rows.len() - 1)
    } else {
        selected(rows.drop_last(), sel)
    }
}

/// What is read is exactly what is asked for, and all of it.
pub proof fn lemma_read_rows(rows: Seq<ResourceRow>, sel: SelectionView, newest_first: bool)
    ensures
        forall|k: int| #[trigger]
            read_rows(rows, sel, newest_first).contains(k) <==> 0 <= k < rows.len() && selects(
                sel,
                rows[k],
            ),
{
    lemma_selected(rows, sel);
    lemma_arranged(selected(rows, sel), by_age(rows, newest_first));
    assert forall|k: int| #[trigger] read_rows(rows, sel, newest_first).contains(k) <==> 0 <= k
        < rows.len() && selects(sel, rows[k]) by {
        assert(selected(rows, sel).contains(k) <==> 0 <= k < rows.len() && selects(sel, rows[k]));
    }
}

proof fn lemma_selected(rows: Seq<ResourceRow>, sel: SelectionView)
    ensures
        forall|k: int| #[trigger]
            selected(rows, sel).contains(k) <==> 0 <= k < rows.len() && selects(sel, rows[k]),
    decreases rows.len(),
{
    if rows.len() > 0 {
        let n = rows.len() - 1;
        let t = rows.drop_last();
        let rest = selected(t, sel);
        let all = selected(rows, sel);
        lemma_selected(t, sel);
        assert forall|k: int| #[trigger] all.contains(k) <==> 0 <= k < rows.len() && selects(
            sel,
            rows[k],
        ) by {
            if all.contains(k) {
                let j = choose|j: int| 0 <= j < all.len() && all[j] == k;
                if j < rest.len() {
                    assert(rest[j] == k);
                    assert(rest.contains(k));
                    assert(t[k] == rows[k]);
                }
            }
            if 0 <= k < rows.len() && selects(sel, rows[k]) {
                if k < n {
                    assert(t[k] == rows[k]);
                    assert(rest.contains(k));
                    let j = choose|j: int| 0 <= j < rest.len() && rest[j] == k;
                    assert(all[j] == k);
                } else {
                    assert(all[all.len() - 1] == k);
                }
            }
        }
    }
}

/// The order of rows by their age, by their places.
pub open spec fn by_age(rows: Seq<ResourceRow>, newest_first: bool) -> spec_fn(int, int) -> bool {
    |a: int, b: int|
        if newest_first {
            before(rows[b].rec.created_at@, rows[a].rec.created_at@)
        } else {
            before(rows[a].rec.created_at@, rows[b].rec.created_at@)
        }
}

fn comes_first(a: &ResourceRow, b: &ResourceRow, newest_first: bool) -> (r: bool)
    ensures
        r == if newest_first {
            before(b.rec.created_at@, a.rec.created_at@)
        } else {
            before(a.rec.created_at@, b.rec.created_at@)
        },
{
    if newest_first {
        text_before(b.rec.created_at.as_str(), a.rec.created_at.as_str())
    } else {
        text_before(a.rec.created_at.as_str(), b.rec.created_at.as_str())
    }
}

/// The rows that are read, by their age.
pub open spec fn read_rows(
    rows: Seq<ResourceRow>,
    sel: SelectionView,
    newest_first: bool,
) -> Seq<int> {
    arranged(selected(rows, sel), by_age(rows, newest_first))
}

fn read(rows: &Vec<ResourceRow>, sel: &Selection, newest_first: bool) -> (r: Vec<usize>)
    ensures
        numbers(r@) == read_rows(rows@, sel@, newest_first),
        forall|k: int| 0 <= k < r@.len() ==> (#[trigger] r@[k]) < rows@.len(),
{
    let ghost less = by_age(rows@, newest_first);
    let mut order: Vec<usize> = Vec::new();
    let mut i: usize = 0;
    assert(rows@.take(0) =~= Seq::empty());
    assert(numbers(order@) =~= Seq::empty());
    while i < rows.len()
        invariant
            i <= rows@.len(),
            less == by_age(rows@, newest_first),
            numbers(order@) == arranged(selected(rows@.take(i as int), sel@), less),
            forall|k: int| 0 <= k < order@.len() ==> (#[trigger] order@[k]) < i,
        decreases rows.len() - i,
    {
        let ghost found = selected(rows@.take(i as int), sel@);
        assert(rows@.take(i + 1).drop_last() =~= rows@.take(i as int));
        if is_selected(sel, &rows[i]) {
            let mut at: usize = order.len();
            while at > 0 && comes_first(&rows[i], &rows[order[at - 1]], newest_first)
                invariant
                    at <= order@.len(),
                    i < rows@.len(),
                    less == by_age(rows@, newest_first),
                    forall|k: int| 0 <= k < order@.len() ==> (#[trigger] order@[k]) < i,
                    forall|k: int|
                        at <= k < order@.len() ==> less(i as int, #[trigger] numbers(order@)[k]),
                decreases at,
            {
                assert(numbers(order@)[at - 1] == order@[at - 1] as int);
                at = at - 1;
            }
            proof {
                if at > 0 {
                    assert(numbers(order@)[at - 1] == order@[at - 1] as int);
                }
                lemma_slot_found(numbers(order@), at as int, i as int, less);
                assert(found.push(i as int).drop_last() =~= found);
            }
            let ghost was = order@;
            put_at(&mut order, at, i);
            proof {
                assert forall|k: int| 0 <= k < order@.len() implies (#[trigger] order@[k])
                    < i + 1 by {
                    if k < at {
                        assert(order@[k] == was[k]);
                    } else if k > at {
                        assert(order@[k] == was[k - 1]);
                    }
                }
            }
        }
        i = i + 1;
    }
    assert(rows@.take(rows@.len() as int) =~= rows@);
    order
}

fn first_read(rows: &Vec<ResourceRow>, sel: &Selection, newest_first: bool) -> (r: Option<usize>)
    ensures
        match r {
            Some(k) => k < rows@.len() && read_rows(rows@, sel@, newest_first).len() > 0
                && read_rows(rows@, sel@, newest_first)[0] == k,
            None => read_rows(rows@, sel@, newest_first).len() == 0,
        },
{
    let order = read(rows, sel, newest_first);
    if order.len() == 0 {
        None
    } else {
        assert(numbers(order@)[0] == order@[0] as int);
        Some(order[0])
    }
}

/// The places of the rows that the reconciler drives again, the oldest first.
pub fn list_reclaimable(rows: &Vec<ResourceRow>, cutoff: &str, limit: usize) -> (r: Vec<usize>)
    ensures
        numbers(r@) == at_most(
            read_rows(rows@, SelectionView::Reclaimable { cutoff: cutoff@ }, false),
            limit as int,
        ),
        forall|k: int| 0 <= k < r@.len() ==> (#[trigger] r@[k]) < rows@.len(),
{
    keep_first(read(rows, &Selection::Reclaimable { cutoff }, false), limit)
}

/// The places of the failed rows that the reconciler retries, the oldest first.
pub fn list_retryable(rows: &Vec<ResourceRow>, now: &str, cutoff: &str, limit: usize) -> (r: Vec<
    usize,
>)
    ensures
        numbers(r@) == at_most(
            read_rows(rows@, SelectionView::Retryable { now: now@, cutoff: cutoff@ }, false),
            limit as int,
        ),
        forall|k: int| 0 <= k < r@.len() ==> (#[trigger] r@[k]) < rows@.len(),
{
    keep_first(read(rows, &Selection::Retryable { now, cutoff }, false), limit)
}

/// The places of a project's rows, the newest first.
pub fn list_by_project(rows: &Vec<ResourceRow>, project_id: &str) -> (r: Vec<usize>)
    ensures
        numbers(r@) == read_rows(rows@, SelectionView::OfProject { project_id: project_id@ }, true),
        forall|k: int| 0 <= k < r@.len() ==> (#[trigger] r@[k]) < rows@.len(),
{
    read(rows, &Selection::OfProject { project_id }, true)
}

/// The place of the row that was recorded for a request, the oldest of several.
pub fn get_by_request(rows: &Vec<ResourceRow>, request_id: &str) -> (r: Option<usize>)
    ensures
        ({
            let found = read_rows(rows@, SelectionView::OfRequest { request_id: request_id@ }, false);
            match r {
                Some(k) => k < rows@.len() && found.len() > 0 && found[0] == k,
                None => found.len() == 0,
            }
        }),
{
    first_read(rows, &Selection::OfRequest { request_id }, false)
}

/// The place of the active row of a name, the newest of several.
pub fn get_active_by_name(rows: &Vec<ResourceRow>, project_id: &str, rtype: &str, name: &str) -> (r:
    Option<usize>)
    ensures
        ({
            let found = read_rows(
                rows@,
                SelectionView::ActiveNamed {
                    project_id: project_id@,
                    rtype: rtype@,
                    name: name@,
                },
                true,
            );
            match r {
                Some(k) => k < rows@.len() && found.len() > 0 && found[0] == k,
                None => found.len() == 0,
            }
        }),
{
    first_read(rows, &Selection::ActiveNamed { project_id, rtype, name }, true)
}

/// The estimates of a project's resources that count: the live ones, and those
/// in flight too where the question is what is committed.
pub open spec fn counted_estimates(
    rows: Seq<ResourceRow>,
    project_id: Seq<char>,
    in_flight: bool,
) -> Seq<Usd>
    decreases rows.len(),
{
    if rows.len() == 0 {
        Seq::empty()
    } else {
        let rest = counted_estimates(rows.drop_last(), project_id, in_flight);
        let r = rows.last().rec;
        if r.project_id@ == project_id && (r.state@ == "provisioned"@ || (in_flight && r.state@
            == "provisioning"@)) {
            rest.push(r.est_monthly_usd)
        } else {
            rest
        }
    }
}

/// The estimates of a project's resources that count.
pub fn estimates_that_count(rows: &Vec<ResourceRow>, project_id: &str, in_flight: bool) -> (r: Vec<
    Usd,
>)
    ensures
        r@ == counted_estimates(rows@, project_id@, in_flight),
{
    let mut out: Vec<Usd> = Vec::new();
    let mut i: usize = 0;
    while i < rows.len()
        invariant
            i <= rows@.len(),
            out@ == counted_estimates(rows@.take(i as int), project_id@, in_flight),
        decreases rows.len() - i,
    {
        assert(rows@.take(i + 1).drop_last() =~= rows@.take(i as int));
        let r = &rows[i].rec;
        if text_eq(r.project_id.as_str(), project_id) && (text_eq(r.state.as_str(), "provisioned")
            || (in_flight && text_eq(r.state.as_str(), "provisioning"))) {
            out.push(r.est_monthly_usd);
        }
        i = i + 1;
    }
    assert(rows@.take(rows@.len() as int) =~= rows@);
    out
}

/// The cost source that a linked record names in its spec.
pub open spec fn linked_source_of(r: ProvisionedRecord) -> Option<Seq<char>> {
    if r.state@ == "linked"@ {
        r.spec@.text_at("cost_source"@)
    } else {
        None
    }
}

/// The cost source that a linked record names in its spec.
pub fn linked_source(r: &ProvisionedRecord) -> (s: Option<String>)
    ensures
        contents(s) == linked_source_of(*r),
{
    if !text_eq(r.state.as_str(), "linked") {
        return None;
    }
    match r.spec.get_str("cost_source") {
        Some(s) => Some(s.to_owned()),
        None => None,
    }
}

/// While a worker holds a row and gives signs of life, no other worker takes it.
pub proof fn law_claim_is_exclusive(
    claimed: ResourceRow,
    now: Seq<char>,
    expect_state: Seq<char>,
    cutoff: Seq<char>,
)
    requires
        claimed.worker_owner is Some,
        claimed.rec.updated_at@ == now,
        !before(now, cutoff),
    ensures
        !claimable(claimed, expect_state, cutoff),
        !reclaimable(claimed, cutoff),
{
}

/// A claim whose holder gave no sign of life since the cutoff can be taken over,
/// and so can one that was released.
pub proof fn law_stale_claim_is_reclaimable(row: ResourceRow, cutoff: Seq<char>)
    requires
        before(row.rec.updated_at@, cutoff) || row.worker_owner is None,
    ensures
        claimable(row, row.rec.state@, cutoff),
{
}

/// A failed row without a next attempt stays out of the retries for good.
pub proof fn law_capped_row_rests(row: ResourceRow, now: Seq<char>, cutoff: Seq<char>)
    requires
        row.rec.next_retry_at is None,
    ensures
        !retryable(row, now, cutoff),
{
}

/// What is committed includes what is live: every estimate that counts as live
/// counts as committed too, as often.
pub proof fn law_committed_covers_live(rows: Seq<ResourceRow>, project_id: Seq<char>, u: Usd)
    ensures
        counted_estimates(rows, project_id, false).to_multiset().count(u) <= counted_estimates(
            rows,
            project_id,
            true,
        ).to_multiset().count(u),
    decreases rows.len(),
{
    broadcast use vstd::seq_lib::group_to_multiset_ensures;

    if rows.len() > 0 {
        law_committed_covers_live(rows.drop_last(), project_id, u);
    }
}

/// A worker may take a row only in the state it expects, and only where nobody holds the
/// row or the holder's last sign of life is before the cutoff. The reconciler drives
/// `provisioning` and `destroying` rows that can be taken so, and retries `failed` and
/// `destroy_failed` ones whose time has come.
pub proof fn law_who_may_work_on_a_row(
    row: ResourceRow,
    state: Seq<char>,
    now: Seq<char>,
    cutoff: Seq<char>,
)
    ensures
        claimable(row, state, cutoff) <==> row.rec.state@ == state && (row.worker_owner is None
            || before(row.rec.updated_at@, cutoff)),
        reclaimable(row, cutoff) <==> (row.rec.state@ == "provisioning"@ || row.rec.state@
            == "destroying"@) && (row.worker_owner is None || before(row.rec.updated_at@, cutoff)),
        retryable(row, now, cutoff) <==> (row.rec.state@ == "failed"@ || row.rec.state@
            == "destroy_failed"@) && (row.rec.next_retry_at matches Some(t) && !before(now, t@))
            && (row.worker_owner is None || before(row.rec.updated_at@, cutoff)),
        work_state(state) <==> state == "provisioning"@ || state == "destroying"@,
        failed_state(state) <==> state == "failed"@ || state == "destroy_failed"@,
{
}

/// Each list has exactly the rows it is named for, from the oldest to the newest or the
/// other way round. A name is taken by a row that is in flight or live.
pub proof fn law_lists_have_their_rows(
    rows: Seq<ResourceRow>,
    newest_first: bool,
    project_id: Seq<char>,
    rtype: Seq<char>,
    name: Seq<char>,
    request_id: Seq<char>,
    sel: SelectionView,
)
    ensures
        forall|k: int| #[trigger]
            read_rows(rows, SelectionView::OfProject { project_id }, newest_first).contains(k)
                <==> 0 <= k < rows.len() && rows[k].rec.project_id@ == project_id,
        forall|k: int| #[trigger]
            read_rows(rows, SelectionView::OfRequest { request_id }, newest_first).contains(k)
                <==> 0 <= k < rows.len() && (rows[k].rec.request_id matches Some(r) && r@
                == request_id),
        forall|k: int| #[trigger]
            read_rows(
                rows,
                SelectionView::ActiveNamed { project_id, rtype, name },
                newest_first,
            ).contains(k) <==> 0 <= k < rows.len() && rows[k].rec.project_id@ == project_id
                && rows[k].rec.rtype@ == rtype && rows[k].rec.name@ == name && (
            rows[k].rec.state@ == "provisioning"@ || rows[k].rec.state@ == "provisioned"@),
        forall|i: int, j: int|
            0 <= i < j < read_rows(rows, sel, newest_first).len() ==> {
                let a = rows[#[trigger] read_rows(rows, sel, newest_first)[i]].rec.created_at@;
                let b = rows[#[trigger] read_rows(rows, sel, newest_first)[j]].rec.created_at@;
                &&& newest_first ==> !before(a, b)
                &&& !newest_first ==> !before(b, a)
            },
{
    lemma_read_rows(rows, SelectionView::OfProject { project_id }, newest_first);
    lemma_read_rows(rows, SelectionView::OfRequest { request_id }, newest_first);
    lemma_read_rows(rows, SelectionView::ActiveNamed { project_id, rtype, name }, newest_first);
    let places = selected(rows, sel);
    let less = by_age(rows, newest_first);
    assert(orders(places, less)) by {
        assert forall|a: int, b: int| #[trigger] less(a, b) implies !less(b, a) by {
            let (x, y) = (rows[a].rec.created_at@, rows[b].rec.created_at@);
            lemma_before_irreflexive(x);
            if before(x, y) && before(y, x) {
                lemma_before_transitive(x, y, x);
            }
        }
        assert forall|a: int, b: int, c: int|
            !(#[trigger] less(b, a)) && !(#[trigger] less(c, b)) implies !less(c, a) by {
            let (x, y, z) = (
                rows[a].rec.created_at@,
                rows[b].rec.created_at@,
                rows[c].rec.created_at@,
            );
            lemma_before_total(x, y);
            lemma_before_total(y, z);
            lemma_before_irreflexive(x);
            lemma_before_irreflexive(y);
            if before(x, y) && before(y, z) {
                lemma_before_transitive(x, y, z);
                if before(z, x) {
                    lemma_before_transitive(x, z, x);
                }
            }
            if before(z, y) && before(y, x) {
                lemma_before_transitive(z, y, x);
                if before(x, z) {
                    lemma_before_transitive(x, z, x);
                }
            }
        }
    }
    law_arranged_is_in_order(places, less);
    let shown = read_rows(rows, sel, newest_first);
    assert forall|i: int, j: int| 0 <= i < j < shown.len() implies !less(
        #[trigger] shown[j],
        #[trigger] shown[i],
    ) by {}
}

/// What a project has committed are the estimates of its `provisioned` resources, and
/// where work in flight counts those of its `provisioning` ones too, each once.
pub proof fn law_estimates_that_count(rows: Seq<ResourceRow>, project_id: Seq<char>)
    ensures
        counted_estimates(rows, project_id, false) == rows.filter(
            |r: ResourceRow| r.rec.project_id@ == project_id && r.rec.state@ == "provisioned"@,
        ).map_values(|r: ResourceRow| r.rec.est_monthly_usd),
        counted_estimates(rows, project_id, true) == rows.filter(
            |r: ResourceRow|
                r.rec.project_id@ == project_id && (r.rec.state@ == "provisioned"@ || r.rec.state@
                    == "provisioning"@),
        ).map_values(|r: ResourceRow| r.rec.est_monthly_usd),
    decreases rows.len(),
{
    reveal(Seq::filter);
    let f = |r: ResourceRow| r.rec.project_id@ == project_id && r.rec.state@ == "provisioned"@;
    let e = |r: ResourceRow|
        r.rec.project_id@ == project_id && (r.rec.state@ == "provisioned"@ || r.rec.state@
            == "provisioning"@);
    let g = |r: ResourceRow| r.rec.est_monthly_usd;
    if rows.len() > 0 {
        let t = rows.drop_last();
        law_estimates_that_count(t, project_id);
        let last = rows.last();
        assert(t.filter(f).push(last).map_values(g) =~= t.filter(f).map_values(g).push(g(last)));
        assert(t.filter(e).push(last).map_values(g) =~= t.filter(e).map_values(g).push(g(last)));
    }
    assert(counted_estimates(rows, project_id, false) =~= rows.filter(f).map_values(g));
    assert(counted_estimates(rows, project_id, true) =~= rows.filter(e).map_values(g));
}

/// Only linked infrastructure names its own cost source.
pub proof fn law_only_linked_names_a_source(r: ProvisionedRecord)
    ensures
        r.state@ == "linked"@ ==> linked_source_of(r) == r.spec@.text_at("cost_source"@),
        r.state@ != "linked"@ ==> linked_source_of(r) is None,
{
}

/// What becomes of a row never makes another resource of it: the id, the project, the
/// type, the name, the tags, the connector and the time of its making stay.
pub proof fn law_a_row_stays_its_resource(a: ProvisionedRecord, b: ProvisionedRecord)
    requires
        same_resource(a, b),
    ensures
        a.id == b.id,
        a.project_id == b.project_id,
        a.rtype == b.rtype,
        a.name == b.name,
        a.tags == b.tags,
        a.backend == b.backend,
        a.dry_run == b.dry_run,
        a.created_at == b.created_at,
{
}

} // verus!
