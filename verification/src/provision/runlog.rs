//! Run logs: the output of every connector run, kept sealed per resource.
use vstd::prelude::*;
use vstd::utf8::encode_utf8;

use crate::ordering::{
    arranged, in_order, law_arranged_is_in_order, lemma_arranged, lemma_slot_found, numbers, put_at,
};
use crate::provision::seal::{
    fresh_nonce, law_text_survives_its_bytes, open, opened, seal, sound, Sealed, SEAL_LIMIT,
};
use crate::provision::{ProvisionError, ProvisionFault};
use crate::text::{
    before, lemma_before_irreflexive, lemma_before_total, lemma_before_transitive, shown, text_before,
    text_eq, text_lossy,
};

verus! {

/// One connector run as it is told to a reader.
#[derive(Debug)]
pub struct RunLogEntry {
    pub id: String,
    pub action: String,
    pub ok: bool,
    pub output: String,
    pub started_at: String,
    pub finished_at: String,
}

/// A run by its contents.
pub struct RunView {
    pub id: Seq<char>,
    pub action: Seq<char>,
    pub ok: bool,
    pub output: Seq<char>,
    pub started_at: Seq<char>,
    pub finished_at: Seq<char>,
}

impl View for RunLogEntry {
    type V = RunView;

    open spec fn view(&self) -> RunView {
        RunView {
            id: self.id@,
            action: self.action@,
            ok: self.ok,
            output: self.output@,
            started_at: self.started_at@,
            finished_at: self.finished_at@,
        }
    }
}

/// One connector run as it is stored.
#[derive(Debug)]
pub struct RunRow {
    pub id: String,
    pub resource_id: String,
    pub project_id: String,
    pub action: String,
    pub ok: bool,
    pub sealed: Sealed,
    pub started_at: String,
    pub finished_at: String,
    pub created_at: String,
}

/// The run logs, sealed under one key.
#[derive(Debug)]
pub struct RunLogStore {
    pub key: [u8; 32],
    pub rows: Vec<RunRow>,
}

/// What a stored run says under a key.
pub open spec fn run_of(key: Seq<u8>, r: RunRow) -> Result<RunView, ProvisionFault> {
    match opened(key, r.sealed, "decrypt run log: "@) {
        Ok(plain) => Ok(
            RunView {
                id: r.id@,
                action: r.action@,
                ok: r.ok,
                output: shown(plain),
                started_at: r.started_at@,
                finished_at: r.finished_at@,
            },
        ),
        Err(f) => Err(f),
    }
}

/// Whether a run comes before another: it started earlier, or at the same time
/// and was recorded earlier.
pub open spec fn runs_before(a: RunRow, b: RunRow) -> bool {
    before(a.started_at@, b.started_at@) || (a.started_at@ == b.started_at@ && before(
        a.created_at@,
        b.created_at@,
    ))
}

/// The places of a resource's runs, as they were recorded.
pub open spec fn runs_of(rows: Seq<RunRow>, resource_id: Seq<char>) -> Seq<int>
    decreases rows.len(),
{
    if rows.len() == 0 {
        Seq::empty()
    } else {
        let rest = runs_of(rows.drop_last(), resource_id);
        if rows.last().resource_id@ == resource_id {
            rest.push(rows.len() - 1)
        } else {
            rest
        }
    }
}

/// The order of runs, by their places.
pub open spec fn by_age(rows: Seq<RunRow>) -> spec_fn(int, int) -> bool {
    |a: int, b: int| runs_before(rows[a], rows[b])
}

/// The places of a resource's runs, oldest first; of runs of one moment the one
/// recorded first.
pub open spec fn timeline(rows: Seq<RunRow>, resource_id: Seq<char>) -> Seq<int> {
    arranged(runs_of(rows, resource_id), by_age(rows))
}

fn is_before(a: &RunRow, b: &RunRow) -> (r: bool)
    ensures
        r == runs_before(*a, *b),
{
    text_before(a.started_at.as_str(), b.started_at.as_str()) || (text_eq(
        a.started_at.as_str(),
        b.started_at.as_str(),
    ) && text_before(a.created_at.as_str(), b.created_at.as_str()))
}

/// Runs by their contents.
pub open spec fn run_views(runs: Seq<RunLogEntry>) -> Seq<RunView> {
    Seq::new(runs.len(), |i: int| runs[i]@)
}

/// What the runs at some places say, or the first that cannot be opened.
pub open spec fn told(key: Seq<u8>, rows: Seq<RunRow>, places: Seq<int>) -> Result<
    Seq<RunView>,
    ProvisionFault,
>
    decreases places.len(),
{
    if places.len() == 0 {
        Ok(Seq::empty())
    } else {
        match told(key, rows, places.drop_last()) {
            Err(f) => Err(f),
            Ok(rest) => match run_of(key, rows[places.last()]) {
                Ok(v) => Ok(rest.push(v)),
                Err(f) => Err(f),
            },
        }
    }
}

proof fn lemma_told_fails(key: Seq<u8>, rows: Seq<RunRow>, places: Seq<int>, k: int)
    requires
        0 <= k <= places.len(),
        told(key, rows, places.take(k)) is Err,
    ensures
        told(key, rows, places) == told(key, rows, places.take(k)),
    decreases places.len() - k,
{
    if k == places.len() {
        assert(places.take(k) =~= places);
    } else {
        assert(places.take(k + 1).drop_last() =~= places.take(k));
        lemma_told_fails(key, rows, places, k + 1);
    }
}

impl RunLogStore {
    /// Every nonce is one.
    pub open spec fn wf(self) -> bool {
        forall|i: int| 0 <= i < self.rows@.len() ==> sound((#[trigger] self.rows@[i]).sealed)
    }

    /// A store without runs.
    pub fn new(key: [u8; 32]) -> (r: RunLogStore)
        ensures
            r.key == key,
            r.rows@.len() == 0,
            r.wf(),
    {
        RunLogStore { key, rows: Vec::new() }
    }

    /// Appends a run of a resource, which then reads back as it was told. Only an
    /// output beyond the limit of the seal is refused.
    pub fn append(
        &mut self,
        id: &str,
        resource_id: &str,
        project_id: &str,
        action: &str,
        ok: bool,
        output: &str,
        started_at: &str,
        finished_at: &str,
        now: &str,
    ) -> (r: Result<(), ProvisionError>)
        ensures
            old(self).wf() ==> final(self).wf(),
            final(self).key == old(self).key,
            match r {
                Ok(_) => {
                    let row = final(self).rows@.last();
                    &&& encode_utf8(output@).len() <= SEAL_LIMIT
                    &&& final(self).rows@.len() == old(self).rows@.len() + 1
                    &&& final(self).rows@.drop_last() == old(self).rows@
                    &&& row.resource_id@ == resource_id@
                    &&& row.project_id@ == project_id@
                    &&& row.created_at@ == now@
                    &&& row.started_at@ == started_at@
                    &&& run_of(old(self).key@, row) == Ok::<_, ProvisionFault>(
                        RunView {
                            id: id@,
                            action: action@,
                            ok,
                            output: output@,
                            started_at: started_at@,
                            finished_at: finished_at@,
                        },
                    )
                },
                Err(e) => encode_utf8(output@).len() > SEAL_LIMIT && e@ == ProvisionFault::Backend(
                    "encrypt run log: "@ + "aead::Error"@,
                ) && final(self).rows@ == old(self).rows@,
            },
    {
        let nonce = fresh_nonce();
        let sealed = match seal(&self.key, &nonce, output.as_bytes(), "encrypt run log: ") {
            Ok(s) => s,
            Err(e) => {
                return Err(e);
            },
        };
        let ghost was = self.rows@;
        let row = RunRow {
            id: id.to_owned(),
            resource_id: resource_id.to_owned(),
            project_id: project_id.to_owned(),
            action: action.to_owned(),
            ok,
            sealed,
            started_at: started_at.to_owned(),
            finished_at: finished_at.to_owned(),
            created_at: now.to_owned(),
        };
        assert(opened(self.key@, row.sealed, "decrypt run log: "@) == Ok::<_, ProvisionFault>(
            encode_utf8(output@),
        ));
        proof {
            law_text_survives_its_bytes(output@);
        }
        self.rows.push(row);
        assert(self.rows@.drop_last() =~= was);
        Ok(())
    }

    fn order_of(&self, resource_id: &str) -> (r: Vec<usize>)
        ensures
            numbers(r@) == timeline(self.rows@, resource_id@),
            forall|k: int| 0 <= k < r@.len() ==> (#[trigger] r@[k]) < self.rows@.len(),
    {
        let ghost less = by_age(self.rows@);
        let mut order: Vec<usize> = Vec::new();
        let mut i: usize = 0;
        assert(runs_of(self.rows@.take(0), resource_id@) =~= Seq::empty());
        assert(numbers(order@) =~= Seq::empty());
        while i < self.rows.len()
            invariant
                i <= self.rows@.len(),
                less == by_age(self.rows@),
                numbers(order@) == arranged(runs_of(self.rows@.take(i as int), resource_id@), less),
                forall|k: int| 0 <= k < order@.len() ==> (#[trigger] order@[k]) < i,
            decreases self.rows.len() - i,
        {
            let ghost found = runs_of(self.rows@.take(i as int), resource_id@);
            assert(self.rows@.take(i + 1).drop_last() =~= self.rows@.take(i as int));
            if text_eq(self.rows[i].resource_id.as_str(), resource_id) {
                let mut at: usize = order.len();
                while at > 0 && is_before(&self.rows[i], &self.rows[order[at - 1]])
                    invariant
                        at <= order@.len(),
                        i < self.rows@.len(),
                        less == by_age(self.rows@),
                        forall|k: int| 0 <= k < order@.len() ==> (#[trigger] order@[k]) < i,
                        forall|k: int|
                            at <= k < order@.len() ==> less(
                                i as int,
                                #[trigger] numbers(order@)[k],
                            ),
                    decreases at,
                {
                    assert(numbers(order@)[at - 1] == order@[at - 1] as int);
                    at = at - 1;
                }
                proof {
                    if at > 0 {
                        assert(numbers(order@)[at - 1] == order@[at - 1] as int);
                    }
                    lemma_slot_found(numbers(order@), at as int, i as int, less);
                    assert(found.push(i as int).drop_last() =~= found);
                }
                let ghost was = order@;
                put_at(&mut order, at, i);
                proof {
                    assert forall|k: int| 0 <= k < order@.len() implies (#[trigger] order@[k])
                        < i + 1 by {
                        if k < at {
                            assert(order@[k] == was[k]);
                        } else if k > at {
                            assert(order@[k] == was[k - 1]);
                        }
                    }
                }
            }
            i = i + 1;
        }
        assert(self.rows@.take(self.rows@.len() as int) =~= self.rows@);
        order
    }

    /// The runs of a resource, oldest first.
    pub fn list_for_resource(&self, resource_id: &str) -> (r: Result<
        Vec<RunLogEntry>,
        ProvisionError,
    >)
        requires
            self.wf(),
        ensures
            match r {
                Ok(v) => told(self.key@, self.rows@, timeline(self.rows@, resource_id@)) == Ok::<
                    _,
                    ProvisionFault,
                >(run_views(v@)),
                Err(e) => told(self.key@, self.rows@, timeline(self.rows@, resource_id@)) == Err::<
                    Seq<RunView>,
                    _,
                >(e@),
            },
    {
        let order = self.order_of(resource_id);
        let ghost places = timeline(self.rows@, resource_id@);
        let mut out: Vec<RunLogEntry> = Vec::new();
        let mut i: usize = 0;
        assert(places.take(0) =~= Seq::empty());
        assert(run_views(out@) =~= Seq::empty());
        while i < order.len()
            invariant
                i <= order@.len(),
                self.wf(),
                places == numbers(order@),
                forall|k: int| 0 <= k < order@.len() ==> (#[trigger] order@[k]) < self.rows@.len(),
                told(self.key@, self.rows@, places.take(i as int)) == Ok::<_, ProvisionFault>(
                    run_views(out@),
                ),
                places == timeline(self.rows@, resource_id@),
            decreases order.len() - i,
        {
            let row = &self.rows[order[i]];
            proof {
                assert(places.take(i + 1).drop_last() =~= places.take(i as int));
                assert(places.take(i + 1).last() == order@[i as int] as int);
            }
            let ghost prev = run_views(out@);
            match open(&self.key, &row.sealed, "decrypt run log: ") {
                Ok(plain) => {
                    let entry = RunLogEntry {
                        id: row.id.clone(),
                        action: row.action.clone(),
                        ok: row.ok,
                        output: text_lossy(&plain),
                        started_at: row.started_at.clone(),
                        finished_at: row.finished_at.clone(),
                    };
                    let ghost seen = entry@;
                    out.push(entry);
                    assert(run_views(out@) =~= prev.push(seen));
                },
                Err(e) => {
                    proof {
                        lemma_told_fails(self.key@, self.rows@, places, i + 1);
                    }
                    return Err(e);
                },
            }
            i = i + 1;
        }
        assert(places.take(order@.len() as int) =~= places);
        Ok(out)
    }
}

proof fn lemma_runs_of(rows: Seq<RunRow>, resource_id: Seq<char>)
    ensures
        forall|p: int| #[trigger]
            runs_of(rows, resource_id).contains(p) <==> 0 <= p < rows.len()
                && rows[p].resource_id@ == resource_id,
    decreases rows.len(),
{
    if rows.len() > 0 {
        let t = rows.drop_last();
        let rest = runs_of(t, resource_id);
        let all = runs_of(rows, resource_id);
        lemma_runs_of(t, resource_id);
        assert forall|p: int| #[trigger] all.contains(p) <==> 0 <= p < rows.len()
            && rows[p].resource_id@ == resource_id by {
            if 0 <= p < t.len() {
                assert(t[p] == rows[p]);
            }
            if all.contains(p) {
                let k = choose|k: int| 0 <= k < all.len() && all[k] == p;
                if k < rest.len() {
                    assert(rest[k] == p);
                    assert(rest.contains(p));
                }
            }
            if 0 <= p < rows.len() && rows[p].resource_id@ == resource_id {
                if p < t.len() {
                    assert(rest.contains(p));
                    let k = choose|k: int| 0 <= k < rest.len() && rest[k] == p;
                    assert(all[k] == p);
                } else {
                    assert(all[rest.len() as int] == p);
                }
            }
        }
    }
}

/// The runs that are told of a resource are all of its own, and no other's.
pub proof fn law_timeline_is_of_the_resource(rows: Seq<RunRow>, resource_id: Seq<char>, p: int)
    ensures
        timeline(rows, resource_id).contains(p) <==> 0 <= p < rows.len()
            && rows[p].resource_id@ == resource_id,
{
    lemma_runs_of(rows, resource_id);
    lemma_arranged(runs_of(rows, resource_id), by_age(rows));
}

proof fn lemma_order_holds(a: RunRow, b: RunRow, c: RunRow)
    requires
        !runs_before(b, a),
        !runs_before(c, b),
    ensures
        !runs_before(c, a),
{
    let (x, y, z) = (a.started_at@, b.started_at@, c.started_at@);
    let (u, v, w) = (a.created_at@, b.created_at@, c.created_at@);
    lemma_before_total(x, y);
    lemma_before_total(y, z);
    lemma_before_total(u, v);
    lemma_before_total(v, w);
    lemma_before_irreflexive(x);
    lemma_before_irreflexive(u);
    if before(x, y) && before(y, z) {
        lemma_before_transitive(x, y, z);
    }
    if before(u, v) && before(v, w) {
        lemma_before_transitive(u, v, w);
    }
    if runs_before(c, a) {
        if before(z, x) {
            if before(x, y) {
                lemma_before_transitive(z, x, y);
                if before(y, z) {
                    lemma_before_transitive(y, z, y);
                    lemma_before_irreflexive(y);
                }
                lemma_before_irreflexive(y);
            }
            if before(y, z) {
                lemma_before_transitive(y, z, x);
                lemma_before_irreflexive(y);
            }
        } else {
            if before(x, y) {
                if before(y, z) {
                    lemma_before_irreflexive(z);
                }
            }
            if before(w, u) {
                if before(u, v) {
                    lemma_before_transitive(w, u, v);
                }
                if before(v, w) {
                    lemma_before_transitive(v, w, u);
                }
            }
        }
    }
}

proof fn lemma_before_asymmetric(a: RunRow, b: RunRow)
    requires
        runs_before(a, b),
    ensures
        !runs_before(b, a),
{
    lemma_before_irreflexive(a.started_at@);
    lemma_before_irreflexive(a.created_at@);
    if runs_before(b, a) {
        if before(a.started_at@, b.started_at@) && before(b.started_at@, a.started_at@) {
            lemma_before_transitive(a.started_at@, b.started_at@, a.started_at@);
        }
        if before(a.created_at@, b.created_at@) && before(b.created_at@, a.created_at@) {
            lemma_before_transitive(a.created_at@, b.created_at@, a.created_at@);
        }
    }
}

/// A resource's runs are told oldest first.
pub proof fn law_timeline_is_in_order(rows: Seq<RunRow>, resource_id: Seq<char>)
    ensures
        in_order(timeline(rows, resource_id), by_age(rows)),
{
    let less = by_age(rows);
    assert forall|a: int, b: int| #[trigger] less(a, b) implies !less(b, a) by {
        lemma_before_asymmetric(rows[a], rows[b]);
    }
    assert forall|a: int, b: int, c: int|
        !(#[trigger] less(b, a)) && !(#[trigger] less(c, b)) implies !less(c, a) by {
        lemma_order_holds(rows[a], rows[b], rows[c]);
    }
    law_arranged_is_in_order(runs_of(rows, resource_id), less);
}

/// A resource's runs are told in the order in which they started, those of one moment in
/// the order in which they were recorded; all of them, or why one cannot be opened.
pub proof fn law_runs_are_told_as_they_started(
    key: Seq<u8>,
    rows: Seq<RunRow>,
    resource_id: Seq<char>,
    i: int,
    j: int,
)
    requires
        0 <= i < j < timeline(rows, resource_id).len(),
    ensures
        ({
            let a = rows[timeline(rows, resource_id)[i]];
            let b = rows[timeline(rows, resource_id)[j]];
            &&& !before(b.started_at@, a.started_at@)
            &&& a.started_at@ == b.started_at@ ==> !before(b.created_at@, a.created_at@)
        }),
        told(key, rows, timeline(rows, resource_id)) matches Ok(runs) ==> runs.len() == timeline(
            rows,
            resource_id,
        ).len() && run_of(key, rows[timeline(rows, resource_id)[i]]) == Ok::<_, ProvisionFault>(
            runs[i],
        ),
{
    law_timeline_is_in_order(rows, resource_id);
    let order = timeline(rows, resource_id);
    assert(!by_age(rows)(order[j], order[i]));
    lemma_told(key, rows, order);
}

proof fn lemma_told(key: Seq<u8>, rows: Seq<RunRow>, places: Seq<int>)
    ensures
        told(key, rows, places) matches Ok(runs) ==> runs.len() == places.len() && forall|k: int|
            0 <= k < runs.len() ==> run_of(key, rows[places[k]]) == Ok::<_, ProvisionFault>(
                #[trigger] runs[k],
            ),
    decreases places.len(),
{
    if places.len() > 0 {
        lemma_told(key, rows, places.drop_last());
        if told(key, rows, places) is Ok {
            let runs = told(key, rows, places)->Ok_0;
            let rest = told(key, rows, places.drop_last())->Ok_0;
            assert forall|k: int| 0 <= k < runs.len() implies run_of(key, rows[places[k]]) == Ok::<
                _,
                ProvisionFault,
            >(#[trigger] runs[k]) by {
                if k < rest.len() {
                    assert(runs[k] == rest[k]);
                    assert(places.drop_last()[k] == places[k]);
                }
            }
        }
    }
}

/// A run that opens is told as it was recorded, with what its output says.
pub proof fn law_run_is_told_as_recorded(key: Seq<u8>, r: RunRow)
    ensures
        run_of(key, r) is Ok <==> opened(key, r.sealed, "decrypt run log: "@) is Ok,
        run_of(key, r) matches Ok(v) ==> {
            &&& v.id == r.id@
            &&& v.action == r.action@
            &&& v.ok == r.ok
            &&& v.started_at == r.started_at@
            &&& v.finished_at == r.finished_at@
            &&& v.output == shown(opened(key, r.sealed, "decrypt run log: "@)->Ok_0)
        },
{
}

} // verus!
