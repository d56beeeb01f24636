//! Durable Terraform state: one sealed snapshot per resource, replaced only by a
//! writer that has seen the version it replaces.
use vstd::prelude::*;

use crate::provision::seal::{fresh_nonce, open, opened, seal, sound, Sealed, SEAL_LIMIT};
use crate::provision::{ProvisionError, ProvisionFault};
use crate::text::{decimal_int, decimal_int_text, text_eq};

verus! {

/// A snapshot as it is stored.
#[derive(Debug)]
pub struct StateRow {
    pub id: String,
    pub sealed: Sealed,
    pub updated_at: String,
    pub version: i64,
}

/// The snapshots, sealed under one key.
#[derive(Debug)]
pub struct TfStateStore {
    pub key: [u8; 32],
    pub rows: Vec<StateRow>,
}

/// The place of the snapshot of a resource, or the number of snapshots.
pub open spec fn place(rows: Seq<StateRow>, id: Seq<char>) -> int
    decreases rows.len(),
{
    if rows.len() == 0 || rows[0].id@ == id {
        0
    } else {
        1 + place(rows.subrange(1, rows.len() as int), id)
    }
}

proof fn lemma_place(rows: Seq<StateRow>, id: Seq<char>, k: int)
    requires
        0 <= k <= rows.len(),
        k < rows.len() ==> rows[k].id@ == id,
        forall|i: int| 0 <= i < k ==> (#[trigger] rows[i]).id@ != id,
    ensures
        place(rows, id) == k,
    decreases rows.len(),
{
    if rows.len() > 0 && rows[0].id@ != id {
        let t = rows.subrange(1, rows.len() as int);
        assert forall|i: int| 0 <= i < k - 1 implies (#[trigger] t[i]).id@ != id by {
            assert(t[i] == rows[i + 1]);
        }
        lemma_place(t, id, k - 1);
    }
}

proof fn lemma_place_found(rows: Seq<StateRow>, id: Seq<char>)
    ensures
        0 <= place(rows, id) <= rows.len(),
        place(rows, id) < rows.len() ==> rows[place(rows, id)].id@ == id,
        forall|i: int| 0 <= i < place(rows, id) ==> (#[trigger] rows[i]).id@ != id,
    decreases rows.len(),
{
    if rows.len() > 0 && rows[0].id@ != id {
        let t = rows.subrange(1, rows.len() as int);
        lemma_place_found(t, id);
        assert forall|i: int| 0 <= i < place(rows, id) implies (#[trigger] rows[i]).id@ != id by {
            if i > 0 {
                assert(t[i - 1] == rows[i]);
            }
        }
    }
}

/// The version of a resource's snapshot, if it has one.
pub open spec fn current(rows: Seq<StateRow>, id: Seq<char>) -> Option<i64> {
    let k = place(rows, id);
    if k < rows.len() {
        Some(rows[k].version)
    } else {
        None
    }
}

/// How an expected version is written.
pub open spec fn version_text(v: Option<i64>) -> Seq<char> {
    match v {
        Some(n) => "Some("@ + decimal_int(n as int) + ")"@,
        None => "None"@,
    }
}

/// What a writer is told that expected another version.
pub open spec fn conflict(id: Seq<char>, expected: Option<i64>) -> ProvisionFault {
    ProvisionFault::Conflict(
        "tf state "@ + id + " changed under us (expected version "@ + version_text(expected)
            + ")"@,
    )
}

fn version_str(v: Option<i64>) -> (r: String)
    ensures
        r@ == version_text(v),
{
    match v {
        Some(n) => {
            let mut s = "Some(".to_owned();
            let d = decimal_int_text(n);
            s.append(d.as_str());
            s.append(")");
            s
        },
        None => "None".to_owned(),
    }
}

impl TfStateStore {
    /// Every nonce is one, and no resource has two snapshots.
    pub open spec fn wf(self) -> bool {
        &&& forall|i: int| 0 <= i < self.rows@.len() ==> sound((#[trigger] self.rows@[i]).sealed)
        &&& forall|i: int, j: int|
            0 <= i < j < self.rows@.len() ==> (#[trigger] self.rows@[i]).id@ != (
            #[trigger] self.rows@[j]).id@
    }

    /// What loading a resource's snapshot gives.
    pub open spec fn loaded(self, id: Seq<char>) -> Result<
        Option<(Seq<u8>, i64)>,
        ProvisionFault,
    > {
        let k = place(self.rows@, id);
        if k < self.rows@.len() {
            match opened(self.key@, self.rows@[k].sealed, "decrypt tf state: "@) {
                Ok(plain) => Ok(Some((plain, self.rows@[k].version))),
                Err(f) => Err(f),
            }
        } else {
            Ok(None)
        }
    }

    /// A store without snapshots.
    pub fn new(key: [u8; 32]) -> (r: TfStateStore)
        ensures
            r.key == key,
            r.rows@.len() == 0,
            r.wf(),
    {
        TfStateStore { key, rows: Vec::new() }
    }

    fn find(&self, id: &str) -> (r: usize)
        ensures
            r == place(self.rows@, id@),
            r <= self.rows@.len(),
    {
        let mut i: usize = 0;
        while i < self.rows.len()
            invariant
                i <= self.rows@.len(),
                forall|k: int| 0 <= k < i ==> (#[trigger] self.rows@[k]).id@ != id@,
            decreases self.rows.len() - i,
        {
            if text_eq(self.rows[i].id.as_str(), id) {
                proof {
                    lemma_place(self.rows@, id@, i as int);
                }
                return i;
            }
            i = i + 1;
        }
        proof {
            lemma_place(self.rows@, id@, i as int);
        }
        i
    }

    /// The snapshot of a resource and its version, if there is one.
    pub fn load(&self, id: &str) -> (r: Result<Option<(Vec<u8>, i64)>, ProvisionError>)
        requires
            self.wf(),
        ensures
            match r {
                Ok(Some(p)) => self.loaded(id@) == Ok::<_, ProvisionFault>(Some((p.0@, p.1))),
                Ok(None) => self.loaded(id@) == Ok::<Option<(Seq<u8>, i64)>, ProvisionFault>(None),
                Err(e) => self.loaded(id@) == Err::<Option<(Seq<u8>, i64)>, _>(e@),
            },
    {
        let k: usize = self.find(id);
        if k >= self.rows.len() {
            return Ok(None);
        }
        let row = &self.rows[k];
        match open(&self.key, &row.sealed, "decrypt tf state: ") {
            Ok(p) => Ok(Some((p, row.version))),
            Err(e) => Err(e),
        }
    }

    /// Saves a snapshot over the expected version: none for a first one. A writer
    /// that expected another version is refused and nothing is written. A saved
    /// snapshot is what loading gives, at the next version.
    pub fn save_cas(&mut self, id: &str, state: &[u8], expected: Option<i64>, now: &str) -> (r:
        Result<(), ProvisionError>)
        requires
            old(self).wf(),
            current(old(self).rows@, id@) matches Some(v) ==> v < i64::MAX,
        ensures
            final(self).wf(),
            final(self).key == old(self).key,
            match r {
                Ok(_) => {
                    &&& state@.len() <= SEAL_LIMIT
                    &&& current(old(self).rows@, id@) == expected
                    &&& final(self).loaded(id@) == Ok::<_, ProvisionFault>(
                        Some((state@, version_after(expected))),
                    )
                    &&& forall|other: Seq<char>|
                        other != id@ ==> #[trigger] final(self).loaded(other) == old(self).loaded(
                            other,
                        )
                },
                Err(e) => {
                    &&& final(self).rows@ == old(self).rows@
                    &&& e@ == if state@.len() > SEAL_LIMIT {
                        ProvisionFault::Backend("encrypt tf state: "@ + "aead::Error"@)
                    } else {
                        conflict(id@, expected)
                    }
                    &&& state@.len() > SEAL_LIMIT || current(old(self).rows@, id@) != expected
                },
            },
            r is Ok <==> state@.len() <= SEAL_LIMIT && current(old(self).rows@, id@) == expected,
    {
        let nonce = fresh_nonce();
        let sealed = match seal(&self.key, &nonce, state, "encrypt tf state: ") {
            Ok(s) => s,
            Err(e) => {
                return Err(e);
            },
        };
        let k: usize = self.find(id);
        let ghost was = self.rows@;
        proof {
            lemma_place_found(was, id@);
        }
        let found: Option<i64> = if k < self.rows.len() {
            Some(self.rows[k].version)
        } else {
            None
        };
        let fits = match (expected, found) {
            (Some(v), Some(w)) => v == w,
            (None, None) => true,
            _ => false,
        };
        if !fits {
            let mut m = "tf state ".to_owned();
            m.append(id);
            m.append(" changed under us (expected version ");
            let v = version_str(expected);
            m.append(v.as_str());
            m.append(")");
            return Err(ProvisionError::Conflict(m));
        }
        let version: i64 = match expected {
            Some(v) => v + 1,
            None => 1,
        };
        let row = StateRow {
            id: id.to_owned(),
            sealed,
            updated_at: now.to_owned(),
            version,
        };
        assert(opened(self.key@, row.sealed, "decrypt tf state: "@) == Ok::<_, ProvisionFault>(
            state@,
        ));
        if k < self.rows.len() {
            self.rows[k] = row;
        } else {
            self.rows.push(row);
        }
        proof {
            let now_rows = self.rows@;
            assert forall|i: int| 0 <= i < was.len() && i != k implies #[trigger] now_rows[i]
                == was[i] by {}
            lemma_place(now_rows, id@, k as int);
            assert forall|other: Seq<char>| other != id@ implies #[trigger] self.loaded(other)
                == old(self).loaded(other) by {
                lemma_place_found(was, other);
                let p = place(was, other);
                if p < was.len() {
                    assert forall|i: int| 0 <= i < p implies (#[trigger] now_rows[i]).id@
                        != other by {
                        if i != k {
                            assert(now_rows[i] == was[i]);
                        }
                    }
                    assert(now_rows[p] == was[p]);
                    lemma_place(now_rows, other, p);
                } else {
                    assert forall|i: int| 0 <= i < now_rows.len() implies (
                    #[trigger] now_rows[i]).id@ != other by {
                        if i != k {
                            assert(now_rows[i] == was[i]);
                        }
                    }
                    lemma_place(now_rows, other, now_rows.len() as int);
                }
            }
        }
        Ok(())
    }

    /// Whether a resource has a snapshot.
    pub fn has(&self, id: &str) -> (r: bool)
        ensures
            r == (current(self.rows@, id@) is Some),
    {
        self.find(id) < self.rows.len()
    }

    /// Forgets the snapshot of a resource, if it has one.
    pub fn delete(&mut self, id: &str)
        requires
            old(self).wf(),
        ensures
            final(self).wf(),
            final(self).key == old(self).key,
            final(self).rows@ == if current(old(self).rows@, id@) is Some {
                old(self).rows@.remove(place(old(self).rows@, id@))
            } else {
                old(self).rows@
            },
            current(final(self).rows@, id@) is None,
    {
        let k: usize = self.find(id);
        let ghost was = self.rows@;
        proof {
            lemma_place_found(was, id@);
        }
        if k < self.rows.len() {
            let _gone = self.rows.remove(k);
            proof {
                let left = self.rows@;
                assert forall|i: int| 0 <= i < left.len() implies (#[trigger] left[i]).id@
                    != id@ by {
                    if i < k {
                        assert(left[i] == was[i]);
                    } else {
                        assert(left[i] == was[i + 1]);
                        assert(was[k as int].id@ == id@);
                    }
                }
                lemma_place(left, id@, left.len() as int);
                assert forall|i: int, j: int| 0 <= i < j < left.len() implies (
                #[trigger] left[i]).id@ != (#[trigger] left[j]).id@ by {
                    let a = if i < k {
                        i
                    } else {
                        i + 1
                    };
                    let b = if j < k {
                        j
                    } else {
                        j + 1
                    };
                    assert(left[i] == was[a] && left[j] == was[b]);
                }
                assert forall|i: int| 0 <= i < left.len() implies sound(
                    (#[trigger] left[i]).sealed,
                ) by {
                    let a = if i < k {
                        i
                    } else {
                        i + 1
                    };
                    assert(left[i] == was[a]);
                }
            }
        }
    }
}

/// The version that a save over an expected one leaves.
pub open spec fn version_after(expected: Option<i64>) -> i64 {
    match expected {
        Some(v) => (v + 1) as i64,
        None => 1i64,
    }
}

/// Of two writers that saw the same version only the first one gets through: once
/// its snapshot is what loading gives, the version is not the one that the second
/// expects.
pub proof fn law_second_writer_is_refused(
    after: TfStateStore,
    id: Seq<char>,
    state: Seq<u8>,
    seen: Option<i64>,
)
    requires
        seen matches Some(v) ==> v < i64::MAX,
        after.loaded(id) == Ok::<_, ProvisionFault>(Some((state, version_after(seen)))),
    ensures
        current(after.rows@, id) == Some(version_after(seen)),
        current(after.rows@, id) != seen,
{
}

/// The snapshot of a resource is the first of its id: the version that a writer has to
/// have seen is that row's, and none where no row is of the resource.
pub proof fn law_snapshot_is_the_resources_own(rows: Seq<StateRow>, id: Seq<char>)
    ensures
        match current(rows, id) {
            Some(v) => {
                let k = place(rows, id);
                &&& 0 <= k < rows.len()
                &&& rows[k].id@ == id
                &&& rows[k].version == v
            },
            None => forall|i: int| 0 <= i < rows.len() ==> (#[trigger] rows[i]).id@ != id,
        },
    decreases rows.len(),
{
    if rows.len() > 0 && rows[0].id@ != id {
        let t = rows.subrange(1, rows.len() as int);
        law_snapshot_is_the_resources_own(t, id);
        lemma_place_range(t, id);
        if current(t, id) is None {
            assert forall|i: int| 0 <= i < rows.len() implies (#[trigger] rows[i]).id@ != id by {
                if i > 0 {
                    assert(t[i - 1] == rows[i]);
                }
            }
        }
    }
}

proof fn lemma_place_range(rows: Seq<StateRow>, id: Seq<char>)
    ensures
        0 <= place(rows, id) <= rows.len(),
    decreases rows.len(),
{
    if rows.len() > 0 && rows[0].id@ != id {
        lemma_place_range(rows.subrange(1, rows.len() as int), id);
    }
}

/// A first snapshot is version one and each further one goes on by one.
pub proof fn law_snapshot_versions_count_up(v: i64)
    requires
        v < i64::MAX,
    ensures
        version_after(None) == 1,
        version_after(Some(v)) == v + 1,
{
}

} // verus!
