//! Secret exchange: references in the control plane, values in the store.
//!
//! A secret value never enters a manifest, a record or a log. What provisioning
//! yields in credentials goes to the store, and only a reference is recorded. A
//! name is versioned in place: writing it again adds a row with the next version,
//! and reading it finds the latest one, so that a reference recorded before a
//! rotation still works.
use vstd::prelude::*;
use vstd::utf8::encode_utf8;

use crate::calendar::{days_passed, have_days_passed};
use crate::json::{json_read, lemma_flat_is_plain, Json};
use crate::provision::seal::{
    fresh_nonce, hex_of, law_text_survives_its_bytes, open, opened, random_secret, read_utf8,
    seal, sound, utf8_read, Sealed, SEAL_LIMIT,
};
use crate::provision::{ProvisionError, ProvisionFault};
use crate::sorted_map::{increasing, SortedMap};
use crate::text::{
    before, contents, copy_option, later, lemma_before_irreflexive, lemma_before_total,
    lemma_before_transitive, lemma_first_of_unique, parted_once, split_once,
    text_before, text_eq, texts,
};

verus! {

/// The only thing that leaves the store. The path stays the same across
/// rotations; the version is the one at the time of writing.
#[derive(Debug)]
pub struct SecretRef {
    pub store: String,
    pub path: String,
    pub version: i64,
}

/// The key under which a reference is recorded among a resource's outputs.
pub const SECRET_REF_KEY: &'static str = "secret_ref";

/// A reference by its contents.
pub struct RefView {
    pub store: Seq<char>,
    pub path: Seq<char>,
    pub version: i64,
}

impl View for SecretRef {
    type V = RefView;

    open spec fn view(&self) -> RefView {
        RefView { store: self.store@, path: self.path@, version: self.version }
    }
}

/// What is known of a stored secret without its value.
#[derive(Debug)]
pub struct SecretInfo {
    pub project_id: String,
    pub name: String,
    pub version: i64,
    pub created_at: String,
    pub rotated_at: Option<String>,
    pub rotation_interval_days: Option<i64>,
}

// ---------------------------------------------------------------------------
// A store that nobody has set up
// ---------------------------------------------------------------------------

/// A managed store that the operator has not set up: it refuses everything.
#[derive(Debug)]
pub struct UnconfiguredStore {
    pub label: String,
}

impl UnconfiguredStore {
    /// A store that is known by its name only.
    pub fn new(label: &str) -> (r: UnconfiguredStore)
        ensures
            r.label@ == label@,
    {
        UnconfiguredStore { label: label.to_owned() }
    }

    /// The name of the store.
    pub fn name(&self) -> (r: &str)
        ensures
            r@ == self.label@,
    {
        self.label.as_str()
    }

    /// What every operation is answered.
    pub fn err(&self) -> (r: ProvisionError)
        ensures
            r@ == ProvisionFault::Backend(
                "secret store '"@ + self.label@ + "' is not configured"@,
            ),
    {
        let mut m = "secret store '".to_owned();
        m.append(self.label.as_str());
        m.append("' is not configured");
        ProvisionError::Backend(m)
    }
}

// ---------------------------------------------------------------------------
// The builtin store
// ---------------------------------------------------------------------------

/// One version of a secret as it is stored.
#[derive(Debug)]
pub struct SecretRow {
    pub project_id: String,
    pub name: String,
    pub version: i64,
    pub sealed: Sealed,
    /// The rotation interval, as JSON.
    pub meta: String,
    pub created_at: String,
    pub rotated_at: Option<String>,
}

/// The builtin store: every version of every secret, sealed under one key.
#[derive(Debug)]
pub struct BuiltinSecretStore {
    pub key: [u8; 32],
    pub rows: Vec<SecretRow>,
}

/// A row of a project's secret.
pub open spec fn of_name(r: SecretRow, project_id: Seq<char>, name: Seq<char>) -> bool {
    r.project_id@ == project_id && r.name@ == name
}

fn is_of_name(r: &SecretRow, project_id: &str, name: &str) -> (b: bool)
    ensures
        b == of_name(*r, project_id@, name@),
{
    text_eq(r.project_id.as_str(), project_id) && text_eq(r.name.as_str(), name)
}

/// The place of the latest version of a secret.
pub open spec fn latest(
    rows: Seq<SecretRow>,
    project_id: Seq<char>,
    name: Seq<char>,
) -> Option<int>
    decreases rows.len(),
{
    if rows.len() == 0 {
        None
    } else {
        let rest = latest(rows.drop_last(), project_id, name);
        if of_name(rows.last(), project_id, name) && match rest {
            None => true,
            Some(k) => rows[k].version < rows.last().version,
        } {
            Some(rows.len() - 1)
        } else {
            rest
        }
    }
}

/// The version that a secret is written with next.
pub open spec fn next_version(
    rows: Seq<SecretRow>,
    project_id: Seq<char>,
    name: Seq<char>,
) -> int {
    match latest(rows, project_id, name) {
        Some(k) => rows[k].version + 1,
        None => 1,
    }
}

proof fn lemma_latest(rows: Seq<SecretRow>, project_id: Seq<char>, name: Seq<char>)
    ensures
        match latest(rows, project_id, name) {
            Some(k) => 0 <= k < rows.len() && of_name(rows[k], project_id, name) && forall|i: int|
                0 <= i < rows.len() && of_name(#[trigger] rows[i], project_id, name)
                    ==> rows[i].version <= rows[k].version,
            None => forall|i: int|
                0 <= i < rows.len() ==> !of_name(#[trigger] rows[i], project_id, name),
        },
    decreases rows.len(),
{
    if rows.len() > 0 {
        let t = rows.drop_last();
        lemma_latest(t, project_id, name);
        assert forall|i: int| 0 <= i < rows.len() - 1 implies #[trigger] rows[i] == t[i] by {}
        match latest(t, project_id, name) {
            Some(k) => {
                assert(t[k] == rows[k]);
            },
            None => {},
        }
    }
}

/// The rotation interval that a row's JSON names.
pub open spec fn interval_of(meta: Seq<char>) -> Option<i64> {
    match json_read(meta) {
        Ok(j) => match j.at("rotation_interval_days"@) {
            Some(v) => v.integer(),
            None => None,
        },
        Err(_) => None,
    }
}

fn read_interval(meta: &str) -> (r: Option<i64>)
    ensures
        r == interval_of(meta@),
{
    match Json::parse(meta) {
        Ok(j) => match j.get("rotation_interval_days") {
            Some(v) => v.as_i64(),
            None => None,
        },
        Err(_) => None,
    }
}

fn write_interval(days: Option<i64>) -> (r: String)
    ensures
        interval_of(r@) == days,
{
    let mut meta = Json::object();
    let value = match days {
        Some(n) => Json::integer(n),
        None => Json::Null,
    };
    meta.insert("rotation_interval_days", value);
    proof {
        lemma_flat_is_plain(meta@->Object_0);
    }
    meta.text()
}

/// The path of a project's secret.
pub open spec fn path_of(project_id: Seq<char>, name: Seq<char>) -> Seq<char> {
    project_id + "/"@ + name
}

/// The project and the name in a path: what is before and behind its first slash.
pub open spec fn split_path(path: Seq<char>) -> (Seq<char>, Seq<char>) {
    match parted_once(path, '/') {
        Some(p) => p,
        None => (path, Seq::empty()),
    }
}

fn path_text(project_id: &str, name: &str) -> (r: String)
    ensures
        r@ == path_of(project_id@, name@),
{
    let mut p = project_id.to_owned();
    p.append("/");
    p.append(name);
    p
}

/// The project and the name in a path.
pub fn parts_of(path: &str) -> (r: (String, String))
    ensures
        (r.0@, r.1@) == split_path(path@),
{
    match split_once(path, '/') {
        Some(p) => p,
        None => {
            let empty = String::new();
            assert(empty@ =~= Seq::empty());
            (path.to_owned(), empty)
        },
    }
}

/// A project's secret is found under its path, unless the project's id has a
/// slash of its own.
pub proof fn law_paths_come_apart(project_id: Seq<char>, name: Seq<char>)
    requires
        !project_id.contains('/'),
    ensures
        split_path(path_of(project_id, name)) == (project_id, name),
{
    reveal_strlit("/");
    let p = path_of(project_id, name);
    let k = project_id.len() as int;
    assert("/"@.len() == 1 && "/"@[0] == '/');
    assert(p[k] == '/');
    assert forall|i: int| 0 <= i < k implies #[trigger] p[i] != '/' by {
        assert(p[i] == project_id[i]);
        assert(project_id.contains(project_id[i]));
    }
    lemma_first_of_unique(p, '/', k);
    assert(p.subrange(0, k) =~= project_id);
    assert(p.subrange(k + 1, p.len() as int) =~= name);
}

/// What a stored row says under a key.
pub open spec fn row_value(key: Seq<u8>, r: SecretRow) -> Result<Seq<char>, ProvisionFault> {
    match opened(key, r.sealed, "decrypt secret: "@) {
        Err(f) => Err(f),
        Ok(plain) => match utf8_read(plain) {
            Ok(s) => Ok(s),
            Err(c) => Err(ProvisionFault::Backend("secret not utf-8: "@ + c)),
        },
    }
}

impl BuiltinSecretStore {
    /// Every nonce is one.
    pub open spec fn wf(self) -> bool {
        forall|i: int| 0 <= i < self.rows@.len() ==> sound((#[trigger] self.rows@[i]).sealed)
    }

    /// What reading a path gives: the value of the latest version, or why there is
    /// none.
    pub open spec fn value_at(self, path: Seq<char>) -> Result<Seq<char>, ProvisionFault> {
        let (project_id, name) = split_path(path);
        match latest(self.rows@, project_id, name) {
            Some(k) => row_value(self.key@, self.rows@[k]),
            None => Err(ProvisionFault::RefNotFound(path)),
        }
    }

    /// A store without secrets.
    pub fn new(key: [u8; 32]) -> (r: BuiltinSecretStore)
        ensures
            r.key == key,
            r.rows@.len() == 0,
            r.wf(),
    {
        BuiltinSecretStore { key, rows: Vec::new() }
    }

    /// The name of the store.
    pub fn name(&self) -> (r: &'static str)
        ensures
            r@ == "builtin"@,
    {
        "builtin"
    }

    /// The place of the latest version of a secret.
    pub fn latest_row(&self, project_id: &str, name: &str) -> (r: Option<usize>)
        ensures
            match r {
                Some(k) => latest(self.rows@, project_id@, name@) == Some(k as int) && k
                    < self.rows@.len(),
                None => latest(self.rows@, project_id@, name@) is None,
            },
    {
        let mut best: Option<usize> = None;
        let mut i: usize = 0;
        assert(latest(self.rows@.take(0), project_id@, name@) is None);
        while i < self.rows.len()
            invariant
                i <= self.rows@.len(),
                match best {
                    Some(k) => latest(self.rows@.take(i as int), project_id@, name@) == Some(
                        k as int,
                    ) && k < i,
                    None => latest(self.rows@.take(i as int), project_id@, name@) is None,
                },
            decreases self.rows.len() - i,
        {
            assert(self.rows@.take(i + 1).drop_last() =~= self.rows@.take(i as int));
            let row = &self.rows[i];
            if is_of_name(row, project_id, name) {
                match best {
                    Some(k) => {
                        if self.rows[k].version < row.version {
                            best = Some(i);
                        }
                    },
                    None => {
                        best = Some(i);
                    },
                }
            }
            i = i + 1;
        }
        assert(self.rows@.take(self.rows@.len() as int) =~= self.rows@);
        best
    }

    /// Writes a value under a nonce that is used once: a new row with the next
    /// version. Only a value beyond the limit of the seal is refused.
    pub fn write(
        &mut self,
        project_id: &str,
        name: &str,
        value: &str,
        rotation_interval_days: Option<i64>,
        nonce: &[u8; 12],
        now: &str,
        rotated_at: Option<String>,
    ) -> (r: Result<SecretRef, ProvisionError>)
        requires
            next_version(old(self).rows@, project_id@, name@) <= i64::MAX,
        ensures
            old(self).wf() ==> final(self).wf(),
            final(self).key == old(self).key,
            match r {
                Ok(sref) => {
                    &&& encode_utf8(value@).len() <= SEAL_LIMIT
                    &&& sref@ == (RefView {
                        store: "builtin"@,
                        path: path_of(project_id@, name@),
                        version: next_version(old(self).rows@, project_id@, name@) as i64,
                    })
                    &&& final(self).rows@.len() == old(self).rows@.len() + 1
                    &&& final(self).rows@.drop_last() == old(self).rows@
                    &&& {
                        let row = final(self).rows@.last();
                        &&& row.project_id@ == project_id@
                        &&& row.name@ == name@
                        &&& row.version == next_version(old(self).rows@, project_id@, name@)
                        &&& row_value(old(self).key@, row) == Ok::<Seq<char>, ProvisionFault>(
                            value@,
                        )
                        &&& row.sealed.nonce@ == hex_of(nonce@)
                        &&& interval_of(row.meta@) == rotation_interval_days
                        &&& row.created_at@ == now@
                        &&& row.rotated_at == rotated_at
                    }
                    &&& latest(final(self).rows@, project_id@, name@) == Some(
                        old(self).rows@.len() as int,
                    )
                },
                Err(e) => encode_utf8(value@).len() > SEAL_LIMIT && e@ == ProvisionFault::Backend(
                    "encrypt secret: "@ + "aead::Error"@,
                ) && final(self).rows@ == old(self).rows@,
            },
    {
        let version: i64 = match self.latest_row(project_id, name) {
            Some(k) => self.rows[k].version + 1,
            None => 1,
        };
        let sealed = match seal(&self.key, nonce, value.as_bytes(), "encrypt secret: ") {
            Ok(s) => s,
            Err(e) => {
                return Err(e);
            },
        };
        let ghost before = self.rows@;
        let row = SecretRow {
            project_id: project_id.to_owned(),
            name: name.to_owned(),
            version,
            sealed,
            meta: write_interval(rotation_interval_days),
            created_at: now.to_owned(),
            rotated_at,
        };
        proof {
            law_text_survives_its_bytes(value@);
            assert(opened(self.key@, row.sealed, "decrypt secret: "@) == Ok::<
                Seq<u8>,
                ProvisionFault,
            >(encode_utf8(value@)));
        }
        self.rows.push(row);
        proof {
            assert(self.rows@.drop_last() =~= before);
            match latest(before, project_id@, name@) {
                Some(k) => {
                    lemma_latest(before, project_id@, name@);
                    assert(self.rows@[k] == before[k]);
                },
                None => {},
            }
        }
        Ok(SecretRef { store: "builtin".to_owned(), path: path_text(project_id, name), version })
    }

    /// Writes a value. Reading the path then gives that value, unless the
    /// project's id has a slash of its own.
    pub fn put(
        &mut self,
        project_id: &str,
        name: &str,
        value: &str,
        rotation_interval_days: Option<i64>,
        now: &str,
    ) -> (r: Result<SecretRef, ProvisionError>)
        requires
            next_version(old(self).rows@, project_id@, name@) <= i64::MAX,
        ensures
            old(self).wf() ==> final(self).wf(),
            final(self).key == old(self).key,
            match r {
                Ok(sref) => {
                    &&& encode_utf8(value@).len() <= SEAL_LIMIT
                    &&& sref@ == (RefView {
                        store: "builtin"@,
                        path: path_of(project_id@, name@),
                        version: next_version(old(self).rows@, project_id@, name@) as i64,
                    })
                    &&& final(self).rows@.len() == old(self).rows@.len() + 1
                    &&& final(self).rows@.drop_last() == old(self).rows@
                    &&& of_name(final(self).rows@.last(), project_id@, name@)
                    &&& final(self).rows@.last().version == sref@.version
                    &&& interval_of(final(self).rows@.last().meta@) == rotation_interval_days
                    &&& final(self).rows@.last().created_at@ == now@
                    &&& final(self).rows@.last().rotated_at is None
                    &&& !project_id@.contains('/') ==> final(self).value_at(sref@.path) == Ok::<
                        Seq<char>,
                        ProvisionFault,
                    >(value@)
                },
                Err(e) => encode_utf8(value@).len() > SEAL_LIMIT && e@ == ProvisionFault::Backend(
                    "encrypt secret: "@ + "aead::Error"@,
                ) && final(self).rows@ == old(self).rows@,
            },
    {
        let nonce = fresh_nonce();
        proof {
            if !project_id@.contains('/') {
                law_paths_come_apart(project_id@, name@);
            }
        }
        self.write(project_id, name, value, rotation_interval_days, &nonce, now, None)
    }

    /// The current value behind a reference, whatever version it was made at.
    pub fn get(&self, r: &SecretRef) -> (v: Result<String, ProvisionError>)
        requires
            self.wf(),
        ensures
            match v {
                Ok(s) => self.value_at(r@.path) == Ok::<Seq<char>, ProvisionFault>(s@),
                Err(e) => self.value_at(r@.path) == Err::<Seq<char>, ProvisionFault>(e@),
            },
    {
        let (project_id, name) = parts_of(r.path.as_str());
        let k: usize = match self.latest_row(project_id.as_str(), name.as_str()) {
            Some(k) => k,
            None => {
                return Err(ProvisionError::RefNotFound(r.path.clone()));
            },
        };
        let plain = match open(&self.key, &self.rows[k].sealed, "decrypt secret: ") {
            Ok(p) => p,
            Err(e) => {
                return Err(e);
            },
        };
        match read_utf8(plain) {
            Ok(s) => Ok(s),
            Err(c) => {
                let mut m = "secret not utf-8: ".to_owned();
                m.append(c.as_str());
                Err(ProvisionError::Backend(m))
            },
        }
    }

    /// Rotates to a given value: a new version that keeps the path and the
    /// interval of the latest one.
    pub fn rotate_to(
        &mut self,
        r: &SecretRef,
        fresh: &str,
        nonce: &[u8; 12],
        now: &str,
    ) -> (v: Result<SecretRef, ProvisionError>)
        requires
            next_version(old(self).rows@, split_path(r@.path).0, split_path(r@.path).1)
                <= i64::MAX,
        ensures
            old(self).wf() ==> final(self).wf(),
            final(self).key == old(self).key,
            ({
                let (project_id, name) = split_path(r@.path);
                let next = next_version(old(self).rows@, project_id, name);
                match v {
                    Ok(sref) => {
                        &&& encode_utf8(fresh@).len() <= SEAL_LIMIT
                        &&& sref@ == (RefView {
                            store: "builtin"@,
                            path: path_of(project_id, name),
                            version: next as i64,
                        })
                        &&& final(self).rows@.len() == old(self).rows@.len() + 1
                        &&& final(self).rows@.drop_last() == old(self).rows@
                        &&& of_name(final(self).rows@.last(), project_id, name)
                        &&& final(self).rows@.last().version == next
                        &&& final(self).rows@.last().created_at@ == now@
                        &&& contents(final(self).rows@.last().rotated_at) == Some(now@)
                        &&& interval_of(final(self).rows@.last().meta@) == match latest(
                            old(self).rows@,
                            project_id,
                            name,
                        ) {
                            Some(k) => interval_of(old(self).rows@[k].meta@),
                            None => None,
                        }
                        &&& final(self).value_at(r@.path) == Ok::<Seq<char>, ProvisionFault>(
                            fresh@,
                        )
                    },
                    Err(e) => encode_utf8(fresh@).len() > SEAL_LIMIT && e@
                        == ProvisionFault::Backend("encrypt secret: "@ + "aead::Error"@)
                        && final(self).rows@ == old(self).rows@,
                }
            }),
    {
        let (project_id, name) = parts_of(r.path.as_str());
        let interval: Option<i64> = match self.latest_row(project_id.as_str(), name.as_str()) {
            Some(k) => read_interval(self.rows[k].meta.as_str()),
            None => None,
        };
        self.write(
            project_id.as_str(),
            name.as_str(),
            fresh,
            interval,
            nonce,
            now,
            Some(now.to_owned()),
        )
    }

    /// Rotates to fresh random material, keeping the path and the interval of the
    /// latest version: reading the path then gives a text of 64 hex digits.
    pub fn rotate(&mut self, r: &SecretRef, now: &str) -> (v: Result<SecretRef, ProvisionError>)
        requires
            next_version(old(self).rows@, split_path(r@.path).0, split_path(r@.path).1)
                <= i64::MAX,
        ensures
            old(self).wf() ==> final(self).wf(),
            final(self).key == old(self).key,
            v matches Ok(sref) && sref@ == (RefView {
                store: "builtin"@,
                path: path_of(split_path(r@.path).0, split_path(r@.path).1),
                version: next_version(
                    old(self).rows@,
                    split_path(r@.path).0,
                    split_path(r@.path).1,
                ) as i64,
            }),
            final(self).rows@.len() == old(self).rows@.len() + 1,
            final(self).rows@.drop_last() == old(self).rows@,
            of_name(final(self).rows@.last(), split_path(r@.path).0, split_path(r@.path).1),
            final(self).rows@.last().version == next_version(
                old(self).rows@,
                split_path(r@.path).0,
                split_path(r@.path).1,
            ),
            final(self).rows@.last().created_at@ == now@,
            contents(final(self).rows@.last().rotated_at) == Some(now@),
            interval_of(final(self).rows@.last().meta@) == match latest(
                old(self).rows@,
                split_path(r@.path).0,
                split_path(r@.path).1,
            ) {
                Some(k) => interval_of(old(self).rows@[k].meta@),
                None => None,
            },
            final(self).value_at(r@.path) matches Ok(s) && s.len() == 64 && exists|bytes: Seq<u8>|
                bytes.len() == 32 && s == #[trigger] hex_of(bytes),
    {
        let fresh = random_secret();
        proof {
            lemma_utf8_short(fresh@);
        }
        let nonce = fresh_nonce();
        self.rotate_to(r, fresh.as_str(), &nonce, now)
    }

    /// Forgets every version of a secret.
    pub fn delete(&mut self, r: &SecretRef)
        ensures
            old(self).wf() ==> final(self).wf(),
            final(self).key == old(self).key,
            final(self).rows@ == without(
                old(self).rows@,
                split_path(r@.path).0,
                split_path(r@.path).1,
            ),
    {
        let (project_id, name) = parts_of(r.path.as_str());
        let mut rows: Vec<SecretRow> = Vec::new();
        std::mem::swap(&mut rows, &mut self.rows);
        let ghost all = rows@;
        let mut kept: Vec<SecretRow> = Vec::new();
        let ghost mut done: int = 0;
        while rows.len() > 0
            invariant
                0 <= done <= all.len(),
                rows@ == all.skip(done),
                kept@ == without(all.take(done), project_id@, name@),
                old(self).wf() ==> forall|i: int|
                    0 <= i < kept@.len() ==> sound((#[trigger] kept@[i]).sealed),
                old(self).wf() ==> forall|i: int|
                    0 <= i < all.len() ==> sound((#[trigger] all[i]).sealed),
            decreases rows.len(),
        {
            let row = rows.remove(0);
            assert(row == all[done]);
            proof {
                assert(all.take(done + 1).drop_last() =~= all.take(done));
                assert(rows@ =~= all.skip(done + 1));
                done = done + 1;
            }
            if !is_of_name(&row, project_id.as_str(), name.as_str()) {
                kept.push(row);
            }
        }
        assert(all.take(done) =~= all);
        self.rows = kept;
    }
}

/// The rows without those of a secret.
pub open spec fn without(rows: Seq<SecretRow>, project_id: Seq<char>, name: Seq<char>) -> Seq<
    SecretRow,
>
    decreases rows.len(),
{
    if rows.len() == 0 {
        Seq::empty()
    } else {
        let rest = without(rows.drop_last(), project_id, name);
        if of_name(rows.last(), project_id, name) {
            rest
        } else {
            rest.push(rows.last())
        }
    }
}

proof fn lemma_utf8_short(s: Seq<char>)
    ensures
        encode_utf8(s).len() <= 4 * s.len(),
    decreases s.len(),
{
    if s.len() > 0 {
        lemma_utf8_short(s.drop_first());
    }
}

proof fn lemma_without(rows: Seq<SecretRow>, project_id: Seq<char>, name: Seq<char>)
    ensures
        forall|i: int|
            0 <= i < without(rows, project_id, name).len() ==> !of_name(
                #[trigger] without(rows, project_id, name)[i],
                project_id,
                name,
            ),
    decreases rows.len(),
{
    if rows.len() > 0 {
        lemma_without(rows.drop_last(), project_id, name);
        let rest = without(rows.drop_last(), project_id, name);
        assert forall|i: int| 0 <= i < without(rows, project_id, name).len() implies !of_name(
            #[trigger] without(rows, project_id, name)[i],
            project_id,
            name,
        ) by {
            if i < rest.len() {
                assert(without(rows, project_id, name)[i] == rest[i]);
            }
        }
    }
}

/// A deleted secret is gone: no version of it is left to be found.
pub proof fn law_deleted_secret_is_gone(
    rows: Seq<SecretRow>,
    project_id: Seq<char>,
    name: Seq<char>,
)
    ensures
        latest(without(rows, project_id, name), project_id, name) is None,
{
    lemma_without(rows, project_id, name);
    lemma_latest(without(rows, project_id, name), project_id, name);
}

/// The next version of a secret is above every version it has.
pub proof fn law_versions_only_grow(
    rows: Seq<SecretRow>,
    project_id: Seq<char>,
    name: Seq<char>,
    i: int,
)
    requires
        0 <= i < rows.len(),
        of_name(rows[i], project_id, name),
    ensures
        rows[i].version < next_version(rows, project_id, name),
{
    lemma_latest(rows, project_id, name);
}

/// Writing one secret leaves every other secret's latest version where it was.
pub proof fn law_writes_do_not_interfere(
    rows: Seq<SecretRow>,
    row: SecretRow,
    project_id: Seq<char>,
    name: Seq<char>,
)
    requires
        !of_name(row, project_id, name),
    ensures
        latest(rows.push(row), project_id, name) == latest(rows, project_id, name),
{
    assert(rows.push(row).drop_last() =~= rows);
}

// ---------------------------------------------------------------------------
// What the store tells without a value
// ---------------------------------------------------------------------------

/// The versions of one secret taken together: the highest version with its interval,
/// the earliest creation and the latest rotation.
pub struct GroupView {
    pub version: i64,
    pub created_at: Seq<char>,
    pub rotated_at: Option<Seq<char>>,
    pub meta: Seq<char>,
}

/// The earlier of two texts in dictionary order.
pub open spec fn earlier(a: Seq<char>, b: Seq<char>) -> Seq<char> {
    if before(b, a) {
        b
    } else {
        a
    }
}

/// The later of two texts, either of which may be missing.
pub open spec fn later_option(a: Option<Seq<char>>, b: Option<Seq<char>>) -> Option<Seq<char>> {
    match (a, b) {
        (Some(x), Some(y)) => Some(later(x, y)),
        (Some(x), None) => Some(x),
        (None, y) => y,
    }
}

/// The versions of one secret taken together, if there are any.
pub open spec fn group_of(
    rows: Seq<SecretRow>,
    project_id: Seq<char>,
    name: Seq<char>,
) -> Option<GroupView>
    decreases rows.len(),
{
    if rows.len() == 0 {
        None
    } else {
        let rest = group_of(rows.drop_last(), project_id, name);
        let r = rows.last();
        if !of_name(r, project_id, name) {
            rest
        } else {
            match rest {
                None => Some(
                    GroupView {
                        version: r.version,
                        created_at: r.created_at@,
                        rotated_at: contents(r.rotated_at),
                        meta: r.meta@,
                    },
                ),
                Some(g) => Some(
                    GroupView {
                        version: if g.version < r.version {
                            r.version
                        } else {
                            g.version
                        },
                        created_at: earlier(g.created_at, r.created_at@),
                        rotated_at: later_option(g.rotated_at, contents(r.rotated_at)),
                        meta: if g.version < r.version {
                            r.meta@
                        } else {
                            g.meta
                        },
                    },
                ),
            }
        }
    }
}

struct Group {
    version: i64,
    created_at: String,
    rotated_at: Option<String>,
    meta: String,
}

spec fn group_view(g: Group) -> GroupView {
    GroupView {
        version: g.version,
        created_at: g.created_at@,
        rotated_at: contents(g.rotated_at),
        meta: g.meta@,
    }
}

spec fn group_option(g: Option<Group>) -> Option<GroupView> {
    match g {
        Some(x) => Some(group_view(x)),
        None => None,
    }
}

fn widen(g: &mut Group, r: &SecretRow)
    ensures
        group_view(*final(g)) == (GroupView {
            version: if old(g).version < r.version {
                r.version
            } else {
                old(g).version
            },
            created_at: earlier(old(g).created_at@, r.created_at@),
            rotated_at: later_option(contents(old(g).rotated_at), contents(r.rotated_at)),
            meta: if old(g).version < r.version {
                r.meta@
            } else {
                old(g).meta@
            },
        }),
{
    if g.version < r.version {
        g.version = r.version;
        g.meta = r.meta.clone();
    }
    if text_before(r.created_at.as_str(), g.created_at.as_str()) {
        g.created_at = r.created_at.clone();
    }
    let take = match (&g.rotated_at, &r.rotated_at) {
        (Some(x), Some(y)) => text_before(x.as_str(), y.as_str()),
        (None, Some(_)) => true,
        _ => false,
    };
    if take {
        g.rotated_at = copy_option(&r.rotated_at);
    }
}

fn group_rows(rows: &Vec<SecretRow>, project_id: &str, name: &str) -> (r: Option<Group>)
    ensures
        group_option(r) == group_of(rows@, project_id@, name@),
{
    let mut group: Option<Group> = None;
    let mut i: usize = 0;
    assert(group_of(rows@.take(0), project_id@, name@) is None);
    while i < rows.len()
        invariant
            i <= rows@.len(),
            group_option(group) == group_of(rows@.take(i as int), project_id@, name@),
        decreases rows.len() - i,
    {
        assert(rows@.take(i + 1).drop_last() =~= rows@.take(i as int));
        let row = &rows[i];
        if is_of_name(row, project_id, name) {
            group = match group {
                None => Some(
                    Group {
                        version: row.version,
                        created_at: row.created_at.clone(),
                        rotated_at: copy_option(&row.rotated_at),
                        meta: row.meta.clone(),
                    },
                ),
                Some(g) => {
                    let mut g = g;
                    widen(&mut g, row);
                    Some(g)
                },
            };
        }
        i = i + 1;
    }
    assert(rows@.take(rows@.len() as int) =~= rows@);
    group
}

/// The version and the interval that are told of a secret are those of its latest
/// version.
pub proof fn law_latest_version_counts(
    rows: Seq<SecretRow>,
    project_id: Seq<char>,
    name: Seq<char>,
)
    ensures
        match group_of(rows, project_id, name) {
            Some(g) => latest(rows, project_id, name) matches Some(k) && g.version
                == rows[k].version && g.meta == rows[k].meta@,
            None => latest(rows, project_id, name) is None,
        },
    decreases rows.len(),
{
    if rows.len() > 0 {
        let t = rows.drop_last();
        law_latest_version_counts(t, project_id, name);
        lemma_latest(t, project_id, name);
        match latest(t, project_id, name) {
            Some(k) => {
                assert(t[k] == rows[k]);
            },
            None => {},
        }
    }
}

/// What is told of a secret.
pub open spec fn info_matches(
    info: SecretInfo,
    rows: Seq<SecretRow>,
    project_id: Seq<char>,
) -> bool {
    &&& info.project_id@ == project_id
    &&& group_of(rows, project_id, info.name@) matches Some(g) && {
        &&& info.version == g.version
        &&& info.created_at@ == g.created_at
        &&& contents(info.rotated_at) == g.rotated_at
        &&& info.rotation_interval_days == interval_of(g.meta)
    }
}

/// The names in a list of secrets.
pub open spec fn info_names(infos: Seq<SecretInfo>) -> Seq<Seq<char>> {
    Seq::new(infos.len(), |i: int| infos[i].name@)
}

/// Whether a project has a secret of that name.
pub open spec fn has_secret(rows: Seq<SecretRow>, project_id: Seq<char>, name: Seq<char>) -> bool {
    exists|i: int| 0 <= i < rows.len() && of_name(#[trigger] rows[i], project_id, name)
}

proof fn lemma_group_exists(rows: Seq<SecretRow>, project_id: Seq<char>, name: Seq<char>)
    ensures
        group_of(rows, project_id, name) is Some <==> has_secret(rows, project_id, name),
    decreases rows.len(),
{
    if rows.len() > 0 {
        let t = rows.drop_last();
        lemma_group_exists(t, project_id, name);
        if has_secret(t, project_id, name) {
            let i = choose|i: int| 0 <= i < t.len() && of_name(#[trigger] t[i], project_id, name);
            assert(of_name(rows[i], project_id, name));
        }
        if has_secret(rows, project_id, name) {
            let i = choose|i: int|
                0 <= i < rows.len() && of_name(#[trigger] rows[i], project_id, name);
            if i < t.len() {
                assert(of_name(t[i], project_id, name));
            } else {
                assert(of_name(rows.last(), project_id, name));
            }
        }
        if of_name(rows.last(), project_id, name) {
            assert(of_name(rows[rows.len() - 1], project_id, name));
        }
    }
}

/// Whether a secret is due to be rotated: it has an interval, and that many days
/// have passed since its latest rotation, or since its creation where it never
/// was rotated.
pub open spec fn due(g: GroupView, now: Seq<char>) -> bool {
    interval_of(g.meta) matches Some(days) && days_passed(
        now,
        match g.rotated_at {
            Some(t) => t,
            None => g.created_at,
        },
        days as int,
    )
}

/// Whether no row before a place is of the same secret.
pub open spec fn first_row(rows: Seq<SecretRow>, i: int) -> bool {
    forall|j: int|
        0 <= j < i ==> !of_name(#[trigger] rows[j], rows[i].project_id@, rows[i].name@)
}

/// The references of the secrets that are due, in the order in which the secrets
/// were first written, among the first `n` rows.
pub open spec fn due_among(rows: Seq<SecretRow>, now: Seq<char>, n: int) -> Seq<RefView>
    decreases n,
{
    if n <= 0 {
        Seq::empty()
    } else {
        let rest = due_among(rows, now, n - 1);
        let r = rows[n - 1];
        let g = group_of(rows, r.project_id@, r.name@)->0;
        if first_row(rows, n - 1) && due(g, now) {
            rest.push(
                RefView {
                    store: "builtin"@,
                    path: path_of(r.project_id@, r.name@),
                    version: g.version,
                },
            )
        } else {
            rest
        }
    }
}

/// References by their contents.
pub open spec fn ref_views(refs: Seq<SecretRef>) -> Seq<RefView> {
    Seq::new(refs.len(), |i: int| refs[i]@)
}

impl BuiltinSecretStore {
    /// What is known of a project's secrets, by name in order.
    pub fn list(&self, project_id: &str) -> (r: Vec<SecretInfo>)
        ensures
            increasing(info_names(r@)),
            forall|n: Seq<char>|
                has_secret(self.rows@, project_id@, n) <==> #[trigger] info_names(r@).contains(n),
            forall|i: int|
                0 <= i < r@.len() ==> info_matches(#[trigger] r@[i], self.rows@, project_id@),
    {
        let mut names: SortedMap<bool> = SortedMap::new();
        let mut i: usize = 0;
        while i < self.rows.len()
            invariant
                i <= self.rows@.len(),
                forall|n: Seq<char>| #[trigger]
                    names@.contains_key(n) <==> exists|j: int|
                        0 <= j < i && of_name(#[trigger] self.rows@[j], project_id@, n),
            decreases self.rows.len() - i,
        {
            let row = &self.rows[i];
            let ghost was = names@;
            if text_eq(row.project_id.as_str(), project_id) {
                names.insert(row.name.as_str(), true);
            }
            proof {
                assert forall|n: Seq<char>| #[trigger]
                    names@.contains_key(n) <==> exists|j: int|
                        0 <= j < i + 1 && of_name(#[trigger] self.rows@[j], project_id@, n) by {
                    assert(was.contains_key(n) <==> exists|j: int|
                        0 <= j < i && of_name(#[trigger] self.rows@[j], project_id@, n));
                    if names@.contains_key(n) {
                        if was.contains_key(n) {
                            let j = choose|j: int|
                                0 <= j < i && of_name(#[trigger] self.rows@[j], project_id@, n);
                            assert(of_name(self.rows@[j], project_id@, n));
                        } else {
                            assert(of_name(self.rows@[i as int], project_id@, n));
                        }
                    }
                }
            }
            i = i + 1;
        }
        let keys = names.keys();
        let mut out: Vec<SecretInfo> = Vec::new();
        let mut k: usize = 0;
        while k < keys.len()
            invariant
                k <= keys@.len(),
                out@.len() == k,
                texts(keys@) == names.names(),
                forall|n: Seq<char>|
                    names@.contains_key(n) <==> #[trigger] names.names().contains(n),
                forall|n: Seq<char>| #[trigger]
                    names@.contains_key(n) <==> has_secret(self.rows@, project_id@, n),
                forall|j: int| 0 <= j < k ==> (#[trigger] out@[j]).name@ == keys@[j]@,
                forall|j: int|
                    0 <= j < k ==> info_matches(#[trigger] out@[j], self.rows@, project_id@),
            decreases keys.len() - k,
        {
            proof {
                assert(texts(keys@)[k as int] == keys@[k as int]@);
                assert(names.names().contains(keys@[k as int]@));
                lemma_group_exists(self.rows@, project_id@, keys@[k as int]@);
            }
            match group_rows(&self.rows, project_id, keys[k].as_str()) {
                Some(g) => {
                    let interval: Option<i64> = read_interval(g.meta.as_str());
                    out.push(
                        SecretInfo {
                            project_id: project_id.to_owned(),
                            name: keys[k].clone(),
                            version: g.version,
                            created_at: g.created_at,
                            rotated_at: g.rotated_at,
                            rotation_interval_days: interval,
                        },
                    );
                },
                None => {
                    assert(false);
                },
            }
            k = k + 1;
        }
        proof {
            assert(info_names(out@) =~= texts(keys@));
            assert forall|n: Seq<char>|
                has_secret(self.rows@, project_id@, n) <==> #[trigger] info_names(
                    out@,
                ).contains(n) by {
                assert(names@.contains_key(n) <==> names.names().contains(n));
            }
        }
        out
    }

    /// The references of the secrets whose interval has passed by `now`.
    pub fn due_for_rotation(&self, now: &str) -> (r: Vec<SecretRef>)
        ensures
            ref_views(r@) == due_among(self.rows@, now@, self.rows@.len() as int),
    {
        let mut out: Vec<SecretRef> = Vec::new();
        let mut i: usize = 0;
        assert(ref_views(out@) =~= due_among(self.rows@, now@, 0));
        while i < self.rows.len()
            invariant
                i <= self.rows@.len(),
                ref_views(out@) == due_among(self.rows@, now@, i as int),
            decreases self.rows.len() - i,
        {
            let row = &self.rows[i];
            let mut first = true;
            let mut j: usize = 0;
            while j < i
                invariant
                    j <= i < self.rows@.len(),
                    *row == self.rows@[i as int],
                    first == (forall|k: int|
                        0 <= k < j ==> !of_name(
                            #[trigger] self.rows@[k],
                            row.project_id@,
                            row.name@,
                        )),
                decreases i - j,
            {
                if is_of_name(&self.rows[j], row.project_id.as_str(), row.name.as_str()) {
                    first = false;
                }
                j = j + 1;
            }
            proof {
                lemma_group_exists(self.rows@, row.project_id@, row.name@);
                assert(of_name(self.rows@[i as int], row.project_id@, row.name@));
            }
            let ghost prev = ref_views(out@);
            if first {
                match group_rows(&self.rows, row.project_id.as_str(), row.name.as_str()) {
                    Some(g) => {
                        let last = match &g.rotated_at {
                            Some(t) => t.as_str(),
                            None => g.created_at.as_str(),
                        };
                        let is_due = match read_interval(g.meta.as_str()) {
                            Some(days) => have_days_passed(now, last, days),
                            None => false,
                        };
                        if is_due {
                            let sref = SecretRef {
                                store: "builtin".to_owned(),
                                path: path_text(row.project_id.as_str(), row.name.as_str()),
                                version: g.version,
                            };
                            let ghost seen = sref@;
                            out.push(sref);
                            assert(ref_views(out@) =~= prev.push(seen));
                        }
                    },
                    None => {
                        assert(false);
                    },
                }
            }
            i = i + 1;
        }
        out
    }
}

/// A secret without an interval is never due.
pub proof fn law_no_interval_never_due(g: GroupView, now: Seq<char>)
    requires
        interval_of(g.meta) is None,
    ensures
        !due(g, now),
{
}

/// What is read of a secret is its highest version: a row of that project and name above
/// which none of them has a version. There is none only where no row is of that project
/// and name. A new secret starts at version one and a known one goes on by one.
pub proof fn law_highest_version_is_read(
    rows: Seq<SecretRow>,
    project_id: Seq<char>,
    name: Seq<char>,
)
    ensures
        match latest(rows, project_id, name) {
            Some(k) => {
                &&& 0 <= k < rows.len()
                &&& rows[k].project_id@ == project_id
                &&& rows[k].name@ == name
                &&& forall|i: int|
                    0 <= i < rows.len() && (#[trigger] rows[i]).project_id@ == project_id
                        && rows[i].name@ == name ==> rows[i].version <= rows[k].version
                &&& next_version(rows, project_id, name) == rows[k].version + 1
            },
            None => {
                &&& forall|i: int|
                    0 <= i < rows.len() ==> (#[trigger] rows[i]).project_id@ != project_id
                        || rows[i].name@ != name
                &&& next_version(rows, project_id, name) == 1
            },
        },
    decreases rows.len(),
{
    if rows.len() > 0 {
        let t = rows.drop_last();
        law_highest_version_is_read(t, project_id, name);
        assert forall|i: int| 0 <= i < t.len() implies rows[i] == #[trigger] t[i] by {}
        let was = latest(t, project_id, name);
        if was is None {
            assert forall|i: int| 0 <= i < t.len() implies (#[trigger] rows[i]).project_id@
                != project_id || rows[i].name@ != name by {
                assert(t[i].project_id@ != project_id || t[i].name@ != name);
            }
        } else {
            let k = latest(rows, project_id, name)->0;
            assert(rows[was->0] == t[was->0]);
            assert forall|i: int|
                0 <= i < rows.len() && (#[trigger] rows[i]).project_id@ == project_id
                    && rows[i].name@ == name implies rows[i].version <= rows[k].version by {
                if i < t.len() {
                    assert(t[i].version <= t[was->0].version);
                }
            }
        }
    }
}

/// Forgetting a secret takes its rows out and leaves every other row, in order.
pub proof fn law_only_the_named_secret_is_forgotten(
    rows: Seq<SecretRow>,
    project_id: Seq<char>,
    name: Seq<char>,
)
    ensures
        without(rows, project_id, name) == rows.filter(
            |r: SecretRow| r.project_id@ != project_id || r.name@ != name,
        ),
    decreases rows.len(),
{
    reveal(Seq::filter);
    if rows.len() > 0 {
        law_only_the_named_secret_is_forgotten(rows.drop_last(), project_id, name);
    }
}

/// What is told of a secret covers all its versions: the highest version, the time the
/// first of them was written, and the time of the last rotation, none where there was
/// none.
pub proof fn law_what_is_told_of_a_secret(
    rows: Seq<SecretRow>,
    project_id: Seq<char>,
    name: Seq<char>,
)
    ensures
        ({
            let own = |r: SecretRow| r.project_id@ == project_id && r.name@ == name;
            match group_of(rows, project_id, name) {
                Some(g) => {
                    &&& forall|i: int|
                        0 <= i < rows.len() && own(#[trigger] rows[i]) ==> {
                            &&& rows[i].version <= g.version
                            &&& !before(rows[i].created_at@, g.created_at)
                            &&& rows[i].rotated_at matches Some(t) ==> g.rotated_at is Some
                                && !before(g.rotated_at->0, t@)
                        }
                    &&& exists|i: int|
                        0 <= i < rows.len() && own(#[trigger] rows[i]) && rows[i].version
                            == g.version && rows[i].meta@ == g.meta
                    &&& exists|i: int|
                        0 <= i < rows.len() && own(#[trigger] rows[i]) && rows[i].created_at@
                            == g.created_at
                    &&& g.rotated_at is Some ==> exists|i: int|
                        0 <= i < rows.len() && own(#[trigger] rows[i]) && contents(
                            rows[i].rotated_at,
                        ) == g.rotated_at
                },
                None => forall|i: int| 0 <= i < rows.len() ==> !own(#[trigger] rows[i]),
            }
        }),
    decreases rows.len(),
{
    if rows.len() > 0 {
        let t = rows.drop_last();
        let n = rows.len() - 1;
        let last = rows[n];
        law_what_is_told_of_a_secret(t, project_id, name);
        assert forall|i: int| 0 <= i < t.len() implies rows[i] == #[trigger] t[i] by {}
        let own = |r: SecretRow| r.project_id@ == project_id && r.name@ == name;
        let was = group_of(t, project_id, name);
        let now = group_of(rows, project_id, name);
        if was is None {
            assert forall|i: int| 0 <= i < t.len() implies !own(#[trigger] rows[i]) by {
                assert(!own(t[i]));
            }
            if own(last) {
                lemma_before_irreflexive(last.created_at@);
                if last.rotated_at is Some {
                    lemma_before_irreflexive(last.rotated_at->0@);
                }
                assert(own(rows[n]));
            }
        } else {
            let g = was->0;
            let h = now->0;
            let a = choose|i: int|
                0 <= i < t.len() && own(#[trigger] t[i]) && t[i].version == g.version && t[i].meta@
                    == g.meta;
            let b = choose|i: int|
                0 <= i < t.len() && own(#[trigger] t[i]) && t[i].created_at@ == g.created_at;
            assert(own(rows[a]) && rows[a].version == g.version && rows[a].meta@ == g.meta);
            assert(own(rows[b]) && rows[b].created_at@ == g.created_at);
            if g.rotated_at is Some {
                let c = choose|i: int|
                    0 <= i < t.len() && own(#[trigger] t[i]) && contents(t[i].rotated_at)
                        == g.rotated_at;
                assert(own(rows[c]) && contents(rows[c].rotated_at) == g.rotated_at);
            }
            assert(own(last) ==> own(rows[n]));
            lemma_before_irreflexive(last.created_at@);
            if last.rotated_at is Some {
                lemma_before_irreflexive(last.rotated_at->0@);
            }
            assert forall|i: int| 0 <= i < rows.len() && own(#[trigger] rows[i]) implies {
                &&& rows[i].version <= h.version
                &&& !before(rows[i].created_at@, h.created_at)
                &&& rows[i].rotated_at matches Some(x) ==> h.rotated_at is Some && !before(
                    h.rotated_at->0,
                    x@,
                )
            } by {
                if i < n {
                    assert(own(t[i]));
                }
                lemma_kept_order(rows[i].created_at@, last.created_at@, g.created_at);
                if rows[i].rotated_at is Some && last.rotated_at is Some && g.rotated_at is Some {
                    lemma_kept_order(
                        g.rotated_at->0,
                        last.rotated_at->0@,
                        rows[i].rotated_at->0@,
                    );
                    lemma_kept_order(
                        last.rotated_at->0@,
                        g.rotated_at->0,
                        rows[i].rotated_at->0@,
                    );
                }
                lemma_kept_order(last.created_at@, g.created_at, rows[i].created_at@);
            }
        }
    }
}

proof fn lemma_kept_order(a: Seq<char>, b: Seq<char>, c: Seq<char>)
    ensures
        !before(a, a),
        before(a, b) ==> !before(b, a),
        before(a, b) && before(b, c) ==> before(a, c),
        before(b, c) && before(c, a) ==> before(b, a),
        before(c, a) && before(a, b) ==> before(c, b),
        !before(a, c) && before(b, c) ==> !before(a, b),
        !before(c, a) && !before(a, b) ==> !before(c, b),
{
    lemma_before_irreflexive(a);
    lemma_before_irreflexive(b);
    if before(a, b) && before(b, a) {
        lemma_before_transitive(a, b, a);
    }
    if before(a, b) && before(b, c) {
        lemma_before_transitive(a, b, c);
    }
    if before(b, c) && before(c, a) {
        lemma_before_transitive(b, c, a);
    }
    if before(c, a) && before(a, b) {
        lemma_before_transitive(c, a, b);
    }
    if before(c, b) {
        lemma_before_total(a, b);
        if before(b, a) {
            lemma_before_transitive(c, b, a);
        }
    }
}

/// A secret is due exactly when its latest version has an interval and that many days
/// have passed since it was last rotated, or since it was first written where it never
/// was; and the references handed out are those of the secrets that are due, each with
/// its path and its version.
pub proof fn law_which_secrets_are_due(rows: Seq<SecretRow>, now: Seq<char>, n: int, g: GroupView)
    requires
        0 <= n <= rows.len(),
    ensures
        due(g, now) <==> interval_of(g.meta) is Some && days_passed(
            now,
            if g.rotated_at is Some {
                g.rotated_at->0
            } else {
                g.created_at
            },
            interval_of(g.meta)->0 as int,
        ),
        forall|k: int|
            0 <= k < due_among(rows, now, n).len() ==> exists|i: int|
                0 <= i < n && told_due(#[trigger] rows[i], rows, now) && due_ref(rows, i)
                    == #[trigger] due_among(rows, now, n)[k],
        forall|i: int|
            0 <= i < n && first_row(rows, i) && told_due(#[trigger] rows[i], rows, now)
                ==> due_among(rows, now, n).contains(due_ref(rows, i)),
    decreases n,
{
    if n > 0 {
        law_which_secrets_are_due(rows, now, n - 1, g);
        let rest = due_among(rows, now, n - 1);
        let all = due_among(rows, now, n);
        let last = rows[n - 1];
        law_what_is_told_of_a_secret(rows, last.project_id@, last.name@);
        assert forall|k: int| 0 <= k < all.len() implies exists|i: int|
            0 <= i < n && told_due(#[trigger] rows[i], rows, now) && due_ref(rows, i)
                == #[trigger] all[k] by {
            if k < rest.len() {
                assert(all[k] == rest[k]);
                let i = choose|i: int|
                    0 <= i < n - 1 && told_due(#[trigger] rows[i], rows, now) && due_ref(rows, i)
                        == rest[k];
                assert(told_due(rows[i], rows, now) && all[k] == due_ref(rows, i));
            } else {
                assert(told_due(rows[n - 1], rows, now) && all[k] == due_ref(rows, n - 1));
            }
        }
        assert forall|i: int|
            0 <= i < n && first_row(rows, i) && told_due(
                #[trigger] rows[i],
                rows,
                now,
            ) implies all.contains(due_ref(rows, i)) by {
            if i < n - 1 {
                assert(rest.contains(due_ref(rows, i)));
                let k = choose|k: int| 0 <= k < rest.len() && rest[k] == due_ref(rows, i);
                assert(all[k] == due_ref(rows, i));
            } else {
                assert(all[rest.len() as int] == due_ref(rows, i));
            }
        }
    }
}

/// Whether the secret of a row is due.
pub open spec fn told_due(r: SecretRow, rows: Seq<SecretRow>, now: Seq<char>) -> bool {
    group_of(rows, r.project_id@, r.name@) is Some && {
        let g = group_of(rows, r.project_id@, r.name@)->0;
        let since = if g.rotated_at is Some {
            g.rotated_at->0
        } else {
            g.created_at
        };
        interval_of(g.meta) is Some && days_passed(now, since, interval_of(g.meta)->0 as int)
    }
}

/// The reference of the secret of a row.
pub open spec fn due_ref(rows: Seq<SecretRow>, i: int) -> RefView {
    RefView {
        store: "builtin"@,
        path: rows[i].project_id@ + "/"@ + rows[i].name@,
        version: group_of(rows, rows[i].project_id@, rows[i].name@)->0.version,
    }
}

/// What reading a path gives is what the highest version of the secret opens to, as text;
/// nothing is found where the secret has no version.
pub proof fn law_what_a_path_reads(
    store: BuiltinSecretStore,
    project_id: Seq<char>,
    name: Seq<char>,
    k: int,
)
    requires
        !project_id.contains('/'),
    ensures
        latest(store.rows@, project_id, name) is None ==> store.value_at(
            path_of(project_id, name),
        ) == Err::<Seq<char>, ProvisionFault>(
            ProvisionFault::RefNotFound(project_id + "/"@ + name),
        ),
        latest(store.rows@, project_id, name) == Some(k) && store.value_at(
            path_of(project_id, name),
        ) is Ok ==> ({
            let got = store.value_at(path_of(project_id, name))->Ok_0;
            let plain = opened(store.key@, store.rows@[k].sealed, "decrypt secret: "@);
            plain is Ok && utf8_read(plain->Ok_0) == Ok::<Seq<char>, Seq<char>>(got)
        }),
{
    law_paths_come_apart(project_id, name);
}

/// What is told of a project's secrets is theirs: the name, the version and the times of
/// the secret, and the interval of its latest version, never a value.
pub proof fn law_what_a_listing_tells(info: SecretInfo, rows: Seq<SecretRow>, project_id: Seq<char>)
    requires
        info_matches(info, rows, project_id),
    ensures
        info.project_id@ == project_id,
        latest(rows, project_id, info.name@) is Some,
        info.version == rows[latest(rows, project_id, info.name@)->0].version,
        info.rotation_interval_days == interval_of(
            rows[latest(rows, project_id, info.name@)->0].meta@,
        ),
{
    law_latest_version_counts(rows, project_id, info.name@);
}

} // verus!
