//! The append-only version history of documents. Each document, by type and
//! slug, has its own sequence of version numbers from one.
use vstd::prelude::*;

use crate::json::Json;
use crate::ordering::{
    arranged, in_order, law_arranged_is_in_order, lemma_arranged, lemma_one_more_place,
    lemma_slot_found, numbers, put_at, slot,
};
use crate::text::text_eq;

verus! {

/// One recorded version of a document.
#[derive(Debug)]
pub struct Version {
    pub version: i64,
    pub action: String,
    pub author: String,
    pub changed_at: String,
    pub snapshot: Json,
}

/// A row of the history.
#[derive(Debug)]
pub struct VersionRow {
    pub doc_type: String,
    pub slug: String,
    pub entry: Version,
}

/// The history of all documents.
#[derive(Debug)]
pub struct Versions {
    rows: Vec<VersionRow>,
}

/// Whether a row belongs to a document.
pub open spec fn about(r: VersionRow, doc_type: Seq<char>, slug: Seq<char>) -> bool {
    r.doc_type@ == doc_type && r.slug@ == slug
}

/// The greatest version of a document; zero without one.
pub open spec fn latest(rows: Seq<VersionRow>, doc_type: Seq<char>, slug: Seq<char>) -> int
    decreases rows.len(),
{
    if rows.len() == 0 {
        0
    } else {
        let rest = latest(rows.drop_last(), doc_type, slug);
        let r = rows.last();
        if about(r, doc_type, slug) && r.entry.version > rest {
            r.entry.version as int
        } else {
            rest
        }
    }
}

/// The versions of a document that the history holds, oldest first.
pub open spec fn versions_of(
    rows: Seq<VersionRow>,
    doc_type: Seq<char>,
    slug: Seq<char>,
) -> Seq<int>
    decreases rows.len(),
{
    if rows.len() == 0 {
        Seq::empty()
    } else {
        let rest = versions_of(rows.drop_last(), doc_type, slug);
        if about(rows.last(), doc_type, slug) {
            rest.push(rows.last().entry.version as int)
        } else {
            rest
        }
    }
}

/// The places of a document's rows.
pub open spec fn places_of(
    rows: Seq<VersionRow>,
    doc_type: Seq<char>,
    slug: Seq<char>,
) -> Seq<int>
    decreases rows.len(),
{
    if rows.len() == 0 {
        Seq::empty()
    } else {
        let rest = places_of(rows.drop_last(), doc_type, slug);
        if about(rows.last(), doc_type, slug) {
            rest.push(rows.len() - 1)
        } else {
            rest
        }
    }
}

/// The order of rows, by their places: the greater version first.
pub open spec fn by_version(rows: Seq<VersionRow>) -> spec_fn(int, int) -> bool {
    |a: int, b: int| rows[b].entry.version < rows[a].entry.version
}

/// The places of a document's rows, from the greatest version down.
pub open spec fn told(rows: Seq<VersionRow>, doc_type: Seq<char>, slug: Seq<char>) -> Seq<int> {
    arranged(places_of(rows, doc_type, slug), by_version(rows))
}

impl View for Versions {
    type V = Seq<VersionRow>;

    closed spec fn view(&self) -> Seq<VersionRow> {
        self.rows@
    }
}

impl Versions {
    /// An empty history.
    pub fn new() -> (r: Versions)
        ensures
            r@ == Seq::<VersionRow>::empty(),
    {
        Versions { rows: Vec::new() }
    }

    /// A history of stored rows.
    pub fn from_rows(rows: Vec<VersionRow>) -> (r: Versions)
        ensures
            r@ == rows@,
    {
        Versions { rows }
    }

    /// The rows of the history, in order.
    pub fn rows(&self) -> (r: &Vec<VersionRow>)
        ensures
            r@ == self@,
    {
        &self.rows
    }

    /// The greatest version of a document.
    pub fn current(&self, doc_type: &str, slug: &str) -> (r: i64)
        ensures
            r == latest(self@, doc_type@, slug@),
            r >= 0,
    {
        let mut best: i64 = 0;
        let mut i: usize = 0;
        while i < self.rows.len()
            invariant
                i <= self.rows@.len(),
                best >= 0,
                best == latest(self.rows@.take(i as int), doc_type@, slug@),
            decreases self.rows.len() - i,
        {
            assert(self.rows@.take(i + 1).drop_last() =~= self.rows@.take(i as int));
            let r = &self.rows[i];
            if text_eq(r.doc_type.as_str(), doc_type) && text_eq(r.slug.as_str(), slug)
                && r.entry.version > best {
                best = r.entry.version;
            }
            i = i + 1;
        }
        assert(self.rows@.take(self.rows@.len() as int) =~= self.rows@);
        best
    }

    /// Appends the next version of a document and returns its number: one more
    /// than the greatest so far.
    pub fn append(
        &mut self,
        doc_type: &str,
        slug: &str,
        action: &str,
        author: &str,
        snapshot: Json,
        now: &str,
    ) -> (r: i64)
        requires
            latest(old(self)@, doc_type@, slug@) < i64::MAX,
        ensures
            r == latest(old(self)@, doc_type@, slug@) + 1,
            final(self)@.len() == old(self)@.len() + 1,
            final(self)@.drop_last() == old(self)@,
            ({
                let row = final(self)@.last();
                &&& about(row, doc_type@, slug@)
                &&& row.entry.version == r
                &&& row.entry.action@ == action@
                &&& row.entry.author@ == author@
                &&& row.entry.changed_at@ == now@
                &&& row.entry.snapshot == snapshot
            }),
    {
        let version: i64 = self.current(doc_type, slug) + 1;
        let ghost start = self.rows@;
        self.rows.push(
            VersionRow {
                doc_type: doc_type.to_owned(),
                slug: slug.to_owned(),
                entry: Version {
                    version,
                    action: action.to_owned(),
                    author: author.to_owned(),
                    changed_at: now.to_owned(),
                    snapshot,
                },
            },
        );
        assert(self.rows@.drop_last() =~= start);
        version
    }

    /// The recorded versions of a document, newest first.
    pub fn history(&self, doc_type: &str, slug: &str) -> (r: Vec<&Version>)
        ensures
            r@.len() == told(self@, doc_type@, slug@).len(),
            forall|i: int|
                0 <= i < r@.len() ==> *(#[trigger] r@[i]) == self@[told(
                    self@,
                    doc_type@,
                    slug@,
                )[i]].entry,
    {
        let ghost less = by_version(self.rows@);
        let ghost rows = self.rows@;
        let mut order: Vec<usize> = Vec::new();
        let mut i: usize = 0;
        assert(rows.take(0) =~= Seq::empty());
        assert(numbers(order@) =~= Seq::empty());
        while i < self.rows.len()
            invariant
                i <= self.rows@.len(),
                rows == self.rows@,
                less == by_version(rows),
                numbers(order@) == arranged(
                    places_of(rows.take(i as int), doc_type@, slug@),
                    less,
                ),
                forall|k: int| 0 <= k < order@.len() ==> (#[trigger] order@[k]) < i,
            decreases self.rows.len() - i,
        {
            let ghost found = places_of(rows.take(i as int), doc_type@, slug@);
            assert(rows.take(i + 1).drop_last() =~= rows.take(i as int));
            let r = &self.rows[i];
            if text_eq(r.doc_type.as_str(), doc_type) && text_eq(r.slug.as_str(), slug) {
                let mut at: usize = order.len();
                while at > 0 && self.rows[order[at - 1]].entry.version < self.rows[i].entry.version
                    invariant
                        at <= order@.len(),
                        i < self.rows@.len(),
                        rows == self.rows@,
                        less == by_version(rows),
                        forall|k: int| 0 <= k < order@.len() ==> (#[trigger] order@[k]) < i,
                        forall|k: int|
                            at <= k < order@.len() ==> less(i as int, #[trigger] numbers(order@)[k]),
                    decreases at,
                {
                    assert(numbers(order@)[at - 1] == order@[at - 1] as int);
                    at = at - 1;
                }
                proof {
                    if at > 0 {
                        assert(numbers(order@)[at - 1] == order@[at - 1] as int);
                    }
                    lemma_slot_found(numbers(order@), at as int, i as int, less);
                    assert(found.push(i as int).drop_last() =~= found);
                }
                let ghost was = order@;
                put_at(&mut order, at, i);
                proof {
                    assert forall|k: int| 0 <= k < order@.len() implies (#[trigger] order@[k])
                        < i + 1 by {
                        if k < at {
                            assert(order@[k] == was[k]);
                        } else if k > at {
                            assert(order@[k] == was[k - 1]);
                        }
                    }
                }
            }
            i = i + 1;
        }
        assert(rows.take(rows.len() as int) =~= rows);
        let mut out: Vec<&Version> = Vec::new();
        let mut k: usize = 0;
        while k < order.len()
            invariant
                k <= order@.len(),
                out@.len() == k,
                rows == self.rows@,
                forall|j: int| 0 <= j < order@.len() ==> (#[trigger] order@[j]) < rows.len(),
                forall|j: int| 0 <= j < k ==> *(#[trigger] out@[j]) == rows[order@[j] as int].entry,
            decreases order.len() - k,
        {
            out.push(&self.rows[order[k]].entry);
            k = k + 1;
        }
        proof {
            assert forall|j: int| 0 <= j < out@.len() implies *(#[trigger] out@[j]) == self@[told(
                self@,
                doc_type@,
                slug@,
            )[j]].entry by {
                assert(numbers(order@)[j] == order@[j] as int);
            }
        }
        out
    }
}

/// The numbers one to `n`.
pub open spec fn counting(n: nat) -> Seq<int> {
    Seq::new(n, |i: int| i + 1)
}

/// A history in which every document's versions are numbered from one without a
/// gap.
pub open spec fn well_numbered(rows: Seq<VersionRow>) -> bool {
    forall|d: Seq<char>, s: Seq<char>|
        #[trigger] versions_of(rows, d, s) == counting(versions_of(rows, d, s).len())
}

proof fn lemma_latest_of_counted(rows: Seq<VersionRow>, d: Seq<char>, s: Seq<char>)
    requires
        versions_of(rows, d, s) == counting(versions_of(rows, d, s).len()),
    ensures
        latest(rows, d, s) == versions_of(rows, d, s).len(),
    decreases rows.len(),
{
    if rows.len() > 0 {
        let t = rows.drop_last();
        let v = versions_of(rows, d, s);
        let w = versions_of(t, d, s);
        if about(rows.last(), d, s) {
            assert(w =~= v.drop_last());
            assert(w =~= counting(w.len()));
            lemma_latest_of_counted(t, d, s);
            assert(v[v.len() - 1] == v.len());
            assert(v[v.len() - 1] == rows.last().entry.version as int);
        } else {
            lemma_latest_of_counted(t, d, s);
        }
    }
}

/// Appending keeps every document's versions numbered from one without a gap,
/// and starts no other document's sequence anew.
pub proof fn law_versions_count_up(
    rows: Seq<VersionRow>,
    after: Seq<VersionRow>,
    doc_type: Seq<char>,
    slug: Seq<char>,
)
    requires
        well_numbered(rows),
        after.len() > 0,
        after.drop_last() == rows,
        about(after.last(), doc_type, slug),
        after.last().entry.version == latest(rows, doc_type, slug) + 1,
    ensures
        well_numbered(after),
        versions_of(after, doc_type, slug).len() == versions_of(rows, doc_type, slug).len() + 1,
{
    assert forall|d: Seq<char>, s: Seq<char>| #[trigger]
        versions_of(after, d, s) == counting(versions_of(after, d, s).len()) by {
        let old_v = versions_of(rows, d, s);
        assert(old_v == counting(old_v.len()));
        if about(after.last(), d, s) {
            lemma_latest_of_counted(rows, d, s);
            assert(versions_of(after, d, s) =~= counting(old_v.len() + 1));
        }
    }
}

proof fn lemma_places(rows: Seq<VersionRow>, d: Seq<char>, s: Seq<char>)
    ensures
        places_of(rows, d, s).len() == versions_of(rows, d, s).len(),
        forall|k: int|
            0 <= k < places_of(rows, d, s).len() ==> 0 <= (#[trigger] places_of(rows, d, s)[k])
                < rows.len() && rows[places_of(rows, d, s)[k]].entry.version == versions_of(
                rows,
                d,
                s,
            )[k],
    decreases rows.len(),
{
    if rows.len() > 0 {
        let t = rows.drop_last();
        lemma_places(t, d, s);
        let p = places_of(t, d, s);
        assert forall|k: int| 0 <= k < places_of(rows, d, s).len() implies 0 <= (
        #[trigger] places_of(rows, d, s)[k]) < rows.len() && rows[places_of(
            rows,
            d,
            s,
        )[k]].entry.version == versions_of(rows, d, s)[k] by {
            if k < p.len() {
                assert(places_of(rows, d, s)[k] == p[k]);
                assert(t[p[k]] == rows[p[k]]);
            }
        }
    }
}

proof fn lemma_slot_front(order: Seq<int>, i: int, less: spec_fn(int, int) -> bool)
    requires
        forall|k: int| 0 <= k < order.len() ==> less(i, #[trigger] order[k]),
    ensures
        slot(order, i, less) == 0,
{
    lemma_slot_found(order, 0, i, less);
}

proof fn lemma_reversed(places: Seq<int>, less: spec_fn(int, int) -> bool)
    requires
        forall|a: int, b: int|
            0 <= a < b < places.len() ==> less(#[trigger] places[b], #[trigger] places[a]),
    ensures
        arranged(places, less) == places.reverse(),
    decreases places.len(),
{
    if places.len() > 0 {
        let t = places.drop_last();
        assert forall|a: int, b: int| 0 <= a < b < t.len() implies less(
            #[trigger] t[b],
            #[trigger] t[a],
        ) by {
            assert(t[b] == places[b] && t[a] == places[a]);
        }
        lemma_reversed(t, less);
        let rest = t.reverse();
        let last = places[places.len() - 1];
        assert forall|k: int| 0 <= k < rest.len() implies less(last, #[trigger] rest[k]) by {
            assert(rest[k] == places[t.len() - 1 - k]);
        }
        lemma_slot_front(rest, last, less);
        assert(rest.insert(0, last) =~= places.reverse());
    } else {
        assert(places.reverse() =~= Seq::empty());
    }
}

/// Versions come newest first, in whatever order the rows are stored.
pub proof fn law_history_is_in_order(rows: Seq<VersionRow>, doc_type: Seq<char>, slug: Seq<char>)
    ensures
        in_order(told(rows, doc_type, slug), by_version(rows)),
        forall|p: int| #[trigger]
            told(rows, doc_type, slug).contains(p) <==> places_of(rows, doc_type, slug).contains(p),
{
    law_arranged_is_in_order(places_of(rows, doc_type, slug), by_version(rows));
    lemma_arranged(places_of(rows, doc_type, slug), by_version(rows));
}

/// In a well-numbered history the versions come newest first: from the latest
/// number down to one.
pub proof fn law_history_is_newest_first(
    rows: Seq<VersionRow>,
    doc_type: Seq<char>,
    slug: Seq<char>,
    i: int,
)
    requires
        well_numbered(rows),
        0 <= i < told(rows, doc_type, slug).len(),
    ensures
        rows[told(rows, doc_type, slug)[i]].entry.version == latest(rows, doc_type, slug) - i,
        told(rows, doc_type, slug).len() == latest(rows, doc_type, slug),
{
    let v = versions_of(rows, doc_type, slug);
    let p = places_of(rows, doc_type, slug);
    let less = by_version(rows);
    assert(v == counting(v.len()));
    lemma_latest_of_counted(rows, doc_type, slug);
    lemma_places(rows, doc_type, slug);
    assert forall|a: int, b: int| 0 <= a < b < p.len() implies less(
        #[trigger] p[b],
        #[trigger] p[a],
    ) by {
        assert(rows[p[a]].entry.version == v[a] && rows[p[b]].entry.version == v[b]);
    }
    lemma_reversed(p, less);
    assert(p.reverse()[i] == p[p.len() - 1 - i]);
}

/// The greatest version of a document is one of its own that none of its own is above, or
/// zero where it has none above zero; the versions of other documents do not count.
pub proof fn law_latest_is_the_documents_greatest(
    rows: Seq<VersionRow>,
    doc_type: Seq<char>,
    slug: Seq<char>,
)
    ensures
        latest(rows, doc_type, slug) >= 0,
        forall|i: int|
            0 <= i < rows.len() && (#[trigger] rows[i]).doc_type@ == doc_type && rows[i].slug@
                == slug ==> rows[i].entry.version <= latest(rows, doc_type, slug),
        latest(rows, doc_type, slug) > 0 ==> exists|i: int|
            0 <= i < rows.len() && (#[trigger] rows[i]).doc_type@ == doc_type && rows[i].slug@
                == slug && rows[i].entry.version == latest(rows, doc_type, slug),
    decreases rows.len(),
{
    if rows.len() > 0 {
        let t = rows.drop_last();
        law_latest_is_the_documents_greatest(t, doc_type, slug);
        let was = latest(t, doc_type, slug);
        let now = latest(rows, doc_type, slug);
        assert forall|i: int|
            0 <= i < rows.len() && (#[trigger] rows[i]).doc_type@ == doc_type && rows[i].slug@
                == slug implies rows[i].entry.version <= now by {
            if i < t.len() {
                assert(t[i] == rows[i]);
            }
        }
        if now > 0 && now == was {
            let i = choose|i: int|
                0 <= i < t.len() && (#[trigger] t[i]).doc_type@ == doc_type && t[i].slug@ == slug
                    && t[i].entry.version == was;
            assert(rows[i].doc_type@ == doc_type && rows[i].slug@ == slug && rows[i].entry.version
                == now);
        } else if now > 0 {
            let i = rows.len() - 1;
            assert(rows[i].doc_type@ == doc_type && rows[i].slug@ == slug && rows[i].entry.version
                == now);
        }
    }
}

/// The history of a document has exactly its own rows, from the greatest version down.
pub proof fn law_history_is_the_documents_own(
    rows: Seq<VersionRow>,
    doc_type: Seq<char>,
    slug: Seq<char>,
)
    ensures
        forall|k: int|
            0 <= k < rows.len() ==> (#[trigger] told(rows, doc_type, slug).contains(k)
                <==> rows[k].doc_type@ == doc_type && rows[k].slug@ == slug),
        forall|i: int, j: int|
            0 <= i < j < told(rows, doc_type, slug).len() ==> rows[#[trigger] told(
                rows,
                doc_type,
                slug,
            )[i]].entry.version >= rows[#[trigger] told(rows, doc_type, slug)[j]].entry.version,
{
    law_history_is_in_order(rows, doc_type, slug);
    lemma_places_are_own(rows, doc_type, slug);
    let order = told(rows, doc_type, slug);
    assert forall|i: int, j: int| 0 <= i < j < order.len() implies rows[#[trigger] order[i]].entry.version
        >= rows[#[trigger] order[j]].entry.version by {
        assert(!by_version(rows)(order[j], order[i]));
    }
}

proof fn lemma_places_are_own(rows: Seq<VersionRow>, doc_type: Seq<char>, slug: Seq<char>)
    ensures
        forall|i: int|
            0 <= i < places_of(rows, doc_type, slug).len() ==> 0 <= #[trigger] places_of(
                rows,
                doc_type,
                slug,
            )[i] < rows.len(),
        forall|k: int|
            0 <= k < rows.len() ==> (#[trigger] places_of(rows, doc_type, slug).contains(k)
                <==> about(rows[k], doc_type, slug)),
    decreases rows.len(),
{
    if rows.len() > 0 {
        let t = rows.drop_last();
        lemma_places_are_own(t, doc_type, slug);
        lemma_one_more_place(
            places_of(t, doc_type, slug),
            places_of(rows, doc_type, slug),
            rows.len() - 1,
            about(rows.last(), doc_type, slug),
        );
        assert forall|k: int| 0 <= k < t.len() implies t[k] == #[trigger] rows[k] by {}
    }
}

} // verus!
