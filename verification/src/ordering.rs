//! Putting places in order: each is put behind all that it does not come before,
//! so that those of one rank keep the order in which they came.
use vstd::prelude::*;

verus! {

/// Where a place goes among places in order.
pub open spec fn slot(order: Seq<int>, i: int, less: spec_fn(int, int) -> bool) -> int
    decreases order.len(),
{
    if order.len() == 0 {
        0
    } else if less(i, order.last()) {
        slot(order.drop_last(), i, less)
    } else {
        order.len() as int
    }
}

/// Places in order.
pub open spec fn arranged(places: Seq<int>, less: spec_fn(int, int) -> bool) -> Seq<int>
    decreases places.len(),
{
    if places.len() == 0 {
        Seq::empty()
    } else {
        let rest = arranged(places.drop_last(), less);
        rest.insert(slot(rest, places.last(), less), places.last())
    }
}

/// A relation by which the places of a list can be put in order.
pub open spec fn orders(places: Seq<int>, less: spec_fn(int, int) -> bool) -> bool {
    &&& forall|a: int, b: int|
        places.contains(a) && places.contains(b) && #[trigger] less(a, b) ==> !less(b, a)
    &&& forall|a: int, b: int, c: int|
        places.contains(a) && places.contains(b) && places.contains(c) && !(#[trigger] less(b, a))
            && !(#[trigger] less(c, b)) ==> !less(c, a)
}

/// Whether no place comes before one that stands in front of it.
pub open spec fn in_order(order: Seq<int>, less: spec_fn(int, int) -> bool) -> bool {
    forall|k: int, l: int|
        0 <= k < l < order.len() ==> !less(#[trigger] order[l], #[trigger] order[k])
}

/// A slot is a place to put something.
pub proof fn lemma_slot(order: Seq<int>, i: int, less: spec_fn(int, int) -> bool)
    ensures
        0 <= slot(order, i, less) <= order.len(),
    decreases order.len(),
{
    if order.len() > 0 {
        lemma_slot(order.drop_last(), i, less);
    }
}

/// The slot below which a search from the end stops.
pub proof fn lemma_slot_found(
    order: Seq<int>,
    at: int,
    i: int,
    less: spec_fn(int, int) -> bool,
)
    requires
        0 <= at <= order.len(),
        at > 0 ==> !less(i, order[at - 1]),
        forall|k: int| at <= k < order.len() ==> less(i, #[trigger] order[k]),
    ensures
        slot(order, i, less) == at,
    decreases order.len(),
{
    if order.len() > 0 {
        assert(order.last() == order[order.len() - 1]);
        if at < order.len() {
            let t = order.drop_last();
            assert forall|k: int| at <= k < t.len() implies less(i, #[trigger] t[k]) by {
                assert(t[k] == order[k]);
            }
            lemma_slot_found(t, at, i, less);
        }
    }
}

/// What is in order holds what it was made of.
pub proof fn lemma_arranged(places: Seq<int>, less: spec_fn(int, int) -> bool)
    ensures
        arranged(places, less).len() == places.len(),
        forall|p: int| #[trigger] arranged(places, less).contains(p) <==> places.contains(p),
    decreases places.len(),
{
    if places.len() > 0 {
        let t = places.drop_last();
        let rest = arranged(t, less);
        let last = places.last();
        let at = slot(rest, last, less);
        lemma_arranged(t, less);
        lemma_slot(rest, last, less);
        let all = arranged(places, less);
        assert forall|p: int| #[trigger] all.contains(p) <==> places.contains(p) by {
            if all.contains(p) {
                let k = choose|k: int| 0 <= k < all.len() && all[k] == p;
                if k < at {
                    assert(rest[k] == p);
                    assert(rest.contains(p));
                    let j = choose|j: int| 0 <= j < t.len() && t[j] == p;
                    assert(places[j] == p);
                } else if k == at {
                    assert(places[places.len() - 1] == p);
                } else {
                    assert(rest[k - 1] == p);
                    assert(rest.contains(p));
                    let j = choose|j: int| 0 <= j < t.len() && t[j] == p;
                    assert(places[j] == p);
                }
            }
            if places.contains(p) {
                let j = choose|j: int| 0 <= j < places.len() && places[j] == p;
                if j < t.len() {
                    assert(t[j] == p);
                    assert(t.contains(p));
                    assert(rest.contains(p));
                    let k = choose|k: int| 0 <= k < rest.len() && rest[k] == p;
                    if k < at {
                        assert(all[k] == p);
                    } else {
                        assert(all[k + 1] == p);
                    }
                } else {
                    assert(all[at] == p);
                }
            }
        }
    }
}

proof fn lemma_slot_is_right(
    places: Seq<int>,
    order: Seq<int>,
    i: int,
    less: spec_fn(int, int) -> bool,
)
    requires
        orders(places, less),
        in_order(order, less),
        places.contains(i),
        forall|k: int| 0 <= k < order.len() ==> places.contains(#[trigger] order[k]),
    ensures
        0 <= slot(order, i, less) <= order.len(),
        forall|k: int| 0 <= k < slot(order, i, less) ==> !less(i, #[trigger] order[k]),
        forall|k: int| slot(order, i, less) <= k < order.len() ==> less(i, #[trigger] order[k]),
    decreases order.len(),
{
    if order.len() > 0 {
        let n = order.len() - 1;
        let t = order.drop_last();
        if less(i, order.last()) {
            assert(in_order(t, less)) by {
                assert forall|k: int, l: int| 0 <= k < l < t.len() implies !less(
                    #[trigger] t[l],
                    #[trigger] t[k],
                ) by {
                    assert(t[l] == order[l] && t[k] == order[k]);
                }
            }
            assert forall|k: int| 0 <= k < t.len() implies places.contains(#[trigger] t[k]) by {
                assert(t[k] == order[k]);
            }
            lemma_slot_is_right(places, t, i, less);
            let at = slot(order, i, less);
            assert forall|k: int| 0 <= k < at implies !less(i, #[trigger] order[k]) by {
                assert(t[k] == order[k]);
            }
            assert forall|k: int| at <= k < order.len() implies less(i, #[trigger] order[k]) by {
                if k < n {
                    assert(t[k] == order[k]);
                }
            }
        } else {
            assert forall|k: int| 0 <= k < order.len() implies !less(i, #[trigger] order[k]) by {
                if k < n {
                    assert(places.contains(order[n]) && places.contains(order[k]));
                    assert(!less(order[n], order[k]));
                }
            }
        }
    }
}

/// What is put in order by a relation that orders it is in order.
pub proof fn law_arranged_is_in_order(places: Seq<int>, less: spec_fn(int, int) -> bool)
    requires
        orders(places, less),
    ensures
        in_order(arranged(places, less), less),
    decreases places.len(),
{
    if places.len() > 0 {
        let t = places.drop_last();
        let rest = arranged(t, less);
        let i = places.last();
        assert(places.contains(i)) by {
            assert(places[places.len() - 1] == i);
        }
        assert forall|p: int| #[trigger] t.contains(p) implies places.contains(p) by {
            let j = choose|j: int| 0 <= j < t.len() && t[j] == p;
            assert(places[j] == p);
        }
        assert(orders(t, less));
        law_arranged_is_in_order(t, less);
        lemma_arranged(t, less);
        assert forall|k: int| 0 <= k < rest.len() implies places.contains(#[trigger] rest[k]) by {
            assert(rest.contains(rest[k]));
        }
        lemma_slot_is_right(places, rest, i, less);
        let at = slot(rest, i, less);
        let all = arranged(places, less);
        assert forall|k: int, l: int| 0 <= k < l < all.len() implies !less(
            #[trigger] all[l],
            #[trigger] all[k],
        ) by {
            if l < at {
                assert(all[k] == rest[k] && all[l] == rest[l]);
            } else if l == at {
                assert(all[k] == rest[k]);
            } else if k < at {
                assert(all[k] == rest[k] && all[l] == rest[l - 1]);
            } else if k == at {
                assert(all[l] == rest[l - 1]);
                assert(places.contains(rest[l - 1]));
                assert(less(i, rest[l - 1]));
            } else {
                assert(all[k] == rest[k - 1] && all[l] == rest[l - 1]);
            }
        }
    }
}

/// A list of places that one more is added to, or not, holds what it held and that one.
pub proof fn lemma_one_more_place(rest: Seq<int>, all: Seq<int>, n: int, taken: bool)
    requires
        all == if taken {
            rest.push(n)
        } else {
            rest
        },
        forall|i: int| 0 <= i < rest.len() ==> 0 <= #[trigger] rest[i] < n,
        n >= 0,
    ensures
        forall|k: int| k != n ==> (#[trigger] all.contains(k) <==> rest.contains(k)),
        all.contains(n) <==> taken,
        forall|i: int| 0 <= i < all.len() ==> 0 <= #[trigger] all[i] <= n,
{
    assert forall|k: int| k != n implies (#[trigger] all.contains(k) <==> rest.contains(k)) by {
        if all.contains(k) {
            let i = choose|i: int| 0 <= i < all.len() && all[i] == k;
            assert(rest[i] == k);
        }
        if rest.contains(k) {
            let i = choose|i: int| 0 <= i < rest.len() && rest[i] == k;
            assert(all[i] == k);
        }
    }
    if taken {
        assert(all[rest.len() as int] == n);
    } else if all.contains(n) {
        let i = choose|i: int| 0 <= i < all.len() && all[i] == n;
        assert(rest[i] == n);
    }
}

/// The front of what is in order is in order.
pub proof fn lemma_at_most_in_order(order: Seq<int>, n: int, less: spec_fn(int, int) -> bool)
    requires
        in_order(order, less),
        n >= 0,
    ensures
        in_order(at_most(order, n), less),
{
    let front = at_most(order, n);
    assert forall|k: int, l: int| 0 <= k < l < front.len() implies !less(
        #[trigger] front[l],
        #[trigger] front[k],
    ) by {
        assert(front[l] == order[l] && front[k] == order[k]);
    }
}

/// Places by their numbers.
pub open spec fn numbers(places: Seq<usize>) -> Seq<int> {
    Seq::new(places.len(), |k: int| places[k] as int)
}

/// Puts one more place in at a slot.
pub(crate) fn put_at(order: &mut Vec<usize>, at: usize, i: usize)
    requires
        at <= old(order)@.len(),
    ensures
        final(order)@ == old(order)@.insert(at as int, i),
        numbers(final(order)@) == numbers(old(order)@).insert(at as int, i as int),
{
    let ghost was = numbers(order@);
    order.insert(at, i);
    assert(numbers(order@) =~= was.insert(at as int, i as int));
}

/// The first `n` of a list, or all where there are fewer.
pub open spec fn at_most(order: Seq<int>, n: int) -> Seq<int> {
    if order.len() <= n {
        order
    } else {
        order.take(n)
    }
}

/// Keeps the first places of a list.
pub(crate) fn keep_first(order: Vec<usize>, n: usize) -> (r: Vec<usize>)
    ensures
        numbers(r@) == at_most(numbers(order@), n as int),
        r@.len() <= order@.len(),
        forall|k: int| 0 <= k < r@.len() ==> #[trigger] r@[k] == order@[k],
{
    let mut order = order;
    let ghost full = numbers(order@);
    if order.len() > n {
        order.truncate(n);
        assert(numbers(order@) =~= full.take(n as int));
    }
    order
}

} // verus!
