//! The connectors: what each of them is handed, and how what it answers is read.
use vstd::prelude::*;

use crate::json::{Json, JsonView};
use crate::provision::context::text_map;
use crate::sorted_map::SortedMap;

pub mod exec;
pub mod litellm;
pub mod terraform;

verus! {

/// A set of tags as JSON.
pub open spec fn tags_object(tags: Map<Seq<char>, Seq<char>>) -> Map<Seq<char>, JsonView> {
    tags.map_values(|s: Seq<char>| JsonView::Str(s))
}

/// A set of tags as JSON.
pub fn tags_json(tags: &SortedMap<String>) -> (r: Json)
    ensures
        r@ == JsonView::Object(tags_object(text_map(tags@))),
{
    let keys = tags.keys();
    let n: usize = keys.len();
    let ghost names = tags.names();
    let mut out = Json::object();
    let mut i: usize = 0;
    while i < n
        invariant
            i <= n,
            n == names.len(),
            names == tags.names(),
            out@ is Object,
            forall|k: Seq<char>| tags@.contains_key(k) <==> #[trigger] names.contains(k),
            forall|k: Seq<char>| #[trigger]
                out@->Object_0.contains_key(k) ==> tags@.contains_key(k) && out@->Object_0[k]
                    == JsonView::Str(tags@[k]@),
            forall|j: int| 0 <= j < i ==> out@->Object_0.contains_key(#[trigger] names[j]),
        decreases n - i,
    {
        let key = tags.key_at(i);
        let value = tags.value_at(i);
        out.insert_str(key, value.as_str());
        i = i + 1;
    }
    proof {
        let got = out@->Object_0;
        let want = tags_object(text_map(tags@));
        assert forall|k: Seq<char>| #[trigger] got.dom().contains(k) == want.dom().contains(k) by {
            if want.dom().contains(k) {
                assert(names.contains(k));
                let j = choose|j: int| 0 <= j < names.len() && names[j] == k;
                assert(got.contains_key(names[j]));
            }
            if got.dom().contains(k) {
                assert(got.contains_key(k));
            }
        }
        assert forall|k: Seq<char>| #[trigger] got.dom().contains(k) implies got[k] == want[k] by {
            assert(got.contains_key(k));
        }
        assert(got =~= want);
    }
    out
}

} // verus!
