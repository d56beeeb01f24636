//! JSON values: the data the library reads and builds where a request, a
//! manifest or a reply is structured.
use vstd::prelude::*;

use crate::text::{
    decimal_int, decimal_int_text, int_written, law_integers_read_back, lemma_take_more, read_int, text_eq, texts,
};

verus! {

/// A JSON value. A number is held by its writing.
#[derive(Debug)]
pub enum Json {
    Null,
    Bool(bool),
    Number(String),
    Str(String),
    Array(Vec<Json>),
    Object(Vec<Member>),
}

/// One member of a JSON object.
#[derive(Debug)]
pub struct Member {
    pub key: String,
    pub value: Json,
}

/// What a JSON value means: an array is a sequence, an object a map.
pub enum JsonView {
    Null,
    Bool(bool),
    Number(Seq<char>),
    Str(Seq<char>),
    Array(Seq<JsonView>),
    Object(Map<Seq<char>, JsonView>),
}

/// The meaning of a JSON value.
pub open spec fn json_view(j: Json) -> JsonView
    decreases j,
{
    match j {
        Json::Null => JsonView::Null,
        Json::Bool(b) => JsonView::Bool(b),
        Json::Number(n) => JsonView::Number(n@),
        Json::Str(s) => JsonView::Str(s@),
        Json::Array(v) => JsonView::Array(items_view(v@)),
        Json::Object(m) => JsonView::Object(members_view(m@)),
    }
}

/// The meanings of a list of JSON values.
pub open spec fn items_view(s: Seq<Json>) -> Seq<JsonView>
    decreases s,
{
    if s.len() == 0 {
        Seq::empty()
    } else {
        items_view(s.drop_last()).push(json_view(s[s.len() - 1]))
    }
}

/// The map that a list of members stands for; of members with one key the first
/// counts.
pub open spec fn members_view(s: Seq<Member>) -> Map<Seq<char>, JsonView>
    decreases s,
{
    if s.len() == 0 {
        Map::empty()
    } else {
        let rest = members_view(s.drop_last());
        let last = s[s.len() - 1];
        if rest.contains_key(last.key@) {
            rest
        } else {
            rest.insert(last.key@, json_view(last.value))
        }
    }
}

impl View for Json {
    type V = JsonView;

    open spec fn view(&self) -> JsonView {
        json_view(*self)
    }
}

impl JsonView {
    /// The member `key` of an object; nothing of any other value.
    pub open spec fn at(self, key: Seq<char>) -> Option<JsonView> {
        match self {
            JsonView::Object(m) => if m.contains_key(key) {
                Some(m[key])
            } else {
                None
            },
            _ => None,
        }
    }

    /// The text of a string value.
    pub open spec fn text(self) -> Option<Seq<char>> {
        match self {
            JsonView::Str(s) => Some(s),
            _ => None,
        }
    }

    /// The text of the member `key`.
    pub open spec fn text_at(self, key: Seq<char>) -> Option<Seq<char>> {
        match self.at(key) {
            Some(v) => v.text(),
            None => None,
        }
    }

    /// The text of the member `key`, or the empty text.
    pub open spec fn text_or_empty(self, key: Seq<char>) -> Seq<char> {
        match self.text_at(key) {
            Some(s) => s,
            None => Seq::empty(),
        }
    }

    /// The integer of a number that is one, in 64 bits.
    pub open spec fn integer(self) -> Option<i64> {
        match self {
            JsonView::Number(n) => int_written(n),
            _ => None,
        }
    }

    /// A value nested at most `depth` deep whose numbers are integers in 64 bits.
    pub open spec fn plain(self, depth: nat) -> bool
        decreases depth,
    {
        match self {
            JsonView::Number(n) => int_written(n) is Some,
            JsonView::Array(s) => depth > 0 && forall|i: int|
                0 <= i < s.len() ==> (#[trigger] s[i]).plain((depth - 1) as nat),
            JsonView::Object(m) => depth > 0 && forall|k: Seq<char>|
                m.contains_key(k) ==> (#[trigger] m[k]).plain((depth - 1) as nat),
            _ => true,
        }
    }

    /// Whether two values are equal: numbers by their writing, save that the two zeros
    /// with a fraction are one number.
    pub open spec fn alike(self, other: JsonView) -> bool
        decreases self,
    {
        match (self, other) {
            (JsonView::Number(a), JsonView::Number(b)) => a == b || (zero(a) && zero(b)),
            (JsonView::Array(s), JsonView::Array(t)) => s.len() == t.len() && forall|i: int|
                0 <= i < s.len() ==> (#[trigger] s[i]).alike(t[i]),
            (JsonView::Object(m), JsonView::Object(n)) => m.dom() == n.dom() && forall|k: Seq<char>|
                m.contains_key(k) ==> (#[trigger] m[k]).alike(n[k]),
            _ => self == other,
        }
    }

    /// The element `i` of an array; nothing of any other value.
    pub open spec fn item(self, i: int) -> Option<JsonView> {
        match self {
            JsonView::Array(s) => if 0 <= i < s.len() {
                Some(s[i])
            } else {
                None
            },
            _ => None,
        }
    }
}

/// A zero with a fraction, as it is written.
pub open spec fn zero(n: Seq<char>) -> bool {
    n == "0.0"@ || n == "-0.0"@
}

fn is_zero(n: &str) -> (r: bool)
    ensures
        r == zero(n@),
{
    text_eq(n, "0.0") || text_eq(n, "-0.0")
}

/// An object of integers, texts and the like, without anything nested in it.
pub open spec fn flat(m: Map<Seq<char>, JsonView>) -> bool {
    forall|k: Seq<char>| m.contains_key(k) ==> (#[trigger] m[k]).plain(0)
}

/// A flat object is plain.
pub proof fn lemma_flat_is_plain(m: Map<Seq<char>, JsonView>)
    requires
        flat(m),
    ensures
        JsonView::Object(m).plain(127),
{
    assert forall|k: Seq<char>| m.contains_key(k) implies (#[trigger] m[k]).plain(126) by {
        assert(m[k].plain(0));
    }
}

pub proof fn lemma_items_view(s: Seq<Json>)
    ensures
        items_view(s).len() == s.len(),
        forall|i: int| 0 <= i < s.len() ==> #[trigger] items_view(s)[i] == json_view(s[i]),
    decreases s.len(),
{
    if s.len() > 0 {
        lemma_items_view(s.drop_last());
        assert forall|i: int| 0 <= i < s.len() implies #[trigger] items_view(s)[i] == json_view(
            s[i],
        ) by {
            if i < s.len() - 1 {
                assert(s.drop_last()[i] == s[i]);
            }
        }
    }
}

/// The key `k` is in the map exactly when some member carries it, and then its
/// value is that of the first such member.
pub proof fn lemma_members_view(s: Seq<Member>, k: Seq<char>)
    ensures
        members_view(s).contains_key(k) <==> exists|i: int|
            0 <= i < s.len() && (#[trigger] s[i]).key@ == k,
        forall|i: int|
            0 <= i < s.len() && (#[trigger] s[i]).key@ == k && (forall|j: int|
                0 <= j < i ==> (#[trigger] s[j]).key@ != k) ==> members_view(s)[k] == json_view(
                s[i].value,
            ),
    decreases s.len(),
{
    if s.len() > 0 {
        let t = s.drop_last();
        lemma_members_view(t, k);
        let n = s.len() - 1;
        assert forall|i: int|
            0 <= i < s.len() && (#[trigger] s[i]).key@ == k && (forall|j: int|
                0 <= j < i ==> (#[trigger] s[j]).key@ != k) implies members_view(s)[k]
            == json_view(s[i].value) by {
            if i < n {
                assert(t[i] == s[i]);
                assert forall|j: int| 0 <= j < i implies (#[trigger] t[j]).key@ != k by {
                    assert(t[j] == s[j]);
                }
            } else {
                assert forall|j: int| 0 <= j < t.len() implies (#[trigger] t[j]).key@ != k by {
                    assert(t[j] == s[j]);
                }
            }
        }
        if members_view(s).contains_key(k) {
            if members_view(t).contains_key(k) {
                let i = choose|i: int| 0 <= i < t.len() && (#[trigger] t[i]).key@ == k;
                assert(s[i].key@ == k);
            } else {
                assert(s[n].key@ == k);
            }
        }
        if exists|i: int| 0 <= i < s.len() && (#[trigger] s[i]).key@ == k {
            let i = choose|i: int| 0 <= i < s.len() && (#[trigger] s[i]).key@ == k;
            if i < n {
                assert(t[i].key@ == k);
            }
        }
    }
}

proof fn lemma_members_push(s: Seq<Member>, m: Member)
    ensures
        members_view(s.push(m)) == if members_view(s).contains_key(m.key@) {
            members_view(s)
        } else {
            members_view(s).insert(m.key@, json_view(m.value))
        },
{
    assert(s.push(m).drop_last() =~= s);
}

proof fn lemma_members_update(s: Seq<Member>, i: int, m: Member)
    requires
        0 <= i < s.len(),
        s[i].key@ == m.key@,
        forall|j: int| 0 <= j < i ==> (#[trigger] s[j]).key@ != m.key@,
    ensures
        members_view(s.update(i, m)) == members_view(s).insert(m.key@, json_view(m.value)),
    decreases s.len(),
{
    let u = s.update(i, m);
    let t = s.drop_last();
    if i < s.len() - 1 {
        assert(u.drop_last() =~= t.update(i, m));
        assert forall|j: int| 0 <= j < i implies (#[trigger] t[j]).key@ != m.key@ by {
            assert(t[j] == s[j]);
        }
        lemma_members_update(t, i, m);
        let last = s[s.len() - 1];
        lemma_members_view(t, m.key@);
        assert(t[i].key@ == m.key@);
        assert(members_view(t).contains_key(m.key@));
        assert(members_view(u) =~= members_view(s).insert(m.key@, json_view(m.value)));
    } else {
        assert(u.drop_last() =~= t);
        lemma_members_view(t, m.key@);
        assert forall|j: int| 0 <= j < t.len() implies (#[trigger] t[j]).key@ != m.key@ by {
            assert(t[j] == s[j]);
        }
        assert(members_view(u) =~= members_view(s).insert(m.key@, json_view(m.value)));
    }
}

/// The position of the first member with `key`, or the number of members.
fn position_of(ms: &Vec<Member>, key: &str) -> (r: usize)
    ensures
        r <= ms@.len(),
        r < ms@.len() ==> ms@[r as int].key@ == key@,
        forall|k: int| 0 <= k < r ==> (#[trigger] ms@[k]).key@ != key@,
{
    let mut i: usize = 0;
    while i < ms.len()
        invariant
            i <= ms@.len(),
            forall|k: int| 0 <= k < i ==> (#[trigger] ms@[k]).key@ != key@,
        decreases ms.len() - i,
    {
        if text_eq(ms[i].key.as_str(), key) {
            return i;
        }
        i = i + 1;
    }
    i
}

impl Json {
    /// A string value.
    pub fn string(s: &str) -> (r: Json)
        ensures
            r@ == JsonView::Str(s@),
    {
        Json::Str(s.to_owned())
    }

    /// An integer.
    pub fn integer(n: i64) -> (r: Json)
        ensures
            r@ == JsonView::Number(decimal_int(n as int)),
            r@.integer() == Some(n),
    {
        proof {
            law_integers_read_back(n);
        }
        Json::Number(decimal_int_text(n))
    }

    /// The integer of a number that is one, in 64 bits.
    pub fn as_i64(&self) -> (r: Option<i64>)
        ensures
            r == self@.integer(),
    {
        match self {
            Json::Number(n) => {
                let r = read_int(n.as_str());
                proof {
                    match r {
                        Some(v) => law_integers_read_back(v),
                        None => {},
                    }
                }
                r
            },
            _ => None,
        }
    }

    /// An object without members.
    pub fn object() -> (r: Json)
        ensures
            r@ == JsonView::Object(Map::empty()),
    {
        let v: Vec<Member> = Vec::new();
        Json::Object(v)
    }

    /// An array of string values.
    pub fn strings(items: &Vec<String>) -> (r: Json)
        ensures
            r@ == JsonView::Array(strings_view(texts(items@))),
    {
        let mut out: Vec<Json> = Vec::new();
        let mut i: usize = 0;
        while i < items.len()
            invariant
                i <= items@.len(),
                items_view(out@) == strings_view(texts(items@)).take(i as int),
            decreases items.len() - i,
        {
            let ghost prev = out@;
            out.push(Json::Str(items[i].clone()));
            assert(out@.drop_last() =~= prev);
            i = i + 1;
            assert(json_view(out@[out@.len() - 1]) == JsonView::Str(items@[i - 1]@));
            assert(items_view(out@) =~= items_view(prev).push(JsonView::Str(items@[i - 1]@)));
            assert(items_view(out@) =~= strings_view(texts(items@)).take(i as int));
        }
        assert(strings_view(texts(items@)).take(items@.len() as int) =~= strings_view(
            texts(items@),
        ));
        Json::Array(out)
    }

    /// The member `key` of an object.
    pub fn get(&self, key: &str) -> (r: Option<&Json>)
        ensures
            match r {
                Some(j) => self@.at(key@) == Some(j@) && decreases_to!(self => j),
                None => self@.at(key@) is None,
            },
    {
        match self {
            Json::Object(ms) => {
                let i: usize = position_of(ms, key);
                proof {
                    lemma_members_view(ms@, key@);
                }
                if i < ms.len() {
                    assert(decreases_to!(self => ms));
                    assert(decreases_to!(ms => ms@[i as int]));
                    assert(decreases_to!(ms@[i as int] => ms@[i as int].value));
                    return Some(&ms[i].value);
                }
                None
            },
            _ => None,
        }
    }

    /// The text of a string value.
    pub fn as_str(&self) -> (r: Option<&str>)
        ensures
            match r {
                Some(s) => self@.text() == Some(s@),
                None => self@.text() is None,
            },
    {
        match self {
            Json::Str(s) => Some(s.as_str()),
            _ => None,
        }
    }

    /// The text of the member `key`.
    pub fn get_str(&self, key: &str) -> (r: Option<&str>)
        ensures
            match r {
                Some(s) => self@.text_at(key@) == Some(s@),
                None => self@.text_at(key@) is None,
            },
    {
        match self.get(key) {
            Some(v) => v.as_str(),
            None => None,
        }
    }

    /// The text of the member `key`, or the empty text.
    pub fn get_str_or_empty(&self, key: &str) -> (r: String)
        ensures
            r@ == self@.text_or_empty(key@),
    {
        match self.get_str(key) {
            Some(s) => s.to_owned(),
            None => String::new(),
        }
    }

    /// The element `i` of an array.
    pub fn get_item(&self, i: usize) -> (r: Option<&Json>)
        ensures
            match r {
                Some(j) => self@.item(i as int) == Some(j@),
                None => self@.item(i as int) is None,
            },
    {
        match self {
            Json::Array(v) => {
                proof {
                    lemma_items_view(v@);
                }
                if i < v.len() {
                    Some(&v[i])
                } else {
                    None
                }
            },
            _ => None,
        }
    }

    /// Sets the member `key` of an object, in place of a member it has already;
    /// any other value stays as it is.
    pub fn insert(&mut self, key: &str, value: Json)
        ensures
            final(self)@ == match old(self)@ {
                JsonView::Object(m) => JsonView::Object(m.insert(key@, value@)),
                v => v,
            },
    {
        match self {
            Json::Object(ms) => {
                let ghost before = ms@;
                let i: usize = position_of(ms, key);
                let m = Member { key: key.to_owned(), value };
                if i < ms.len() {
                    proof {
                        lemma_members_update(before, i as int, m);
                    }
                    ms[i] = m;
                } else {
                    proof {
                        lemma_members_push(before, m);
                        lemma_members_view(before, key@);
                    }
                    ms.push(m);
                }
            },
            _ => {},
        }
    }

    /// Sets the member `key` to a text.
    pub fn insert_str(&mut self, key: &str, value: &str)
        ensures
            final(self)@ == match old(self)@ {
                JsonView::Object(m) => JsonView::Object(m.insert(key@, JsonView::Str(value@))),
                v => v,
            },
    {
        self.insert(key, Json::string(value));
    }

    /// The keys of an object's members; none of any other value.
    pub fn keys(&self) -> (r: Vec<String>)
        ensures
            forall|k: Seq<char>| #[trigger] texts(r@).contains(k) <==> self@.at(k) is Some,
    {
        let mut out: Vec<String> = Vec::new();
        match self {
            Json::Object(ms) => {
                let mut i: usize = 0;
                while i < ms.len()
                    invariant
                        i <= ms@.len(),
                        out@.len() == i,
                        forall|j: int| 0 <= j < i ==> (#[trigger] out@[j])@ == ms@[j].key@,
                    decreases ms.len() - i,
                {
                    out.push(ms[i].key.clone());
                    i = i + 1;
                }
                proof {
                    assert forall|k: Seq<char>| #[trigger]
                        texts(out@).contains(k) <==> self@.at(k) is Some by {
                        lemma_members_view(ms@, k);
                        if texts(out@).contains(k) {
                            let j = choose|j: int|
                                0 <= j < texts(out@).len() && texts(out@)[j] == k;
                            assert(out@[j]@ == ms@[j].key@);
                        }
                        if members_view(ms@).contains_key(k) {
                            let j = choose|j: int| 0 <= j < ms@.len() && (#[trigger] ms@[j]).key@ == k;
                            assert(texts(out@)[j] == k);
                        }
                    }
                }
            },
            _ => {
                assert(texts(out@) =~= Seq::empty());
            },
        }
        out
    }

    /// Sets every member of another object; a value that is no object sets none.
    pub fn overlay(&mut self, other: &Json)
        ensures
            final(self)@ == match (old(self)@, other@) {
                (JsonView::Object(m), JsonView::Object(o)) => JsonView::Object(
                    m.union_prefer_right(o),
                ),
                (v, _) => v,
            },
    {
        let ghost base = self@;
        let keys = other.keys();
        let n: usize = keys.len();
        let ghost names = texts(keys@);
        let mut i: usize = 0;
        while i < n
            invariant
                i <= n,
                n == keys@.len(),
                names == texts(keys@),
                forall|k: Seq<char>| #[trigger] names.contains(k) <==> other@.at(k) is Some,
                base is Object <==> self@ is Object,
                !(base is Object) ==> self@ == base,
                base is Object ==> forall|k: Seq<char>| #[trigger]
                    self@->Object_0.contains_key(k) <==> base->Object_0.contains_key(k)
                        || names.take(i as int).contains(k),
                base is Object ==> forall|k: Seq<char>| #[trigger]
                    self@->Object_0.contains_key(k) ==> self@->Object_0[k] == if names.take(
                        i as int,
                    ).contains(k) {
                        other@.at(k)->0
                    } else {
                        base->Object_0[k]
                    },
            decreases n - i,
        {
            proof {
                lemma_take_more(names, i as int);
                assert(names.contains(names[i as int]));
            }
            match other.get(keys[i].as_str()) {
                Some(v) => {
                    let c = v.copy();
                    self.insert(keys[i].as_str(), c);
                },
                None => {
                    assert(false);
                },
            }
            i = i + 1;
        }
        proof {
            assert(names.take(n as int) =~= names);
            if base is Object && other@ is Object {
                let got = self@->Object_0;
                let want = base->Object_0.union_prefer_right(other@->Object_0);
                assert forall|k: Seq<char>| #[trigger] got.dom().contains(k)
                    == want.dom().contains(k) by {
                    assert(got.contains_key(k) == got.dom().contains(k));
                    assert(names.contains(k) <==> other@.at(k) is Some);
                }
                assert forall|k: Seq<char>| #[trigger] got.dom().contains(k) implies got[k]
                    == want[k] by {
                    assert(got.contains_key(k));
                    assert(names.contains(k) <==> other@.at(k) is Some);
                }
                assert(got =~= want);
            } else if base is Object {
                let got = self@->Object_0;
                assert forall|k: Seq<char>| #[trigger] got.dom().contains(k)
                    == base->Object_0.dom().contains(k) by {
                    assert(got.contains_key(k) == got.dom().contains(k));
                    assert(names.contains(k) <==> other@.at(k) is Some);
                }
                assert forall|k: Seq<char>| #[trigger] got.dom().contains(k) implies got[k]
                    == base->Object_0[k] by {
                    assert(got.contains_key(k));
                    assert(names.contains(k) <==> other@.at(k) is Some);
                }
                assert(got =~= base->Object_0);
            }
        }
    }

    /// Whether the value is an object.
    pub fn is_object(&self) -> (r: bool)
        ensures
            r == (self@ is Object),
    {
        match self {
            Json::Object(_) => true,
            _ => false,
        }
    }

    /// Whether the value is an object without members.
    pub fn is_empty_object(&self) -> (r: bool)
        ensures
            r == (self@ == JsonView::Object(Map::empty())),
    {
        match self {
            Json::Object(ms) => {
                proof {
                    if ms@.len() > 0 {
                        lemma_members_view(ms@, ms@[0].key@);
                        assert(members_view(ms@).contains_key(ms@[0].key@));
                    }
                }
                ms.len() == 0
            },
            _ => false,
        }
    }

    /// Whether two values are equal.
    pub fn same(&self, other: &Json) -> (r: bool)
        ensures
            r == self@.alike(other@),
        decreases self, 1nat,
    {
        match (self, other) {
            (Json::Null, Json::Null) => true,
            (Json::Bool(a), Json::Bool(b)) => *a == *b,
            (Json::Number(a), Json::Number(b)) => text_eq(a.as_str(), b.as_str()) || (is_zero(
                a.as_str(),
            ) && is_zero(b.as_str())),
            (Json::Str(a), Json::Str(b)) => text_eq(a.as_str(), b.as_str()),
            (Json::Array(a), Json::Array(b)) => {
                assert(decreases_to!(self => a));
                same_items(a, b)
            },
            (Json::Object(a), Json::Object(b)) => {
                assert(decreases_to!(self => a));
                same_members(a, b)
            },
            _ => false,
        }
    }

    /// A copy of the value.
    pub fn copy(&self) -> (r: Json)
        ensures
            r@ == self@,
        decreases self,
    {
        match self {
            Json::Null => Json::Null,
            Json::Bool(b) => Json::Bool(*b),
            Json::Number(n) => Json::Number(n.clone()),
            Json::Str(s) => Json::Str(s.clone()),
            Json::Array(v) => {
                let mut out: Vec<Json> = Vec::new();
                let mut i: usize = 0;
                while i < v.len()
                    invariant
                        i <= v@.len(),
                        items_view(out@) == items_view(v@.take(i as int)),
                        decreases_to!(self => v),
                    decreases v.len() - i,
                {
                    let ghost prev = out@;
                    assert(decreases_to!(v => v[i as int]));
                    let c = v[i].copy();
                    out.push(c);
                    i = i + 1;
                    assert(out@.drop_last() =~= prev);
                    assert(v@.take(i as int).drop_last() =~= v@.take(i - 1));
                }
                assert(v@.take(v@.len() as int) =~= v@);
                Json::Array(out)
            },
            Json::Object(ms) => {
                let mut out: Vec<Member> = Vec::new();
                let mut i: usize = 0;
                while i < ms.len()
                    invariant
                        i <= ms@.len(),
                        members_view(out@) == members_view(ms@.take(i as int)),
                        decreases_to!(self => ms),
                    decreases ms.len() - i,
                {
                    let ghost prev = out@;
                    assert(decreases_to!(ms => ms[i as int]));
                    let c = ms[i].value.copy();
                    out.push(Member { key: ms[i].key.clone(), value: c });
                    i = i + 1;
                    assert(out@.drop_last() =~= prev);
                    assert(ms@.take(i as int).drop_last() =~= ms@.take(i - 1));
                }
                assert(ms@.take(ms@.len() as int) =~= ms@);
                Json::Object(out)
            },
        }
    }
}

fn same_items(a: &Vec<Json>, b: &Vec<Json>) -> (r: bool)
    ensures
        r == JsonView::Array(items_view(a@)).alike(JsonView::Array(items_view(b@))),
    decreases a, 0nat,
{
    proof {
        lemma_items_view(a@);
        lemma_items_view(b@);
    }
    if a.len() != b.len() {
        return false;
    }
    let mut i: usize = 0;
    while i < a.len()
        invariant
            i <= a@.len() == b@.len(),
            forall|k: int| 0 <= k < i ==> json_view(#[trigger] a@[k]).alike(json_view(b@[k])),
        decreases a.len() - i,
    {
        assert(decreases_to!(a => a[i as int]));
        if !a[i].same(&b[i]) {
            proof {
                lemma_items_view(a@);
                lemma_items_view(b@);
                assert(!items_view(a@)[i as int].alike(items_view(b@)[i as int]));
            }
            return false;
        }
        i = i + 1;
    }
    proof {
        let s = items_view(a@);
        let t = items_view(b@);
        assert forall|k: int| 0 <= k < s.len() implies (#[trigger] s[k]).alike(t[k]) by {
            assert(s[k] == json_view(a@[k]) && t[k] == json_view(b@[k]));
        }
    }
    true
}

#[verifier::rlimit(40)]
#[verifier::spinoff_prover]
fn same_members(a: &Vec<Member>, b: &Vec<Member>) -> (r: bool)
    ensures
        r == JsonView::Object(members_view(a@)).alike(JsonView::Object(members_view(b@))),
    decreases a, 0nat,
{
    let mut i: usize = 0;
    while i < a.len()
        invariant
            i <= a@.len(),
            forall|k: int|
                0 <= k < i ==> members_view(b@).contains_key((#[trigger] a@[k]).key@)
                    && members_view(a@)[a@[k].key@].alike(members_view(b@)[a@[k].key@]),
        decreases a.len() - i,
    {
        let ghost key = a@[i as int].key@;
        proof {
            lemma_members_view(a@, key);
            lemma_members_view(b@, key);
        }
        let first: usize = position_of(a, a[i].key.as_str());
        let j: usize = position_of(b, a[i].key.as_str());
        if j >= b.len() {
            assert(!members_view(b@).dom().contains(key));
            assert(members_view(a@).dom().contains(key));
            return false;
        }
        assert(first <= i);
        assert(decreases_to!(a => a[first as int]));
        if !a[first].value.same(&b[j].value) {
            assert(!members_view(a@)[key].alike(members_view(b@)[key]));
            return false;
        }
        i = i + 1;
    }
    let mut j: usize = 0;
    while j < b.len()
        invariant
            j <= b@.len(),
            forall|k: int|
                0 <= k < a@.len() ==> members_view(b@).contains_key((#[trigger] a@[k]).key@)
                    && members_view(a@)[a@[k].key@].alike(members_view(b@)[a@[k].key@]),
            forall|k: int|
                0 <= k < j ==> members_view(a@).contains_key((#[trigger] b@[k]).key@),
        decreases b.len() - j,
    {
        let ghost key = b@[j as int].key@;
        proof {
            lemma_members_view(a@, key);
            lemma_members_view(b@, key);
        }
        if position_of(a, b[j].key.as_str()) >= a.len() {
            assert(!members_view(a@).dom().contains(key));
            assert(members_view(b@).dom().contains(key));
            return false;
        }
        j = j + 1;
    }
    proof {
        let m = members_view(a@);
        let n = members_view(b@);
        assert forall|k: Seq<char>| #[trigger] m.dom().contains(k) == n.dom().contains(k) by {
            lemma_members_view(a@, k);
            lemma_members_view(b@, k);
        }
        assert(m.dom() =~= n.dom());
        assert forall|k: Seq<char>| m.contains_key(k) implies (#[trigger] m[k]).alike(n[k]) by {
            lemma_members_view(a@, k);
            let i = choose|i: int| 0 <= i < a@.len() && (#[trigger] a@[i]).key@ == k;
            assert(a@[i].key@ == k);
        }
    }
    true
}

/// The string values of a list of texts.
pub open spec fn strings_view(items: Seq<Seq<char>>) -> Seq<JsonView> {
    Seq::new(items.len(), |i: int| JsonView::Str(items[i]))
}

// ---------------------------------------------------------------------------
// JSON as text
// ---------------------------------------------------------------------------

/// `serde_json::Value`, carried through between reading or writing a text and
/// the value it stands for.
#[verifier::external_type_specification]
#[verifier::external_body]
pub struct ExJsonValue(serde_json::Value);

/// What a `serde_json::Value` holds. A number counts by its writing.
pub uninterp spec fn value_meaning(v: serde_json::Value) -> JsonView;

/// What `serde_json::from_str` reads in a text: the value, or its complaint.
pub uninterp spec fn json_read(s: Seq<char>) -> Result<JsonView, Seq<char>>;

/// Whether a text is read as a value.
pub open spec fn reads_as(s: Seq<char>, j: JsonView) -> bool {
    json_read(s) matches Ok(v) && v == j
}

/// The compact text that `serde_json::Value::to_string` gives of a value.
pub uninterp spec fn json_written(j: JsonView) -> Seq<char>;

/// A value as a `serde_json::Value` holds it: its numbers as `serde_json::from_str`
/// reads them.
pub uninterp spec fn carried(j: JsonView) -> JsonView;

/// The compact JSON text of a value.
pub open spec fn json_text(j: JsonView) -> Seq<char> {
    json_written(carried(j))
}

/// `serde_json::from_str` of any JSON value. Whether the text is read, what it is
/// read as and what is complained of depend on the text alone.
#[verifier::external_body]
fn parse_value(s: &str) -> (r: Result<serde_json::Value, String>)
    ensures
        match r {
            Ok(v) => json_read(s@) == Ok::<JsonView, Seq<char>>(value_meaning(v)),
            Err(e) => json_read(s@) == Err::<JsonView, Seq<char>>(e@),
        },
{
    serde_json::from_str(s).map_err(|e| e.to_string())
}

/// Carries a `serde_json::Value` over, one for one: each variant to its like, a
/// number by its writing, an object member by member.
#[verifier::external_body]
fn from_value(v: serde_json::Value) -> (r: Json)
    ensures
        r@ == value_meaning(v),
{
    match v {
        serde_json::Value::Null => Json::Null,
        serde_json::Value::Bool(b) => Json::Bool(b),
        serde_json::Value::Number(n) => Json::Number(n.to_string()),
        serde_json::Value::String(s) => Json::Str(s),
        serde_json::Value::Array(a) => Json::Array(a.into_iter().map(from_value).collect()),
        serde_json::Value::Object(m) => Json::Object(
            m.into_iter().map(|(key, v)| Member { key, value: from_value(v) }).collect(),
        ),
    }
}

/// Carries a value over to a `serde_json::Value`, one for one; a number is read
/// from its writing by `serde_json::from_str`, and stands as null where that
/// refuses it, and of members with one key the first counts. What is carried
/// depends on what the value means alone, and it is the value itself where its
/// numbers are integers in 64 bits.
#[verifier::external_body]
fn to_value(j: &Json) -> (r: serde_json::Value)
    ensures
        value_meaning(r) == carried(j@),
        j@.plain(127) ==> value_meaning(r) == j@,
{
    match j {
        Json::Null => serde_json::Value::Null,
        Json::Bool(b) => serde_json::Value::Bool(*b),
        Json::Number(n) => serde_json::from_str(n).unwrap_or(serde_json::Value::Null),
        Json::Str(s) => serde_json::Value::String(s.clone()),
        Json::Array(a) => serde_json::Value::Array(a.iter().map(to_value).collect()),
        Json::Object(m) => serde_json::Value::Object(
            m.iter().rev().map(|m| (m.key.clone(), to_value(&m.value))).collect(),
        ),
    }
}

/// `serde_json::Value::to_string`: the compact text of a value, which is a function
/// of what the value holds and never empty. A value whose numbers are integers in
/// 64 bits, nested no deeper than the parser's limit of 127, is read back from it by
/// `serde_json::from_str`.
#[verifier::external_body]
fn text_of_value(v: &serde_json::Value) -> (r: String)
    ensures
        r@ == json_written(value_meaning(*v)),
        r@.len() > 0,
        value_meaning(*v).plain(127) ==> reads_as(r@, value_meaning(*v)),
{
    v.to_string()
}

impl Json {
    /// The value that a JSON text stands for, or what is wrong with the text.
    pub fn parse(s: &str) -> (r: Result<Json, String>)
        ensures
            match r {
                Ok(j) => reads_as(s@, j@),
                Err(e) => json_read(s@) == Err::<JsonView, Seq<char>>(e@),
            },
    {
        match parse_value(s) {
            Ok(v) => Ok(from_value(v)),
            Err(e) => Err(e),
        }
    }

    /// The compact JSON text of the value.
    pub fn text(&self) -> (r: String)
        ensures
            r@ == json_text(self@),
            r@.len() > 0,
            self@.plain(127) ==> reads_as(r@, self@),
    {
        text_of_value(&to_value(self))
    }
}

/// A member is read under its own key, of an object only; and a value equals itself, and
/// another text, number, truth value or null only where they are the same, save that the
/// two zeros with a fraction are one number.
pub proof fn law_members_and_equality(
    m: Map<Seq<char>, JsonView>,
    k: Seq<char>,
    a: Seq<char>,
    b: Seq<char>,
    x: bool,
    y: bool,
)
    ensures
        JsonView::Object(m).at(k) == (if m.contains_key(k) {
            Some(m[k])
        } else {
            None
        }),
        JsonView::Str(a).at(k) is None,
        m.contains_key(k) && m[k] is Str ==> JsonView::Object(m).text_at(k) == Some(m[k]->Str_0),
        !m.contains_key(k) || !(m[k] is Str) ==> JsonView::Object(m).text_at(k) is None,
        JsonView::Object(m).text_at(k) is None ==> JsonView::Object(m).text_or_empty(k).len() == 0,
        JsonView::Str(a).alike(JsonView::Str(b)) <==> a == b,
        JsonView::Bool(x).alike(JsonView::Bool(y)) <==> x == y,
        JsonView::Number(a).alike(JsonView::Number(b)) <==> a == b || ((a == "0.0"@ || a
            == "-0.0"@) && (b == "0.0"@ || b == "-0.0"@)),
        !JsonView::Str(a).alike(JsonView::Null),
        !JsonView::Str(a).alike(JsonView::Number(b)),
{
}

/// Two lists are equal where they are of one length and equal place by place, and two
/// objects where they have the same keys and are equal under each.
pub proof fn law_equality_goes_deep(
    s: Seq<JsonView>,
    t: Seq<JsonView>,
    m: Map<Seq<char>, JsonView>,
    n: Map<Seq<char>, JsonView>,
)
    ensures
        JsonView::Array(s).alike(JsonView::Array(t)) <==> s.len() == t.len() && forall|i: int|
            0 <= i < s.len() ==> (#[trigger] s[i]).alike(t[i]),
        JsonView::Object(m).alike(JsonView::Object(n)) <==> m.dom() == n.dom() && forall|k: Seq<char>|
            m.contains_key(k) ==> (#[trigger] m[k]).alike(n[k]),
{
}

} // verus!
