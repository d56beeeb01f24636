//! Groups, cost centers and the identity fields a registration carries.
use vstd::prelude::*;

use crate::registry::{RegistryError, RegistryFault};
use crate::text::{
    ascii, ascii_lower, ascii_text, contains, first_of, join, joined, law_lowercase_is_idempotent,
    lemma_first_of, lemma_trimmed_ends, lemma_trimmed_id, lowercased, occurs, parted_once, pieces, split,
    split_once, text_eq, texts, trim, trimmed, white_space,
};

verus! {

/// One group that projects may roll up to.
#[derive(Debug)]
pub struct GroupEntry {
    pub key: String,
    pub display_name: String,
    /// The finance code; the key stands in for a blank one.
    pub cost_center: String,
    pub active: bool,
}

/// What a group entry says.
pub struct GroupView {
    pub key: Seq<char>,
    pub display_name: Seq<char>,
    pub cost_center: Seq<char>,
    pub active: bool,
}

impl View for GroupEntry {
    type V = GroupView;

    open spec fn view(&self) -> GroupView {
        GroupView {
            key: self.key@,
            display_name: self.display_name@,
            cost_center: self.cost_center@,
            active: self.active,
        }
    }
}

impl GroupView {
    /// The finance code spend is attributed to.
    pub open spec fn charged_to(self) -> Seq<char> {
        if self.cost_center.len() == 0 {
            self.key
        } else {
            self.cost_center
        }
    }
}

/// The state of a group entry that does not say.
pub fn default_true() -> (r: bool)
    ensures
        r,
{
    true
}

impl GroupEntry {
    /// The finance code spend is attributed to.
    pub fn resolved_cost_center(&self) -> (r: String)
        ensures
            r@ == self@.charged_to(),
    {
        if self.cost_center.as_str().is_empty() {
            self.key.clone()
        } else {
            self.cost_center.clone()
        }
    }

    fn copy(&self) -> (r: GroupEntry)
        ensures
            r@ == self@,
    {
        GroupEntry {
            key: self.key.clone(),
            display_name: self.display_name.clone(),
            cost_center: self.cost_center.clone(),
            active: self.active,
        }
    }
}

/// The groups an operator allows. An empty list is open: it admits any group.
#[derive(Debug)]
pub struct GroupAllowlist {
    entries: Vec<GroupEntry>,
}

/// The keys of the active entries, in order.
pub open spec fn active_keys_of(entries: Seq<GroupView>) -> Seq<Seq<char>>
    decreases entries.len(),
{
    if entries.len() == 0 {
        Seq::empty()
    } else {
        let rest = active_keys_of(entries.drop_last());
        if entries.last().active {
            rest.push(entries.last().key)
        } else {
            rest
        }
    }
}

/// The first active entry with the given key.
pub open spec fn entry_for(entries: Seq<GroupView>, key: Seq<char>) -> Option<GroupView>
    decreases entries.len(),
{
    if entries.len() == 0 {
        None
    } else if entries[0].active && entries[0].key == key {
        Some(entries[0])
    } else {
        entry_for(entries.subrange(1, entries.len() as int), key)
    }
}

/// What a supplied group stands for: on an open list itself, else the first
/// active entry of that key.
pub open spec fn resolution(entries: Seq<GroupView>, group: Seq<char>) -> Result<
    GroupView,
    RegistryFault,
> {
    if entries.len() == 0 {
        Ok(GroupView { key: group, display_name: group, cost_center: group, active: true })
    } else {
        match entry_for(entries, group) {
            Some(e) => Ok(e),
            None => Err(
                RegistryFault::Validation(
                    "group '"@ + group + "' is not an allowed cost-center; choose one of: "@
                        + joined(active_keys_of(entries), ", "@),
                ),
            ),
        }
    }
}

impl View for GroupAllowlist {
    type V = Seq<GroupView>;

    closed spec fn view(&self) -> Seq<GroupView> {
        Seq::new(self.entries@.len(), |i: int| self.entries@[i]@)
    }
}

impl Default for GroupAllowlist {
    fn default() -> (r: GroupAllowlist)
        ensures
            r@ == Seq::<GroupView>::empty(),
    {
        let r = GroupAllowlist { entries: Vec::new() };
        assert(r@ =~= Seq::empty());
        r
    }
}

impl GroupAllowlist {
    /// An allowlist of the given entries.
    pub fn new(entries: Vec<GroupEntry>) -> (r: GroupAllowlist)
        ensures
            r@ == Seq::new(entries@.len(), |i: int| entries@[i]@),
    {
        GroupAllowlist { entries }
    }

    /// Whether any group is admitted.
    pub fn is_open(&self) -> (r: bool)
        ensures
            r == (self@.len() == 0),
    {
        self.entries.is_empty()
    }

    /// The entries, in order.
    pub fn entries(&self) -> (r: &[GroupEntry])
        ensures
            self@ == Seq::new(r@.len(), |i: int| r@[i]@),
    {
        self.entries.as_slice()
    }

    /// The keys of the active entries, in order.
    pub fn active_keys(&self) -> (r: Vec<String>)
        ensures
            texts(r@) == active_keys_of(self@),
    {
        let mut out: Vec<String> = Vec::new();
        let mut i: usize = 0;
        assert(texts(out@) =~= active_keys_of(self@.take(0)));
        while i < self.entries.len()
            invariant
                i <= self.entries@.len(),
                self@.len() == self.entries@.len(),
                texts(out@) == active_keys_of(self@.take(i as int)),
            decreases self.entries.len() - i,
        {
            assert(self@.take(i + 1).drop_last() =~= self@.take(i as int));
            let ghost prev = texts(out@);
            if self.entries[i].active {
                out.push(self.entries[i].key.clone());
                assert(texts(out@) =~= prev.push(self@[i as int].key));
            }
            i = i + 1;
        }
        assert(self@.take(self@.len() as int) =~= self@);
        out
    }

    /// The entry a supplied group stands for.
    pub fn resolve(&self, group: &str) -> (r: Result<GroupEntry, RegistryError>)
        ensures
            match r {
                Ok(e) => resolution(self@, group@) == Ok::<GroupView, RegistryFault>(e@),
                Err(e) => resolution(self@, group@) == Err::<GroupView, RegistryFault>(e@),
            },
    {
        if self.is_open() {
            return Ok(
                GroupEntry {
                    key: group.to_owned(),
                    display_name: group.to_owned(),
                    cost_center: group.to_owned(),
                    active: true,
                },
            );
        }
        let mut i: usize = 0;
        assert(self@.subrange(0, self@.len() as int) =~= self@);
        while i < self.entries.len()
            invariant
                i <= self.entries@.len(),
                self@.len() == self.entries@.len(),
                self@.len() > 0,
                entry_for(self@.subrange(i as int, self@.len() as int), group@) == entry_for(
                    self@,
                    group@,
                ),
            decreases self.entries.len() - i,
        {
            let e = &self.entries[i];
            assert(self@[i as int] == e@);
            let ghost tail = self@.subrange(i as int, self@.len() as int);
            assert(tail[0] == e@);
            if e.active && text_eq(e.key.as_str(), group) {
                return Ok(e.copy());
            }
            assert(tail.subrange(1, tail.len() as int) =~= self@.subrange(
                i + 1,
                self@.len() as int,
            ));
            i = i + 1;
        }
        let mut m = "group '".to_owned();
        m.append(group);
        m.append("' is not an allowed cost-center; choose one of: ");
        let keys = self.active_keys();
        let list = join(&keys, ", ");
        m.append(list.as_str());
        Err(RegistryError::Validation(m))
    }
}

/// Which optional registration fields an operator requires.
#[derive(Debug)]
pub struct RegistrationPolicy {
    /// Without it a blank manager stands for the owner.
    pub require_manager: bool,
    /// Without it a project may stay without a group.
    pub require_group: bool,
}

impl Default for RegistrationPolicy {
    fn default() -> (r: RegistrationPolicy)
        ensures
            r.require_manager,
            r.require_group,
    {
        RegistrationPolicy { require_manager: true, require_group: true }
    }
}

/// A name left over from a template.
pub open spec fn placeholder(s: Seq<char>) -> bool {
    let lc = lowercased(s);
    ||| lc == "change_me"@
    ||| lc == "replace_me"@
    ||| lc == "your project name"@
    ||| lc == "todo"@
    ||| occurs(lc, "change_me"@)
}

/// Whether a name is left over from a template.
pub fn is_placeholder(s: &str) -> (r: bool)
    ensures
        r == placeholder(s@),
{
    let lc = s.to_lowercase();
    text_eq(lc.as_str(), "change_me") || text_eq(lc.as_str(), "replace_me") || text_eq(
        lc.as_str(),
        "your project name",
    ) || text_eq(lc.as_str(), "todo") || contains(lc.as_str(), "change_me")
}

/// The shape of an address: a local part, an `@` and a domain of at least two
/// parts, none of them empty.
pub open spec fn email_shape(e: Seq<char>) -> bool {
    match parted_once(e, '@') {
        Some((local, domain)) => {
            &&& local.len() > 0
            &&& domain.len() > 0
            &&& parted_once(domain, '.') is Some
            &&& forall|i: int|
                0 <= i < pieces(domain, '.').len() ==> (#[trigger] pieces(domain, '.')[i]).len() > 0
        },
        None => false,
    }
}

/// The address a text stands for, trimmed and in lowercase, or why it is none.
pub open spec fn email(raw: Seq<char>) -> Result<Seq<char>, RegistryFault> {
    let e = lowercased(trimmed(raw));
    if email_shape(e) {
        Ok(e)
    } else {
        Err(RegistryFault::Validation("'"@ + raw + "' is not a well-formed email address"@))
    }
}

fn bad_email(raw: &str) -> (r: RegistryError)
    ensures
        r@ == RegistryFault::Validation("'"@ + raw@ + "' is not a well-formed email address"@),
{
    let mut m = "'".to_owned();
    m.append(raw);
    m.append("' is not a well-formed email address");
    RegistryError::Validation(m)
}

fn any_empty(items: &Vec<String>) -> (r: bool)
    ensures
        r == (exists|i: int| 0 <= i < items@.len() && (#[trigger] texts(items@)[i]).len() == 0),
{
    let mut i: usize = 0;
    while i < items.len()
        invariant
            i <= items@.len(),
            forall|k: int| 0 <= k < i ==> (#[trigger] texts(items@)[k]).len() > 0,
        decreases items.len() - i,
    {
        if items[i].as_str().is_empty() {
            assert(texts(items@)[i as int].len() == 0);
            return true;
        }
        assert(texts(items@)[i as int].len() > 0);
        i = i + 1;
    }
    false
}

/// Checks the form of an address and returns it trimmed and in lowercase.
pub fn normalize_email(raw: &str) -> (r: Result<String, RegistryError>)
    ensures
        match r {
            Ok(e) => email(raw@) == Ok::<Seq<char>, RegistryFault>(e@),
            Err(e) => email(raw@) == Err::<Seq<char>, RegistryFault>(e@),
        },
{
    let t = trim(raw);
    let e = t.as_str().to_lowercase();
    match split_once(e.as_str(), '@') {
        None => Err(bad_email(raw)),
        Some((local, domain)) => {
            if local.as_str().is_empty() || domain.as_str().is_empty() {
                return Err(bad_email(raw));
            }
            if split_once(domain.as_str(), '.').is_none() {
                return Err(bad_email(raw));
            }
            let parts = split(domain.as_str(), '.');
            if any_empty(&parts) {
                return Err(bad_email(raw));
            }
            assert(forall|i: int|
                0 <= i < pieces(domain@, '.').len() ==> (#[trigger] pieces(domain@, '.')[i]).len()
                    > 0);
            Ok(e)
        },
    }
}

/// An ASCII address that is taken is the trimmed text with small letters, and taking it
/// again gives it back.
pub proof fn law_address_is_normal(raw: Seq<char>)
    requires
        ascii_text(trimmed(raw)),
    ensures
        email(raw) matches Ok(e) ==> {
            &&& e == Seq::new(trimmed(raw).len(), |i: int| ascii_lower(trimmed(raw)[i]))
            &&& email(e) == email(raw)
        },
{
    let t = trimmed(raw);
    let e = lowercased(t);
    law_lowercase_is_idempotent(t);
    lemma_trimmed_ends(raw);
    if e.len() > 0 {
        assert(ascii(t[0]) && ascii(t[t.len() - 1]));
        assert(!white_space(e[0]) && !white_space(e[e.len() - 1]));
    }
    lemma_trimmed_id(e);
}

/// Every admitted group is active on the allowlist, or the allowlist is open.
pub proof fn law_allowlist_is_authoritative(entries: Seq<GroupView>, group: Seq<char>)
    ensures
        resolution(entries, group) is Ok <==> entries.len() == 0 || active_keys_of(
            entries,
        ).contains(group),
{
    lemma_entry_is_active_key(entries, group);
}

proof fn lemma_entry_is_active_key(entries: Seq<GroupView>, key: Seq<char>)
    ensures
        entry_for(entries, key) is Some <==> exists|i: int|
            0 <= i < entries.len() && (#[trigger] entries[i]).active && entries[i].key == key,
        active_keys_of(entries).contains(key) <==> exists|i: int|
            0 <= i < entries.len() && (#[trigger] entries[i]).active && entries[i].key == key,
{
    lemma_entry_exists(entries, key);
    lemma_active_key_exists(entries, key);
}

proof fn lemma_entry_exists(entries: Seq<GroupView>, key: Seq<char>)
    ensures
        entry_for(entries, key) is Some <==> exists|i: int|
            0 <= i < entries.len() && (#[trigger] entries[i]).active && entries[i].key == key,
    decreases entries.len(),
{
    if entries.len() > 0 && !(entries[0].active && entries[0].key == key) {
        let t = entries.subrange(1, entries.len() as int);
        lemma_entry_exists(t, key);
        if exists|i: int|
            0 <= i < entries.len() && (#[trigger] entries[i]).active && entries[i].key == key {
            let i = choose|i: int|
                0 <= i < entries.len() && (#[trigger] entries[i]).active && entries[i].key == key;
            assert(t[i - 1] == entries[i]);
        }
        if exists|i: int| 0 <= i < t.len() && (#[trigger] t[i]).active && t[i].key == key {
            let i = choose|i: int| 0 <= i < t.len() && (#[trigger] t[i]).active && t[i].key == key;
            assert(entries[i + 1] == t[i]);
        }
    }
}

proof fn lemma_active_key_exists(entries: Seq<GroupView>, key: Seq<char>)
    ensures
        active_keys_of(entries).contains(key) <==> exists|i: int|
            0 <= i < entries.len() && (#[trigger] entries[i]).active && entries[i].key == key,
    decreases entries.len(),
{
    if entries.len() > 0 {
        let t = entries.drop_last();
        let n = entries.len() - 1;
        lemma_active_key_exists(t, key);
        let a = active_keys_of(t);
        let b = active_keys_of(entries);
        if b.contains(key) {
            let j = choose|j: int| 0 <= j < b.len() && b[j] == key;
            if j < a.len() {
                assert(a[j] == key);
                assert(a.contains(key));
                let i = choose|i: int|
                    0 <= i < t.len() && (#[trigger] t[i]).active && t[i].key == key;
                assert(entries[i] == t[i]);
            } else {
                assert(entries[n].active && entries[n].key == key);
            }
        }
        if exists|i: int|
            0 <= i < entries.len() && (#[trigger] entries[i]).active && entries[i].key == key {
            let i = choose|i: int|
                0 <= i < entries.len() && (#[trigger] entries[i]).active && entries[i].key == key;
            if i < n {
                assert(t[i] == entries[i]);
                assert(a.contains(key));
                let j = choose|j: int| 0 <= j < a.len() && a[j] == key;
                assert(b[j] == key);
            } else {
                assert(b[a.len() as int] == key);
            }
        }
    }
}

proof fn lemma_pieces_filled(s: Seq<char>, c: char)
    ensures
        (forall|i: int| 0 <= i < pieces(s, c).len() ==> (#[trigger] pieces(s, c)[i]).len() > 0) <==> {
            &&& s.len() > 0
            &&& s[0] != c
            &&& s.last() != c
            &&& forall|i: int| 0 <= i < s.len() - 1 && #[trigger] s[i] == c ==> s[i + 1] != c
        },
    decreases s.len(),
{
    let k = first_of(s, c);
    lemma_first_of(s, c);
    let all = pieces(s, c);
    if k < s.len() {
        let rest = s.subrange(k + 1, s.len() as int);
        lemma_pieces_filled(rest, c);
        let tail = pieces(rest, c);
        assert(all == seq![s.subrange(0, k)] + tail);
        assert(all[0] == s.subrange(0, k));
        assert forall|i: int| 0 <= i < tail.len() implies #[trigger] tail[i] == all[i + 1] by {}
        let filled = forall|i: int| 0 <= i < tail.len() ==> (#[trigger] tail[i]).len() > 0;
        if forall|i: int| 0 <= i < all.len() ==> (#[trigger] all[i]).len() > 0 {
            assert forall|i: int| 0 <= i < tail.len() implies (#[trigger] tail[i]).len() > 0 by {
                assert(all[i + 1].len() > 0);
            }
            assert(rest.last() == s.last());
            assert forall|i: int| 0 <= i < s.len() - 1 && #[trigger] s[i] == c implies s[i + 1]
                != c by {
                if i == k {
                    assert(rest[0] == s[k + 1]);
                } else {
                    assert(rest[i - k - 1] == s[i] && rest[i - k] == s[i + 1]);
                }
            }
        }
        if s[0] != c && s.last() != c && forall|i: int|
            0 <= i < s.len() - 1 && #[trigger] s[i] == c ==> s[i + 1] != c {
            assert(rest[0] == s[k + 1]);
            assert(rest.last() == s.last());
            assert forall|i: int| 0 <= i < rest.len() - 1 && #[trigger] rest[i] == c implies rest[i
                + 1] != c by {
                assert(s[i + k + 1] == rest[i] && s[i + k + 2] == rest[i + 1]);
            }
            assert forall|i: int| 0 <= i < all.len() implies (#[trigger] all[i]).len() > 0 by {
                if i > 0 {
                    assert(tail[i - 1] == all[i]);
                }
            }
        }
    } else {
        assert(all == seq![s]);
        assert(all[0] == s);
    }
}

/// An address is taken exactly when its trimmed and lowercased text has something before
/// its first `@` and behind it a domain with a dot in it that neither begins nor ends
/// with one and has no two side by side.
pub proof fn law_which_addresses_are_taken(raw: Seq<char>)
    ensures
        email(raw) is Ok <==> exists|k: int|
            0 < k < lowercased(trimmed(raw)).len() - 1 && #[trigger] lowercased(trimmed(raw))[k]
                == '@' && (forall|i: int|
                0 <= i < k ==> #[trigger] lowercased(trimmed(raw))[i] != '@') && ({
                let e = lowercased(trimmed(raw));
                let d = e.subrange(k + 1, e.len() as int);
                &&& d.contains('.')
                &&& d[0] != '.'
                &&& d.last() != '.'
                &&& forall|i: int| 0 <= i < d.len() - 1 && #[trigger] d[i] == '.' ==> d[i + 1]
                    != '.'
            }),
        email(raw) matches Ok(e) ==> e == lowercased(trimmed(raw)),
{
    let e = lowercased(trimmed(raw));
    let k = first_of(e, '@');
    lemma_first_of(e, '@');
    if k < e.len() {
        let d = e.subrange(k + 1, e.len() as int);
        lemma_pieces_filled(d, '.');
        lemma_first_of(d, '.');
        if email(raw) is Ok {
            assert(d[first_of(d, '.')] == '.');
            assert(0 < k < e.len() - 1 && e[k] == '@');
        }
        if exists|j: int|
            0 < j < e.len() - 1 && #[trigger] e[j] == '@' && forall|i: int|
                0 <= i < j ==> #[trigger] e[i] != '@' {
            let j = choose|j: int|
                0 < j < e.len() - 1 && #[trigger] e[j] == '@' && forall|i: int|
                    0 <= i < j ==> #[trigger] e[i] != '@';
            assert(j == k) by {
                if j < k {
                    assert(e[j] != '@');
                }
                if k < j {
                    assert(e[k] != '@');
                }
            }
            if d.contains('.') {
                let n = choose|n: int| 0 <= n < d.len() && d[n] == '.';
                assert(first_of(d, '.') <= n);
            }
        }
    }
}

/// A group that is taken on a closed list is the first active entry of that key, and
/// spend goes to its own cost center, or to the key where it has none.
pub proof fn law_group_is_the_first_active_of_its_key(entries: Seq<GroupView>, group: Seq<char>)
    ensures
        entries.len() == 0 ==> (resolution(entries, group) matches Ok(g) && g.key == group
            && g.cost_center == group && g.active),
        entries.len() > 0 ==> match resolution(entries, group) {
            Ok(g) => exists|i: int|
                0 <= i < entries.len() && g == #[trigger] entries[i] && g.active && g.key == group
                    && forall|j: int|
                    0 <= j < i ==> !((#[trigger] entries[j]).active && entries[j].key == group),
            Err(_) => forall|i: int|
                0 <= i < entries.len() ==> !((#[trigger] entries[i]).active && entries[i].key
                    == group),
        },
        active_keys_of(entries) == entries.filter(|g: GroupView| g.active).map_values(
            |g: GroupView| g.key,
        ),
{
    lemma_entry_for(entries, group);
    lemma_active_keys(entries);
}

proof fn lemma_entry_for(entries: Seq<GroupView>, group: Seq<char>)
    ensures
        match entry_for(entries, group) {
            Some(g) => exists|i: int|
                0 <= i < entries.len() && g == #[trigger] entries[i] && g.active && g.key == group
                    && forall|j: int|
                    0 <= j < i ==> !((#[trigger] entries[j]).active && entries[j].key == group),
            None => forall|i: int|
                0 <= i < entries.len() ==> !((#[trigger] entries[i]).active && entries[i].key
                    == group),
        },
    decreases entries.len(),
{
    if entries.len() > 0 {
        if entries[0].active && entries[0].key == group {
            assert(entries[0] == entry_for(entries, group)->0);
        } else {
            let t = entries.subrange(1, entries.len() as int);
            lemma_entry_for(t, group);
            match entry_for(t, group) {
                Some(g) => {
                    let i = choose|i: int|
                        0 <= i < t.len() && g == #[trigger] t[i] && g.active && g.key == group
                            && forall|j: int|
                            0 <= j < i ==> !((#[trigger] t[j]).active && t[j].key == group);
                    assert(g == entries[i + 1]);
                    assert forall|j: int| 0 <= j < i + 1 implies !((#[trigger] entries[j]).active
                        && entries[j].key == group) by {
                        if j > 0 {
                            assert(t[j - 1] == entries[j]);
                        }
                    }
                },
                None => {
                    assert forall|i: int| 0 <= i < entries.len() implies !((
                    #[trigger] entries[i]).active && entries[i].key == group) by {
                        if i > 0 {
                            assert(t[i - 1] == entries[i]);
                        }
                    }
                },
            }
        }
    }
}

proof fn lemma_active_keys(entries: Seq<GroupView>)
    ensures
        active_keys_of(entries) == entries.filter(|g: GroupView| g.active).map_values(
            |g: GroupView| g.key,
        ),
    decreases entries.len(),
{
    reveal(Seq::filter);
    let f = |g: GroupView| g.active;
    let h = |g: GroupView| g.key;
    if entries.len() > 0 {
        let t = entries.drop_last();
        lemma_active_keys(t);
        let last = entries.last();
        assert(t.filter(f).push(last).map_values(h) =~= t.filter(f).map_values(h).push(h(last)));
    }
    assert(active_keys_of(entries) =~= entries.filter(f).map_values(h));
}

/// Spend goes to the cost center of a group, or to its key where it has none.
pub proof fn law_spend_goes_to_the_cost_center(g: GroupView)
    ensures
        g.cost_center.len() > 0 ==> g.charged_to() == g.cost_center,
        g.cost_center.len() == 0 ==> g.charged_to() == g.key,
{
}

} // verus!
