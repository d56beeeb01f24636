//! The catalog of MCP servers that users publish. `status` is a trust tier and
//! hides nothing; `state` is a lifecycle, and only active entries show by
//! default.
use vstd::prelude::*;

use crate::json::Json;
use crate::registry::guidance::{store_tags, stored_tags};
use crate::registry::{RegistryError, RegistryFault};
use crate::text::{contents_ref, blank, copy_texts, is_blank, join, joined, list_contains, text_eq, texts};

verus! {

/// The lifecycle states of a catalog entry.
pub open spec fn state_names() -> Seq<Seq<char>> {
    seq!["active"@, "disabled"@, "archived"@]
}

/// The lifecycle states of a catalog entry.
pub fn states() -> (r: Vec<String>)
    ensures
        texts(r@) == state_names(),
{
    let v = vec!["active".to_owned(), "disabled".to_owned(), "archived".to_owned()];
    assert(texts(v@) =~= state_names());
    v
}

/// A published server.
#[derive(Debug)]
pub struct McpServer {
    pub id: String,
    pub name: String,
    pub summary: String,
    pub readme: String,
    pub install: Json,
    pub repository: String,
    pub homepage: String,
    pub version: String,
    pub tags: Vec<String>,
    pub owner: String,
    /// `community` or `approved`.
    pub status: String,
    /// `active`, `disabled` or `archived`.
    pub state: String,
    pub created_at: String,
    pub updated_at: String,
    pub approved_at: Option<String>,
    pub approved_by: Option<String>,
}

/// What a publisher supplies.
#[derive(Debug)]
pub struct McpServerInput {
    pub name: String,
    pub summary: String,
    pub readme: String,
    pub install: Json,
    pub repository: String,
    pub homepage: String,
    pub version: String,
    pub tags: Vec<String>,
}

/// Why an entry is refused: it has no name, or an unknown transport.
pub open spec fn input_fault(input: McpServerInput) -> Option<RegistryFault> {
    if blank(input.name@) {
        Some(RegistryFault::Validation("an MCP catalog entry needs a name"@))
    } else {
        match input.install@.text_at("transport"@) {
            Some(t) => if t.len() > 0 && t != "stdio"@ && t != "remote"@ {
                Some(
                    RegistryFault::Validation(
                        "install.transport must be 'stdio' or 'remote' (got '"@ + t + "')"@,
                    ),
                )
            } else {
                None
            },
            None => None,
        }
    }
}

/// Checks what a publisher supplies.
pub fn validate(input: &McpServerInput) -> (r: Result<(), RegistryError>)
    ensures
        match r {
            Ok(_) => input_fault(*input) is None,
            Err(e) => input_fault(*input) == Some(e@),
        },
{
    if is_blank(input.name.as_str()) {
        return Err(RegistryError::validation("an MCP catalog entry needs a name"));
    }
    match input.install.get_str("transport") {
        Some(t) => {
            if !t.is_empty() && !text_eq(t, "stdio") && !text_eq(t, "remote") {
                let mut m = "install.transport must be 'stdio' or 'remote' (got '".to_owned();
                m.append(t);
                m.append("')");
                return Err(RegistryError::Validation(m));
            }
        },
        None => {},
    }
    Ok(())
}

/// The tier an entry starts in.
pub open spec fn tier(approved: bool) -> Seq<char> {
    if approved {
        "approved"@
    } else {
        "community"@
    }
}

/// An entry holds the contents a publisher supplied, the tags aside.
pub open spec fn carries(m: McpServer, input: McpServerInput) -> bool {
    &&& m.name@ == input.name@
    &&& m.summary@ == input.summary@
    &&& m.readme@ == input.readme@
    &&& m.install@ == input.install@
    &&& m.repository@ == input.repository@
    &&& m.homepage@ == input.homepage@
    &&& m.version@ == input.version@
}

/// The stamp of an approval.
pub open spec fn stamped(
    at: Option<String>,
    by: Option<String>,
    stamp: Option<(Seq<char>, Seq<char>)>,
) -> bool {
    match stamp {
        Some(p) => (at matches Some(a) && a@ == p.0) && (by matches Some(b) && b@ == p.1),
        None => at is None && by is None,
    }
}

/// Publishes an entry: active, owned by `owner`, in the tier asked for.
pub fn create(id: &str, owner: &str, input: &McpServerInput, approved: bool, now: &str) -> (r:
    Result<McpServer, RegistryError>)
    ensures
        match r {
            Err(e) => input_fault(*input) == Some(e@),
            Ok(m) => {
                &&& input_fault(*input) is None
                &&& m.id@ == id@
                &&& carries(m, *input)
                &&& texts(m.tags@) == texts(input.tags@)
                &&& m.owner@ == owner@
                &&& m.status@ == tier(approved)
                &&& m.state@ == "active"@
                &&& m.created_at@ == now@
                &&& m.updated_at@ == now@
                &&& stamped(
                    m.approved_at,
                    m.approved_by,
                    if approved {
                        Some((now@, owner@))
                    } else {
                        None
                    },
                )
            },
        },
{
    match validate(input) {
        Ok(_) => {},
        Err(e) => {
            return Err(e);
        },
    }
    let (status, approved_at, approved_by) = if approved {
        ("approved".to_owned(), Some(now.to_owned()), Some(owner.to_owned()))
    } else {
        ("community".to_owned(), None, None)
    };
    Ok(
        McpServer {
            id: id.to_owned(),
            name: input.name.clone(),
            summary: input.summary.clone(),
            readme: input.readme.clone(),
            install: input.install.copy(),
            repository: input.repository.clone(),
            homepage: input.homepage.clone(),
            version: input.version.clone(),
            tags: copy_texts(&input.tags),
            owner: owner.to_owned(),
            status,
            state: "active".to_owned(),
            created_at: now.to_owned(),
            updated_at: now.to_owned(),
            approved_at,
            approved_by,
        },
    )
}

/// Edits an entry's contents. Owner, tier and lifecycle stay as they are; the tags come
/// back as they are stored.
pub fn update(m: McpServer, input: &McpServerInput, now: &str) -> (r: Result<
    McpServer,
    RegistryError,
>)
    ensures
        match r {
            Err(e) => input_fault(*input) == Some(e@),
            Ok(n) => {
                &&& input_fault(*input) is None
                &&& carries(n, *input)
                &&& texts(n.tags@) == stored_tags(texts(input.tags@))
                &&& n.updated_at@ == now@
                &&& n.id == m.id
                &&& n.owner == m.owner
                &&& n.status == m.status
                &&& n.state == m.state
                &&& n.created_at == m.created_at
                &&& n.approved_at == m.approved_at
                &&& n.approved_by == m.approved_by
            },
        },
{
    match validate(input) {
        Ok(_) => {},
        Err(e) => {
            return Err(e);
        },
    }
    Ok(
        McpServer {
            id: m.id,
            name: input.name.clone(),
            summary: input.summary.clone(),
            readme: input.readme.clone(),
            install: input.install.copy(),
            repository: input.repository.clone(),
            homepage: input.homepage.clone(),
            version: input.version.clone(),
            tags: store_tags(&input.tags),
            owner: m.owner,
            status: m.status,
            state: m.state,
            created_at: m.created_at,
            updated_at: now.to_owned(),
            approved_at: m.approved_at,
            approved_by: m.approved_by,
        },
    )
}

/// What a change of tier writes.
#[derive(Debug)]
pub struct TierChange {
    pub status: String,
    pub approved_at: Option<String>,
    pub approved_by: Option<String>,
}

/// Moves an entry between the tiers: an approval is stamped with its time and
/// approver, anything else clears the stamp.
pub fn set_status(status: &str, approver: Option<&str>, now: &str) -> (r: TierChange)
    ensures
        if status@ == "approved"@ {
            r.status@ == "approved"@ && stamped(
                r.approved_at,
                r.approved_by,
                Some(
                    (
                        now@,
                        match approver {
                            Some(a) => a@,
                            None => Seq::empty(),
                        },
                    ),
                ),
            )
        } else {
            r.status@ == "community"@ && stamped(r.approved_at, r.approved_by, None)
        },
        status@ == "approved"@ ==> r.status@ == "approved"@ && (r.approved_at matches Some(t) && t@
            == now@) && r.approved_by is Some,
        status@ != "approved"@ ==> r.status@ == "community"@ && r.approved_at is None
            && r.approved_by is None,
{
    if text_eq(status, "approved") {
        let by = match approver {
            Some(a) => a.to_owned(),
            None => String::new(),
        };
        TierChange {
            status: "approved".to_owned(),
            approved_at: Some(now.to_owned()),
            approved_by: Some(by),
        }
    } else {
        TierChange { status: "community".to_owned(), approved_at: None, approved_by: None }
    }
}

/// Why a lifecycle state is refused.
pub open spec fn state_fault(state: Seq<char>) -> Option<RegistryFault> {
    if state_names().contains(state) {
        None
    } else {
        Some(
            RegistryFault::Validation(
                "unknown state '"@ + state + "' (expected one of: "@ + joined(state_names(), ", "@)
                    + ")"@,
            ),
        )
    }
}

/// Admits a lifecycle state.
pub fn set_state(state: &str) -> (r: Result<(), RegistryError>)
    ensures
        match r {
            Ok(_) => state_fault(state@) is None,
            Err(e) => state_fault(state@) == Some(e@),
        },
{
    let known = states();
    if list_contains(&known, state) {
        return Ok(());
    }
    let mut m = "unknown state '".to_owned();
    m.append(state);
    m.append("' (expected one of: ");
    let list = join(&known, ", ");
    m.append(list.as_str());
    m.append(")");
    Err(RegistryError::Validation(m))
}

/// Whether a catalog view shows an entry: active ones unless another state, or
/// `all`, is asked for; a tier narrows the view.
pub open spec fn shown(
    state: Seq<char>,
    status: Seq<char>,
    wanted_state: Option<Seq<char>>,
    wanted_status: Option<Seq<char>>,
) -> bool {
    let s = match wanted_state {
        Some(w) => w,
        None => "active"@,
    };
    (s == "all"@ || state == s) && (wanted_status matches Some(t) ==> status == t)
}

/// Whether a catalog view shows an entry.
pub fn is_shown(
    state: &str,
    status: &str,
    wanted_state: Option<&str>,
    wanted_status: Option<&str>,
) -> (r: bool)
    ensures
        r == shown(
            state@,
            status@,
            contents_ref(wanted_state),
            contents_ref(wanted_status),
        ),
{
    let s = match wanted_state {
        Some(w) => w,
        None => "active",
    };
    let in_state = text_eq(s, "all") || text_eq(state, s);
    match wanted_status {
        Some(t) => in_state && text_eq(status, t),
        None => in_state,
    }
}

/// The tier never hides an entry: without a tier asked for, entries of both
/// tiers show alike.
pub proof fn law_tier_hides_nothing(
    state: Seq<char>,
    wanted_state: Option<Seq<char>>,
    a: Seq<char>,
    b: Seq<char>,
)
    ensures
        shown(state, a, wanted_state, None) == shown(state, b, wanted_state, None),
{
}

/// An entry is taken exactly when it has a name and its transport, if it has one, is
/// `stdio` or `remote`.
pub proof fn law_which_entries_are_taken(input: McpServerInput)
    ensures
        input_fault(input) is None <==> !blank(input.name@) && (
        input.install@.text_at("transport"@) matches Some(t) ==> t.len() == 0 || t == "stdio"@ || t
            == "remote"@),
{
}

/// Without a state asked for only active entries show, with `all` every one, else those
/// in the state; and with a tier asked for only those of the tier. The states are active,
/// disabled and archived, the tiers community and approved.
pub proof fn law_what_the_catalog_shows(
    state: Seq<char>,
    status: Seq<char>,
    wanted: Seq<char>,
    tier_wanted: Seq<char>,
)
    ensures
        shown(state, status, None, None) <==> state == "active"@,
        shown(state, status, Some("all"@), None),
        wanted != "all"@ ==> (shown(state, status, Some(wanted), None) <==> state == wanted),
        shown(state, status, None, Some(tier_wanted)) <==> state == "active"@ && status
            == tier_wanted,
        shown(state, status, Some("all"@), Some(tier_wanted)) <==> status == tier_wanted,
        state_fault(state) is None <==> state == "active"@ || state == "disabled"@ || state
            == "archived"@,
        tier(true) == "approved"@,
        tier(false) == "community"@,
{
    let all = state_names();
    assert(all[0] == "active"@ && all[1] == "disabled"@ && all[2] == "archived"@);
    assert(all.contains(all[0]) && all.contains(all[1]) && all.contains(all[2]));
    reveal_strlit("all");
    reveal_strlit("active");
    assert("all"@.len() == 3 && "active"@.len() == 6);
}

/// An entry has each of its contents as the publisher supplied it, and an approval bears
/// its time and who gave it.
pub proof fn law_entry_is_as_supplied(
    m: McpServer,
    input: McpServerInput,
    at: Option<String>,
    by: Option<String>,
    time: Seq<char>,
    who: Seq<char>,
)
    ensures
        carries(m, input) ==> {
            &&& m.name@ == input.name@
            &&& m.summary@ == input.summary@
            &&& m.readme@ == input.readme@
            &&& m.install@ == input.install@
            &&& m.repository@ == input.repository@
            &&& m.homepage@ == input.homepage@
            &&& m.version@ == input.version@
        },
        stamped(at, by, Some((time, who))) ==> at is Some && at->0@ == time && by is Some && by->0@
            == who,
        stamped(at, by, None) ==> at is None && by is None,
{
}

} // verus!
