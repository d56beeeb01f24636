//! The catalog of agent skills that users publish, a sibling of the server
//! catalog: the same tiers and lifecycle, with contents derived from a bundle.
use vstd::prelude::*;

use crate::json::Json;
use crate::registry::guidance::{store_tags, stored_tags};
use crate::registry::mcp_servers::{stamped, tier};
use crate::registry::{RegistryError, RegistryFault};
use crate::text::{blank, is_blank, join, joined, list_contains, texts, trim, trimmed};

verus! {

/// The runtimes a skill may be written for, and the one it is written for where
/// the publisher says nothing.
#[derive(Debug)]
pub struct Runtimes {
    pub names: Vec<String>,
    pub default: String,
}

/// A published skill.
#[derive(Debug)]
pub struct Skill {
    pub id: String,
    pub name: String,
    pub summary: String,
    pub readme: String,
    pub runtime: String,
    pub manifest: Json,
    pub portability: String,
    pub bundle_sha256: String,
    pub bundle_bytes: i64,
    pub repository: String,
    pub homepage: String,
    pub version: String,
    pub tags: Vec<String>,
    pub owner: String,
    pub status: String,
    pub state: String,
    pub created_at: String,
    pub updated_at: String,
    pub approved_at: Option<String>,
    pub approved_by: Option<String>,
    pub review_json: Option<Json>,
    pub reviewed_at: Option<String>,
}

/// What a publisher supplies beside the bundle.
#[derive(Debug)]
pub struct SkillInput {
    pub name: String,
    pub summary: String,
    pub readme: String,
    pub runtime: String,
    pub repository: String,
    pub homepage: String,
    pub version: String,
    pub tags: Vec<String>,
}

/// What was derived from a bundle.
#[derive(Debug)]
pub struct BundleFacts {
    pub manifest: Json,
    pub portability: String,
    pub sha256: String,
    pub bytes: i64,
}

/// The runtime a skill is written for.
pub open spec fn runtime_of(raw: Seq<char>, known: Runtimes) -> Result<Seq<char>, RegistryFault> {
    let r = if trimmed(raw).len() == 0 {
        known.default@
    } else {
        trimmed(raw)
    };
    if texts(known.names@).contains(r) {
        Ok(r)
    } else {
        Err(
            RegistryFault::Validation(
                "runtime must be one of: "@ + joined(texts(known.names@), ", "@),
            ),
        )
    }
}

/// Checks the runtime of a skill. It is checked before the bundle is looked at.
pub fn check_runtime(raw: &str, known: &Runtimes) -> (r: Result<String, RegistryError>)
    ensures
        match r {
            Ok(s) => runtime_of(raw@, *known) == Ok::<Seq<char>, RegistryFault>(s@),
            Err(e) => runtime_of(raw@, *known) == Err::<Seq<char>, RegistryFault>(e@),
        },
{
    let t = trim(raw);
    let runtime = if t.as_str().is_empty() {
        known.default.clone()
    } else {
        t
    };
    if list_contains(&known.names, runtime.as_str()) {
        Ok(runtime)
    } else {
        let mut m = "runtime must be one of: ".to_owned();
        let list = join(&known.names, ", ");
        m.append(list.as_str());
        Err(RegistryError::Validation(m))
    }
}

/// The name of a skill: the one given, else that of the bundle's front matter.
pub open spec fn skill_name(given: Seq<char>, front: Seq<char>) -> Seq<char> {
    if trimmed(given).len() == 0 {
        trimmed(front)
    } else {
        trimmed(given)
    }
}

/// The summary of a skill: the one given, else the front matter's description.
pub open spec fn skill_summary(given: Seq<char>, front: Seq<char>) -> Seq<char> {
    if blank(given) {
        front
    } else {
        given
    }
}

/// The name and summary a skill is stored under.
pub fn prepare(input: &SkillInput, facts: &BundleFacts) -> (r: Result<
    (String, String),
    RegistryError,
>)
    ensures
        ({
            let name = skill_name(input.name@, facts.manifest@.text_or_empty("name"@));
            if name.len() == 0 {
                r matches Err(e) && e@ == RegistryFault::Validation(
                    "a skill needs a name (in the form or the SKILL.md frontmatter)"@,
                )
            } else {
                r matches Ok(p) && p.0@ == name && p.1@ == skill_summary(
                    input.summary@,
                    facts.manifest@.text_or_empty("description"@),
                )
            }
        }),
{
    let fm_name = facts.manifest.get_str_or_empty("name");
    let fm_desc = facts.manifest.get_str_or_empty("description");
    let given = trim(input.name.as_str());
    let name = if given.as_str().is_empty() {
        trim(fm_name.as_str())
    } else {
        given
    };
    if name.as_str().is_empty() {
        return Err(
            RegistryError::validation(
                "a skill needs a name (in the form or the SKILL.md frontmatter)",
            ),
        );
    }
    let summary = if is_blank(input.summary.as_str()) {
        fm_desc
    } else {
        input.summary.clone()
    };
    Ok((name, summary))
}

/// Why a skill is refused.
pub open spec fn skill_fault(input: SkillInput, facts: BundleFacts, known: Runtimes) -> Option<
    RegistryFault,
> {
    match runtime_of(input.runtime@, known) {
        Err(e) => Some(e),
        Ok(_) => if skill_name(input.name@, facts.manifest@.text_or_empty("name"@)).len() == 0 {
            Some(
                RegistryFault::Validation(
                    "a skill needs a name (in the form or the SKILL.md frontmatter)"@,
                ),
            )
        } else {
            None
        },
    }
}

/// A skill holds the contents a publisher supplied and what was derived from the
/// bundle.
pub open spec fn carries(s: Skill, input: SkillInput, facts: BundleFacts, known: Runtimes) -> bool {
    &&& runtime_of(input.runtime@, known) == Ok::<Seq<char>, RegistryFault>(s.runtime@)
    &&& s.name@ == skill_name(input.name@, facts.manifest@.text_or_empty("name"@))
    &&& s.summary@ == skill_summary(input.summary@, facts.manifest@.text_or_empty("description"@))
    &&& s.readme@ == input.readme@
    &&& s.manifest@ == facts.manifest@
    &&& s.portability@ == facts.portability@
    &&& s.bundle_sha256@ == facts.sha256@
    &&& s.bundle_bytes == facts.bytes
    &&& s.repository@ == input.repository@
    &&& s.homepage@ == input.homepage@
    &&& s.version@ == input.version@
    &&& texts(s.tags@) == stored_tags(texts(input.tags@))
}

/// Publishes a skill: active, owned by `owner`, in the tier asked for, not
/// reviewed yet.
pub fn create(
    id: &str,
    owner: &str,
    input: &SkillInput,
    facts: &BundleFacts,
    known: &Runtimes,
    approved: bool,
    now: &str,
) -> (r: Result<Skill, RegistryError>)
    ensures
        match r {
            Err(e) => skill_fault(*input, *facts, *known) == Some(e@),
            Ok(s) => {
                &&& skill_fault(*input, *facts, *known) is None
                &&& s.id@ == id@
                &&& carries(s, *input, *facts, *known)
                &&& s.owner@ == owner@
                &&& s.status@ == tier(approved)
                &&& s.state@ == "active"@
                &&& s.created_at@ == now@
                &&& s.updated_at@ == now@
                &&& stamped(
                    s.approved_at,
                    s.approved_by,
                    if approved {
                        Some((now@, owner@))
                    } else {
                        None
                    },
                )
                &&& s.review_json is None
                &&& s.reviewed_at is None
            },
        },
{
    let runtime = match check_runtime(input.runtime.as_str(), known) {
        Ok(r) => r,
        Err(e) => {
            return Err(e);
        },
    };
    let (name, summary) = match prepare(input, facts) {
        Ok(p) => p,
        Err(e) => {
            return Err(e);
        },
    };
    let (status, approved_at, approved_by) = if approved {
        ("approved".to_owned(), Some(now.to_owned()), Some(owner.to_owned()))
    } else {
        ("community".to_owned(), None, None)
    };
    Ok(
        Skill {
            id: id.to_owned(),
            name,
            summary,
            readme: input.readme.clone(),
            runtime,
            manifest: facts.manifest.copy(),
            portability: facts.portability.clone(),
            bundle_sha256: facts.sha256.clone(),
            bundle_bytes: facts.bytes,
            repository: input.repository.clone(),
            homepage: input.homepage.clone(),
            version: input.version.clone(),
            tags: store_tags(&input.tags),
            owner: owner.to_owned(),
            status,
            state: "active".to_owned(),
            created_at: now.to_owned(),
            updated_at: now.to_owned(),
            approved_at,
            approved_by,
            review_json: None,
            reviewed_at: None,
        },
    )
}

/// Edits a skill's contents and derives them anew from its bundle. Owner, tier,
/// lifecycle and review stay as they are.
pub fn update(
    s: Skill,
    input: &SkillInput,
    facts: &BundleFacts,
    known: &Runtimes,
    now: &str,
) -> (r: Result<Skill, RegistryError>)
    ensures
        match r {
            Err(e) => skill_fault(*input, *facts, *known) == Some(e@),
            Ok(n) => {
                &&& skill_fault(*input, *facts, *known) is None
                &&& carries(n, *input, *facts, *known)
                &&& n.updated_at@ == now@
                &&& n.id == s.id
                &&& n.owner == s.owner
                &&& n.status == s.status
                &&& n.state == s.state
                &&& n.created_at == s.created_at
                &&& n.approved_at == s.approved_at
                &&& n.approved_by == s.approved_by
                &&& n.review_json == s.review_json
                &&& n.reviewed_at == s.reviewed_at
            },
        },
{
    let runtime = match check_runtime(input.runtime.as_str(), known) {
        Ok(r) => r,
        Err(e) => {
            return Err(e);
        },
    };
    let (name, summary) = match prepare(input, facts) {
        Ok(p) => p,
        Err(e) => {
            return Err(e);
        },
    };
    Ok(
        Skill {
            id: s.id,
            name,
            summary,
            readme: input.readme.clone(),
            runtime,
            manifest: facts.manifest.copy(),
            portability: facts.portability.clone(),
            bundle_sha256: facts.sha256.clone(),
            bundle_bytes: facts.bytes,
            repository: input.repository.clone(),
            homepage: input.homepage.clone(),
            version: input.version.clone(),
            tags: store_tags(&input.tags),
            owner: s.owner,
            status: s.status,
            state: s.state,
            created_at: s.created_at,
            updated_at: now.to_owned(),
            approved_at: s.approved_at,
            approved_by: s.approved_by,
            review_json: s.review_json,
            reviewed_at: s.reviewed_at,
        },
    )
}

/// Notes a review on a skill. It leaves `updated_at` alone, so that a review
/// never reorders the catalog.
pub fn set_review(s: Skill, verdict: &Json, now: &str) -> (r: Skill)
    ensures
        r.review_json matches Some(v) && v@ == verdict@,
        r.reviewed_at matches Some(t) && t@ == now@,
        r == (Skill { review_json: r.review_json, reviewed_at: r.reviewed_at, ..s }),
{
    let mut s = s;
    s.review_json = Some(verdict.copy());
    s.reviewed_at = Some(now.to_owned());
    s
}

/// A skill is taken exactly when its runtime is a known one, or none is given and the
/// default is a known one, and it has a name, given or in the bundle.
pub proof fn law_which_skills_are_taken(input: SkillInput, facts: BundleFacts, known: Runtimes)
    ensures
        skill_fault(input, facts, known) is None <==> {
            let r = trimmed(input.runtime@);
            &&& r.len() > 0 ==> texts(known.names@).contains(r)
            &&& r.len() == 0 ==> texts(known.names@).contains(known.default@)
            &&& trimmed(input.name@).len() > 0 || trimmed(
                facts.manifest@.text_or_empty("name"@),
            ).len() > 0
        },
{
}

/// A skill is what its publisher supplied; the name and the summary are those of the
/// bundle where none is given, and the manifest, the size and the digest are always the
/// bundle's.
pub proof fn law_skill_is_as_supplied(
    s: Skill,
    input: SkillInput,
    facts: BundleFacts,
    known: Runtimes,
)
    requires
        carries(s, input, facts, known),
    ensures
        s.runtime@ == (if trimmed(input.runtime@).len() > 0 {
            trimmed(input.runtime@)
        } else {
            known.default@
        }),
        s.name@ == (if trimmed(input.name@).len() > 0 {
            trimmed(input.name@)
        } else {
            trimmed(facts.manifest@.text_or_empty("name"@))
        }),
        s.summary@ == (if blank(input.summary@) {
            facts.manifest@.text_or_empty("description"@)
        } else {
            input.summary@
        }),
        s.readme@ == input.readme@,
        s.manifest@ == facts.manifest@,
        s.portability@ == facts.portability@,
        s.bundle_sha256@ == facts.sha256@,
        s.bundle_bytes == facts.bytes,
        s.repository@ == input.repository@,
        s.homepage@ == input.homepage@,
        s.version@ == input.version@,
{
}

} // verus!
