//! Requests that start from resources on record: access of one resource to
//! another, and a new container image for a live one.
use vstd::prelude::*;

use crate::json::{strings_view, Json, JsonView};
use crate::provision::manifest::ServiceManifest;
use crate::provision::repo::ProvisionedRecord;
use crate::provision::service::{
    manifest_of, request_fault, submission, submission_of, ProvisionService,
};
use crate::provision::{ProvisionError, ProvisionFault};
use crate::registry::workflow::NewRequest;
use crate::registry::Registration;
use crate::text::{join, joined, text_eq, texts};
use crate::usd::Usd;

verus! {

// ---------------------------------------------------------------------------
// Access grants
// ---------------------------------------------------------------------------

/// A record that a lookup found.
pub open spec fn found(r: Option<&ProvisionedRecord>) -> Option<ProvisionedRecord> {
    match r {
        Some(p) => Some(*p),
        None => None,
    }
}

/// The access levels of a service, in order.
pub open spec fn level_names(m: ServiceManifest) -> Seq<Seq<char>> {
    m.access_levels.names()
}

/// Why two services do not fit together as the one that is granted access and
/// the one that grants it.
pub open spec fn pairing_fault(
    c: ProvisionedRecord,
    t: ProvisionedRecord,
    cm: ServiceManifest,
    tm: ServiceManifest,
    level: Seq<char>,
) -> Option<ProvisionFault> {
    if tm.grant is None {
        Some(ProvisionFault::InvalidSpec("'"@ + t.rtype@ + "' is not a grantable target"@))
    } else if cm.principal_kind is None {
        Some(
            ProvisionFault::InvalidSpec(
                "'"@ + c.rtype@ + "' cannot be granted access (declares no principal)"@,
            ),
        )
    } else if cm.principal_kind->0@ != tm.grant->0.principal_kind@ {
        Some(
            ProvisionFault::InvalidSpec(
                "principal-kind mismatch: '"@ + c.rtype@ + "' provides '"@ + cm.principal_kind->0@
                    + "', '"@ + t.rtype@ + "' grants to '"@ + tm.grant->0.principal_kind@ + "'"@,
            ),
        )
    } else if cm.principal_output is None {
        Some(ProvisionFault::InvalidSpec("'"@ + c.rtype@ + "' declares no principal_output"@))
    } else if c.outputs@.text_at(cm.principal_output->0@) is None {
        Some(
            ProvisionFault::InvalidSpec(
                "consumer '"@ + c.name@ + "' has no output '"@ + cm.principal_output->0@ + "'"@,
            ),
        )
    } else if t.outputs@.text_at("arn"@) is None {
        Some(ProvisionFault::InvalidSpec("target '"@ + t.name@ + "' has no 'arn' output"@))
    } else if !tm.access_levels@.contains_key(level) {
        Some(
            ProvisionFault::InvalidSpec(
                "'"@ + t.rtype@ + "' has no access level '"@ + level + "' (known: "@ + joined(
                    level_names(tm),
                    ", "@,
                ) + ")"@,
            ),
        )
    } else {
        None
    }
}

/// Why a grant is refused. Both resources are on record, of the project and live;
/// both services are in the catalog; and the two fit together.
pub open spec fn grant_fault(
    s: ProvisionService,
    project_id: Seq<char>,
    consumer_id: Seq<char>,
    consumer: Option<ProvisionedRecord>,
    target_id: Seq<char>,
    target: Option<ProvisionedRecord>,
    level: Seq<char>,
) -> Option<ProvisionFault> {
    if consumer is None {
        Some(ProvisionFault::NotFound(consumer_id))
    } else if target is None {
        Some(ProvisionFault::NotFound(target_id))
    } else if consumer->0.project_id@ != project_id || target->0.project_id@ != project_id {
        Some(
            ProvisionFault::NotPermitted("consumer and target must belong to the same project"@),
        )
    } else if consumer->0.state@ != "provisioned"@ || target->0.state@ != "provisioned"@ {
        Some(
            ProvisionFault::InvalidSpec(
                "both resources must be provisioned before granting access"@,
            ),
        )
    } else if manifest_of(s, consumer->0.rtype@) is None {
        Some(ProvisionFault::Unsupported(consumer->0.rtype@))
    } else if manifest_of(s, target->0.rtype@) is None {
        Some(ProvisionFault::Unsupported(target->0.rtype@))
    } else {
        pairing_fault(
            consumer->0,
            target->0,
            manifest_of(s, consumer->0.rtype@)->0,
            manifest_of(s, target->0.rtype@)->0,
            level,
        )
    }
}

/// A grant as it is requested: the name of its record, its spec, and the module
/// by which the target grants access.
#[derive(Debug)]
pub struct GrantOrder {
    pub name: String,
    pub spec: Json,
    pub module: String,
}

/// A grant as it is requested, by its contents.
pub struct GrantView {
    pub name: Seq<char>,
    pub spec: JsonView,
    pub module: Seq<char>,
}

impl View for GrantOrder {
    type V = GrantView;

    open spec fn view(&self) -> GrantView {
        GrantView { name: self.name@, spec: self.spec@, module: self.module@ }
    }
}

/// The grant of a pair that fits together.
pub open spec fn grant_for(
    c: ProvisionedRecord,
    t: ProvisionedRecord,
    cm: ServiceManifest,
    tm: ServiceManifest,
    consumer_id: Seq<char>,
    target_id: Seq<char>,
    level: Seq<char>,
) -> GrantView {
    GrantView {
        name: "grant-"@ + c.name@ + "-"@ + t.name@ + "-"@ + level,
        spec: JsonView::Object(
            Map::empty().insert("consumer_resource_id"@, JsonView::Str(consumer_id)).insert(
                "target_resource_id"@,
                JsonView::Str(target_id),
            ).insert("level"@, JsonView::Str(level)).insert(
                "principal_role_arn"@,
                JsonView::Str(c.outputs@.text_at(cm.principal_output->0@)->0),
            ).insert("target_arn"@, JsonView::Str(t.outputs@.text_at("arn"@)->0)).insert(
                "actions"@,
                JsonView::Array(strings_view(texts(tm.access_levels@[level]@))),
            ),
        ),
        module: tm.grant->0.module@,
    }
}

/// The grant of two records of a service's catalog.
pub open spec fn grant_order_of(
    s: ProvisionService,
    c: ProvisionedRecord,
    t: ProvisionedRecord,
    consumer_id: Seq<char>,
    target_id: Seq<char>,
    level: Seq<char>,
) -> GrantView {
    grant_for(
        c,
        t,
        manifest_of(s, c.rtype@)->0,
        manifest_of(s, t.rtype@)->0,
        consumer_id,
        target_id,
        level,
    )
}

fn quoted(before: &str, value: &str, after: &str) -> (r: ProvisionError)
    ensures
        r@ == ProvisionFault::InvalidSpec(before@ + value@ + after@),
{
    let mut m = before.to_owned();
    m.append(value);
    m.append(after);
    ProvisionError::InvalidSpec(m)
}

fn pair_order(
    c: &ProvisionedRecord,
    t: &ProvisionedRecord,
    cm: &ServiceManifest,
    tm: &ServiceManifest,
    consumer_id: &str,
    target_id: &str,
    level: &str,
) -> (r: Result<GrantOrder, ProvisionError>)
    ensures
        match r {
            Ok(g) => pairing_fault(*c, *t, *cm, *tm, level@) is None && g@ == grant_for(
                *c,
                *t,
                *cm,
                *tm,
                consumer_id@,
                target_id@,
                level@,
            ),
            Err(e) => pairing_fault(*c, *t, *cm, *tm, level@) == Some(e@),
        },
{
    let grant = match &tm.grant {
        Some(g) => g,
        None => {
            return Err(quoted("'", t.rtype.as_str(), "' is not a grantable target"));
        },
    };
    let kind = match &cm.principal_kind {
        Some(k) => k.as_str(),
        None => {
            return Err(
                quoted(
                    "'",
                    c.rtype.as_str(),
                    "' cannot be granted access (declares no principal)",
                ),
            );
        },
    };
    if !text_eq(kind, grant.principal_kind.as_str()) {
        let mut m = "principal-kind mismatch: '".to_owned();
        m.append(c.rtype.as_str());
        m.append("' provides '");
        m.append(kind);
        m.append("', '");
        m.append(t.rtype.as_str());
        m.append("' grants to '");
        m.append(grant.principal_kind.as_str());
        m.append("'");
        return Err(ProvisionError::InvalidSpec(m));
    }
    let output = match &cm.principal_output {
        Some(o) => o.as_str(),
        None => {
            return Err(quoted("'", c.rtype.as_str(), "' declares no principal_output"));
        },
    };
    let role = match c.outputs.get_str(output) {
        Some(a) => a,
        None => {
            let mut m = "consumer '".to_owned();
            m.append(c.name.as_str());
            m.append("' has no output '");
            m.append(output);
            m.append("'");
            return Err(ProvisionError::InvalidSpec(m));
        },
    };
    let arn = match t.outputs.get_str("arn") {
        Some(a) => a,
        None => {
            return Err(quoted("target '", t.name.as_str(), "' has no 'arn' output"));
        },
    };
    let actions = match tm.access_levels.get(level) {
        Some(a) => a,
        None => {
            let known = tm.access_levels.keys();
            let listed = join(&known, ", ");
            let mut m = "'".to_owned();
            m.append(t.rtype.as_str());
            m.append("' has no access level '");
            m.append(level);
            m.append("' (known: ");
            m.append(listed.as_str());
            m.append(")");
            return Err(ProvisionError::InvalidSpec(m));
        },
    };
    let mut spec = Json::object();
    spec.insert_str("consumer_resource_id", consumer_id);
    spec.insert_str("target_resource_id", target_id);
    spec.insert_str("level", level);
    spec.insert_str("principal_role_arn", role);
    spec.insert_str("target_arn", arn);
    spec.insert("actions", Json::strings(actions));
    let mut name = "grant-".to_owned();
    name.append(c.name.as_str());
    name.append("-");
    name.append(t.name.as_str());
    name.append("-");
    name.append(level);
    Ok(GrantOrder { name, spec, module: grant.module.clone() })
}

impl ProvisionService {
    /// The grant of one resource's access to another, or why there is none.
    pub fn grant_order(
        &self,
        project_id: &str,
        consumer_id: &str,
        consumer: Option<&ProvisionedRecord>,
        target_id: &str,
        target: Option<&ProvisionedRecord>,
        level: &str,
    ) -> (r: Result<GrantOrder, ProvisionError>)
        ensures
            match r {
                Ok(g) => grant_fault(
                    *self,
                    project_id@,
                    consumer_id@,
                    found(consumer),
                    target_id@,
                    found(target),
                    level@,
                ) is None && g@ == grant_order_of(
                    *self,
                    found(consumer)->0,
                    found(target)->0,
                    consumer_id@,
                    target_id@,
                    level@,
                ),
                Err(e) => grant_fault(
                    *self,
                    project_id@,
                    consumer_id@,
                    found(consumer),
                    target_id@,
                    found(target),
                    level@,
                ) == Some(e@),
            },
    {
        let c = match consumer {
            Some(c) => c,
            None => {
                return Err(ProvisionError::NotFound(consumer_id.to_owned()));
            },
        };
        let t = match target {
            Some(t) => t,
            None => {
                return Err(ProvisionError::NotFound(target_id.to_owned()));
            },
        };
        if !text_eq(c.project_id.as_str(), project_id) || !text_eq(
            t.project_id.as_str(),
            project_id,
        ) {
            return Err(
                ProvisionError::NotPermitted(
                    "consumer and target must belong to the same project".to_owned(),
                ),
            );
        }
        if !text_eq(c.state.as_str(), "provisioned") || !text_eq(t.state.as_str(), "provisioned") {
            return Err(
                ProvisionError::invalid(
                    "both resources must be provisioned before granting access",
                ),
            );
        }
        let cm = match self.catalog.get(c.rtype.as_str()) {
            Some(m) => m,
            None => {
                return Err(ProvisionError::Unsupported(c.rtype.clone()));
            },
        };
        let tm = match self.catalog.get(t.rtype.as_str()) {
            Some(m) => m,
            None => {
                return Err(ProvisionError::Unsupported(t.rtype.clone()));
            },
        };
        pair_order(c, t, cm, tm, consumer_id, target_id, level)
    }

    /// What is submitted to grant one resource of an active project access to
    /// another, given what the project would then have committed. A grant is a
    /// resource of its own, of the service `access-grant`.
    pub fn request_grant(
        &self,
        reg: &Registration,
        consumer_id: &str,
        consumer: Option<&ProvisionedRecord>,
        target_id: &str,
        target: Option<&ProvisionedRecord>,
        level: &str,
        requester: &str,
        committed: Usd,
    ) -> (r: Result<NewRequest, ProvisionError>)
        ensures
            ({
                let refused = grant_fault(
                    *self,
                    reg.project_id@,
                    consumer_id@,
                    found(consumer),
                    target_id@,
                    found(target),
                    level@,
                );
                let g = grant_order_of(
                    *self,
                    found(consumer)->0,
                    found(target)->0,
                    consumer_id@,
                    target_id@,
                    level@,
                );
                let fault = request_fault(
                    *self,
                    reg.classification@,
                    "access-grant"@,
                    g.name,
                    g.spec,
                );
                match r {
                    Ok(q) => refused is None && fault is None && submission_of(q) == submission(
                        *self,
                        *reg,
                        "access-grant"@,
                        g.name,
                        g.spec,
                        requester@,
                        Some(g.module),
                        committed,
                    ),
                    Err(e) => if refused is Some {
                        refused == Some(e@)
                    } else {
                        fault == Some(e@)
                    },
                }
            }),
    {
        let g = match self.grant_order(
            reg.project_id.as_str(),
            consumer_id,
            consumer,
            target_id,
            target,
            level,
        ) {
            Ok(g) => g,
            Err(e) => {
                return Err(e);
            },
        };
        self.request_inner(
            reg,
            "access-grant",
            g.name.as_str(),
            &g.spec,
            requester,
            Some(g.module.as_str()),
            committed,
        )
    }
}

// ---------------------------------------------------------------------------
// A new image for a live resource
// ---------------------------------------------------------------------------

/// Why a resource does not take a new image: it is not on record for the project,
/// it is not live, or its spec has no image.
pub open spec fn image_fault(
    project_id: Seq<char>,
    resource_id: Seq<char>,
    rec: Option<ProvisionedRecord>,
) -> Option<ProvisionFault> {
    if rec is None || rec->0.project_id@ != project_id {
        Some(ProvisionFault::NotFound(resource_id))
    } else if rec->0.state@ != "provisioned"@ {
        Some(
            ProvisionFault::Conflict(
                "resource "@ + resource_id + " is "@ + rec->0.state@
                    + " (must be provisioned to deploy an image)"@,
            ),
        )
    } else if rec->0.spec@.at("image"@) is None {
        Some(
            ProvisionFault::InvalidSpec(
                "resource "@ + resource_id + " has no `image` field to update"@,
            ),
        )
    } else {
        None
    }
}

/// A spec with another image and nothing else changed.
pub open spec fn with_image(spec: JsonView, image: Seq<char>) -> JsonView {
    match spec {
        JsonView::Object(m) => JsonView::Object(m.insert("image"@, JsonView::Str(image))),
        v => v,
    }
}

/// The spec of a live resource with a new image, to be requested anew under the
/// resource's own name.
pub fn image_spec(
    project_id: &str,
    resource_id: &str,
    rec: Option<&ProvisionedRecord>,
    image: &str,
) -> (r: Result<Json, ProvisionError>)
    ensures
        match r {
            Ok(j) => image_fault(project_id@, resource_id@, found(rec)) is None && j@ == with_image(
                found(rec)->0.spec@,
                image@,
            ),
            Err(e) => image_fault(project_id@, resource_id@, found(rec)) == Some(e@),
        },
{
    let rec = match rec {
        Some(r) => r,
        None => {
            return Err(ProvisionError::NotFound(resource_id.to_owned()));
        },
    };
    if !text_eq(rec.project_id.as_str(), project_id) {
        return Err(ProvisionError::NotFound(resource_id.to_owned()));
    }
    if !text_eq(rec.state.as_str(), "provisioned") {
        let mut m = "resource ".to_owned();
        m.append(resource_id);
        m.append(" is ");
        m.append(rec.state.as_str());
        m.append(" (must be provisioned to deploy an image)");
        return Err(ProvisionError::Conflict(m));
    }
    if rec.spec.get("image").is_none() {
        let mut m = "resource ".to_owned();
        m.append(resource_id);
        m.append(" has no `image` field to update");
        return Err(ProvisionError::InvalidSpec(m));
    }
    let mut spec = rec.spec.copy();
    spec.insert_str("image", image);
    Ok(spec)
}

impl ProvisionService {
    /// What is submitted to roll a live resource of an active project onto a new
    /// image, given what the project would then have committed.
    pub fn deploy_image(
        &self,
        reg: &Registration,
        resource_id: &str,
        rec: Option<&ProvisionedRecord>,
        image: &str,
        requester: &str,
        committed: Usd,
    ) -> (r: Result<NewRequest, ProvisionError>)
        ensures
            ({
                let refused = image_fault(reg.project_id@, resource_id@, found(rec));
                let p = found(rec)->0;
                let spec = with_image(p.spec@, image@);
                let fault = request_fault(*self, reg.classification@, p.rtype@, p.name@, spec);
                match r {
                    Ok(q) => refused is None && fault is None && submission_of(q) == submission(
                        *self,
                        *reg,
                        p.rtype@,
                        p.name@,
                        spec,
                        requester@,
                        None,
                        committed,
                    ),
                    Err(e) => if refused is Some {
                        refused == Some(e@)
                    } else {
                        fault == Some(e@)
                    },
                }
            }),
    {
        let spec = match image_spec(reg.project_id.as_str(), resource_id, rec, image) {
            Ok(s) => s,
            Err(e) => {
                return Err(e);
            },
        };
        match rec {
            Some(p) => self.request(
                reg,
                p.rtype.as_str(),
                p.name.as_str(),
                &spec,
                requester,
                committed,
            ),
            None => Err(ProvisionError::NotFound(resource_id.to_owned())),
        }
    }
}

/// A new image leaves every other field of the spec as it was, and deploying the
/// image that is live already changes nothing at all.
pub proof fn law_image_is_all_that_changes(spec: JsonView, image: Seq<char>, key: Seq<char>)
    requires
        spec.at("image"@) is Some,
    ensures
        key != "image"@ ==> with_image(spec, image).at(key) == spec.at(key),
        with_image(spec, image).text_at("image"@) == Some(image),
        spec.text_at("image"@) == Some(image) ==> with_image(spec, image) == spec,
{
    if spec.text_at("image"@) == Some(image) {
        assert(spec->Object_0.insert("image"@, JsonView::Str(image)) =~= spec->Object_0);
    }
}

/// Access never crosses from one project to another.
pub proof fn law_grants_stay_in_the_project(
    s: ProvisionService,
    project_id: Seq<char>,
    consumer_id: Seq<char>,
    consumer: ProvisionedRecord,
    target_id: Seq<char>,
    target: ProvisionedRecord,
    level: Seq<char>,
)
    requires
        grant_fault(
            s,
            project_id,
            consumer_id,
            Some(consumer),
            target_id,
            Some(target),
            level,
        ) is None,
    ensures
        consumer.project_id@ == project_id,
        target.project_id@ == project_id,
{
}

/// A grant is made exactly when both resources are on record for the project and
/// `provisioned`, both services are in the catalog, the target's service grants access to
/// the kind of principal that the consumer's service has, the consumer has the output
/// that names its principal, the target has its `arn`, and the level is one of the
/// target's.
pub proof fn law_which_grants_are_made(
    s: ProvisionService,
    project_id: Seq<char>,
    consumer_id: Seq<char>,
    consumer: Option<ProvisionedRecord>,
    target_id: Seq<char>,
    target: Option<ProvisionedRecord>,
    level: Seq<char>,
)
    ensures
        grant_fault(s, project_id, consumer_id, consumer, target_id, target, level) is None <==> {
            &&& consumer is Some
            &&& target is Some
            &&& {
                let (c, t) = (consumer->0, target->0);
                let (cm, tm) = (s.catalog@[c.rtype@], s.catalog@[t.rtype@]);
                &&& c.project_id@ == project_id
                &&& t.project_id@ == project_id
                &&& c.state@ == "provisioned"@
                &&& t.state@ == "provisioned"@
                &&& s.catalog@.contains_key(c.rtype@)
                &&& s.catalog@.contains_key(t.rtype@)
                &&& tm.grant is Some
                &&& cm.principal_kind is Some
                &&& cm.principal_kind->0@ == tm.grant->0.principal_kind@
                &&& cm.principal_output is Some
                &&& c.outputs@.text_at(cm.principal_output->0@) is Some
                &&& t.outputs@.text_at("arn"@) is Some
                &&& tm.access_levels@.contains_key(level)
            }
        },
        consumer is None ==> grant_fault(
            s,
            project_id,
            consumer_id,
            consumer,
            target_id,
            target,
            level,
        ) == Some(ProvisionFault::NotFound(consumer_id)),
        consumer is Some && target is None ==> grant_fault(
            s,
            project_id,
            consumer_id,
            consumer,
            target_id,
            target,
            level,
        ) == Some(ProvisionFault::NotFound(target_id)),
{
}

/// A grant names both resources, the level, the principal that the consumer put out, the
/// target's `arn` and the actions of that level, and goes through the target's module.
pub proof fn law_grant_says_who_gets_what(
    c: ProvisionedRecord,
    t: ProvisionedRecord,
    cm: ServiceManifest,
    tm: ServiceManifest,
    consumer_id: Seq<char>,
    target_id: Seq<char>,
    level: Seq<char>,
)
    requires
        pairing_fault(c, t, cm, tm, level) is None,
    ensures
        ({
            let g = grant_for(c, t, cm, tm, consumer_id, target_id, level);
            &&& g.name == "grant-"@ + c.name@ + "-"@ + t.name@ + "-"@ + level
            &&& g.spec.text_at("consumer_resource_id"@) == Some(consumer_id)
            &&& g.spec.text_at("target_resource_id"@) == Some(target_id)
            &&& g.spec.text_at("level"@) == Some(level)
            &&& g.spec.text_at("principal_role_arn"@) == c.outputs@.text_at(
                cm.principal_output->0@,
            )
            &&& g.spec.text_at("target_arn"@) == t.outputs@.text_at("arn"@)
            &&& g.spec.at("actions"@) == Some(
                JsonView::Array(strings_view(texts(tm.access_levels@[level]@))),
            )
            &&& g.module == tm.grant->0.module@
        }),
{
    reveal_strlit("consumer_resource_id");
    reveal_strlit("target_resource_id");
    reveal_strlit("level");
    reveal_strlit("principal_role_arn");
    reveal_strlit("target_arn");
    reveal_strlit("actions");
    assert("consumer_resource_id"@.len() == 20);
    assert("target_resource_id"@.len() == 18);
    assert("level"@.len() == 5);
    assert("principal_role_arn"@.len() == 18);
    assert("target_arn"@.len() == 10);
    assert("actions"@.len() == 7);
    assert("target_resource_id"@[0] != "principal_role_arn"@[0]);
}

/// A new image is taken exactly by a resource that is on record for the project, is
/// `provisioned` and has an image in its spec.
pub proof fn law_which_resources_take_an_image(
    project_id: Seq<char>,
    resource_id: Seq<char>,
    rec: Option<ProvisionedRecord>,
)
    ensures
        image_fault(project_id, resource_id, rec) is None <==> (rec is Some
            && rec->0.project_id@ == project_id && rec->0.state@ == "provisioned"@
            && rec->0.spec@.at("image"@) is Some),
        rec is None || rec->0.project_id@ != project_id ==> image_fault(
            project_id,
            resource_id,
            rec,
        ) == Some(ProvisionFault::NotFound(resource_id)),
        rec is Some && rec->0.project_id@ == project_id && rec->0.state@ != "provisioned"@
            ==> image_fault(project_id, resource_id, rec)->0 is Conflict,
{
}

} // verus!
