//! The dry-run connector: outputs that depend on the request alone, and nothing
//! touched. It stands in for every connector that is not registered.
use vstd::prelude::*;

use crate::json::{Json, JsonView};
use crate::provision::context::text_map;
use crate::provision::outputs::{Plan, Provisioned};
use crate::provision::seal::{hex_of, random_secret};
use crate::provision::work::{ProvisionRequest, RequestView};
use crate::text::{copy_texts, lemma_take_more, text_eq, texts};

verus! {

/// The dry-run connector.
#[derive(Debug)]
pub struct StubProvisioner;

/// The name of a pretended resource.
pub open spec fn stub_arn(req: RequestView) -> Seq<char> {
    "arn:stub:"@ + req.resource_type + ":"@ + req.ctx.project_id + ":"@ + req.name
}

/// The outputs of a pretended resource, without its secrets.
pub open spec fn stub_outputs(req: RequestView) -> Map<Seq<char>, JsonView> {
    let base = Map::empty().insert("arn"@, JsonView::Str(stub_arn(req)));
    if req.resource_type == "s3-bucket"@ {
        base.insert("bucket"@, JsonView::Str(req.name))
    } else if req.resource_type == "rds-postgres"@ {
        base.insert("endpoint"@, JsonView::Str(req.name + ".stub.local:5432"@))
    } else {
        base
    }
}

/// Fresh secret material.
pub open spec fn fresh_secret(v: JsonView) -> bool {
    v matches JsonView::Str(s) && s.len() == 64 && exists|b: Seq<u8>|
        b.len() == 32 && s == #[trigger] hex_of(b)
}

impl StubProvisioner {
    /// The dry-run connector.
    pub fn new() -> (r: StubProvisioner)
        ensures
            r == StubProvisioner,
    {
        StubProvisioner
    }

    /// Its name.
    pub fn name(&self) -> (r: &'static str)
        ensures
            r@ == "stub"@,
    {
        "stub"
    }

    /// It always only pretends.
    pub fn dry_run(&self) -> (r: bool)
        ensures
            r,
    {
        true
    }

    /// It pretends any service.
    pub fn supports(&self, _resource_type: &str) -> (r: bool)
        ensures
            r,
    {
        true
    }

    /// What it would pretend to do.
    pub fn plan(&self, req: &ProvisionRequest) -> (r: Plan)
        ensures
            r.summary@ == "[dry-run] would create "@ + req@.resource_type + " '"@ + req@.name
                + "' for "@ + req@.ctx.project_id,
            text_map(r.tags@) == req@.ctx.tag_map(),
            r.estimated_monthly_usd == req@.estimated_monthly_usd,
    {
        let mut s = "[dry-run] would create ".to_owned();
        s.append(req.resource_type.as_str());
        s.append(" '");
        s.append(req.name.as_str());
        s.append("' for ");
        s.append(req.ctx.project_id.as_str());
        Plan {
            summary: s,
            tags: req.ctx.tags(),
            estimated_monthly_usd: req.estimated_monthly_usd,
        }
    }

    /// Pretends a resource: outputs that the request determines, and fresh random
    /// values for its secrets.
    pub fn apply(&self, req: &ProvisionRequest) -> (r: Provisioned)
        ensures
            r.outputs@ is Object,
            forall|k: Seq<char>| #[trigger]
                r.outputs@->Object_0.contains_key(k) <==> stub_outputs(req@).contains_key(k)
                    || req@.secret_outputs.contains(k),
            forall|k: Seq<char>| #[trigger]
                r.outputs@->Object_0.contains_key(k) ==> if req@.secret_outputs.contains(k) {
                    fresh_secret(r.outputs@->Object_0[k])
                } else {
                    r.outputs@->Object_0[k] == stub_outputs(req@)[k]
                },
            texts(r.resource_ids@) == seq![stub_arn(req@)],
            texts(r.sensitive_keys@) == req@.secret_outputs,
    {
        let mut arn = "arn:stub:".to_owned();
        arn.append(req.resource_type.as_str());
        arn.append(":");
        arn.append(req.ctx.project_id.as_str());
        arn.append(":");
        arn.append(req.name.as_str());
        let mut outputs = Json::object();
        outputs.insert_str("arn", arn.as_str());
        if text_eq(req.resource_type.as_str(), "s3-bucket") {
            outputs.insert_str("bucket", req.name.as_str());
        } else if text_eq(req.resource_type.as_str(), "rds-postgres") {
            let mut endpoint = req.name.clone();
            endpoint.append(".stub.local:5432");
            outputs.insert_str("endpoint", endpoint.as_str());
        }
        let ghost base = stub_outputs(req@);
        assert(outputs@ == JsonView::Object(base));
        let secrets = &req.secret_outputs;
        let ghost names = texts(secrets@);
        let mut i: usize = 0;
        while i < secrets.len()
            invariant
                i <= secrets@.len(),
                names == texts(secrets@),
                outputs@ is Object,
                forall|k: Seq<char>| #[trigger]
                    outputs@->Object_0.contains_key(k) <==> base.contains_key(k) || names.take(
                        i as int,
                    ).contains(k),
                forall|k: Seq<char>| #[trigger]
                    outputs@->Object_0.contains_key(k) ==> if names.take(i as int).contains(k) {
                        fresh_secret(outputs@->Object_0[k])
                    } else {
                        outputs@->Object_0[k] == base[k]
                    },
            decreases secrets.len() - i,
        {
            let value = random_secret();
            outputs.insert_str(secrets[i].as_str(), value.as_str());
            proof {
                assert(fresh_secret(JsonView::Str(value@)));
                lemma_take_more(names, i as int);
            }
            i = i + 1;
        }
        assert(names.take(secrets@.len() as int) =~= names);
        let mut ids: Vec<String> = Vec::new();
        ids.push(arn);
        assert(texts(ids@) =~= seq![stub_arn(req@)]);
        Provisioned {
            outputs,
            resource_ids: ids,
            sensitive_keys: copy_texts(&req.secret_outputs),
        }
    }

    /// Pretends to stop a resource, always with success.
    pub fn stop(&self) -> (r: bool)
        ensures
            r,
    {
        true
    }

    /// Pretends to resume a resource, always with success.
    pub fn resume(&self) -> (r: bool)
        ensures
            r,
    {
        true
    }
}

/// A pretended resource has an `arn` of its type, project and name; a bucket has its name
/// and a database its endpoint beside it, and nothing else has more.
pub proof fn law_what_is_pretended(req: RequestView, key: Seq<char>)
    ensures
        stub_outputs(req).contains_pair(
            "arn"@,
            JsonView::Str(
                "arn:stub:"@ + req.resource_type + ":"@ + req.ctx.project_id + ":"@ + req.name,
            ),
        ),
        req.resource_type == "s3-bucket"@ ==> stub_outputs(req).contains_pair(
            "bucket"@,
            JsonView::Str(req.name),
        ),
        req.resource_type == "rds-postgres"@ ==> stub_outputs(req).contains_pair(
            "endpoint"@,
            JsonView::Str(req.name + ".stub.local:5432"@),
        ),
        stub_outputs(req).contains_key(key) ==> key == "arn"@ || (key == "bucket"@
            && req.resource_type == "s3-bucket"@) || (key == "endpoint"@ && req.resource_type
            == "rds-postgres"@),
{
    reveal_strlit("arn");
    reveal_strlit("bucket");
    reveal_strlit("endpoint");
    assert("arn"@.len() == 3);
    assert("bucket"@.len() == 6);
    assert("endpoint"@.len() == 8);
    reveal_strlit("s3-bucket");
    reveal_strlit("rds-postgres");
    assert("s3-bucket"@.len() == 9);
    assert("rds-postgres"@.len() == 12);
}

} // verus!
