//! The LiteLLM source: the spend of the keys that a project was given.
use vstd::prelude::*;

use crate::json::{Json, JsonView};
use crate::provision::cost::{service_cost, unavailable, CostView, ServiceCost};
use crate::provision::repo::ProvisionedRecord;
use crate::text::{contents, text_eq, texts};
use crate::usd::Usd;

verus! {

/// The source that reads a proxy.
#[derive(Debug)]
pub struct LiteLlmCostSource;

/// The aliases of a project's keys, in the order of its records.
pub open spec fn aliases_among(records: Seq<ProvisionedRecord>) -> Seq<Seq<char>>
    decreases records.len(),
{
    if records.len() == 0 {
        Seq::empty()
    } else {
        let rest = aliases_among(records.drop_last());
        let r = records.last();
        match r.outputs@.text_at("key_alias"@) {
            Some(a) => if r.rtype@ == "litellm-key"@ {
                rest.push(a)
            } else {
                rest
            },
            None => rest,
        }
    }
}

/// The aliases of a project's keys.
pub fn aliases(records: &Vec<ProvisionedRecord>) -> (r: Vec<String>)
    ensures
        texts(r@) == aliases_among(records@),
{
    let mut out: Vec<String> = Vec::new();
    let mut i: usize = 0;
    assert(records@.take(0) =~= Seq::empty());
    assert(texts(out@) =~= Seq::empty());
    while i < records.len()
        invariant
            i <= records@.len(),
            texts(out@) == aliases_among(records@.take(i as int)),
        decreases records.len() - i,
    {
        assert(records@.take(i + 1).drop_last() =~= records@.take(i as int));
        let ghost prev = texts(out@);
        let rec = &records[i];
        if text_eq(rec.rtype.as_str(), "litellm-key") {
            match rec.outputs.get_str("key_alias") {
                Some(a) => {
                    out.push(a.to_owned());
                    assert(texts(out@) =~= prev.push(a@));
                },
                None => {},
            }
        }
        i = i + 1;
    }
    assert(records@.take(records@.len() as int) =~= records@);
    out
}

/// The writing of the spend in a proxy's reply: under `info`, or else at the top.
pub open spec fn spend_written(payload: JsonView) -> Option<Seq<char>> {
    let nested = match payload.at("info"@) {
        Some(i) => i.at("spend"@),
        None => None,
    };
    let found = match nested {
        Some(v) => Some(v),
        None => payload.at("spend"@),
    };
    match found {
        Some(JsonView::Number(n)) => Some(n),
        _ => None,
    }
}

/// The writing of the spend in a proxy's reply, to be read as a number.
pub fn parse_key_spend(payload: &Json) -> (r: Option<String>)
    ensures
        contents(r) == spend_written(payload@),
{
    let nested = match payload.get("info") {
        Some(i) => i.get("spend"),
        None => None,
    };
    let found = match nested {
        Some(v) => Some(v),
        None => payload.get("spend"),
    };
    match found {
        Some(Json::Number(n)) => Some(n.clone()),
        _ => None,
    }
}

impl LiteLlmCostSource {
    /// Its name.
    pub fn name(&self) -> (r: &'static str)
        ensures
            r@ == "litellm"@,
    {
        "litellm"
    }

    /// What is reported of the total of all keys; a project without keys has spent
    /// nothing.
    pub fn measured(&self, total: Usd) -> (r: ServiceCost)
        ensures
            r@ == (CostView {
                backend: "litellm"@,
                actual_usd: Some(total),
                source: "litellm"@,
            }),
    {
        service_cost("litellm", Some(total), "litellm")
    }

    /// What is reported where something kept the spend from being read.
    pub fn unmeasured(&self, why: &str) -> (r: ServiceCost)
        ensures
            r@ == (CostView {
                backend: "litellm"@,
                actual_usd: None,
                source: "litellm"@ + " unavailable: "@ + why@,
            }),
    {
        unavailable("litellm", "litellm", why)
    }

    /// What is reported where one key's spend could not be read.
    pub fn key_unread(&self, alias: &str) -> (r: ServiceCost)
        ensures
            r@ == (CostView {
                backend: "litellm"@,
                actual_usd: None,
                source: "litellm"@ + " unavailable: "@ + ("key/info for "@ + alias@),
            }),
    {
        let mut why = "key/info for ".to_owned();
        why.append(alias);
        self.unmeasured(why.as_str())
    }
}

/// The keys of a project are the resources of type `litellm-key` that have an alias among
/// their outputs, in order.
pub proof fn law_which_keys_are_the_projects(records: Seq<ProvisionedRecord>)
    ensures
        aliases_among(records) == records.filter(
            |r: ProvisionedRecord|
                r.rtype@ == "litellm-key"@ && r.outputs@.text_at("key_alias"@) is Some,
        ).map_values(|r: ProvisionedRecord| r.outputs@.text_at("key_alias"@)->0),
    decreases records.len(),
{
    reveal(Seq::filter);
    let f = |r: ProvisionedRecord|
        r.rtype@ == "litellm-key"@ && r.outputs@.text_at("key_alias"@) is Some;
    let g = |r: ProvisionedRecord| r.outputs@.text_at("key_alias"@)->0;
    if records.len() > 0 {
        let t = records.drop_last();
        law_which_keys_are_the_projects(t);
        let last = records.last();
        assert(t.filter(f).push(last).map_values(g) =~= t.filter(f).map_values(g).push(g(last)));
    }
    assert(aliases_among(records) =~= records.filter(f).map_values(g));
}

/// The spend of a key is the number under `info` and `spend`, or under `spend` where
/// there is none below `info`.
pub proof fn law_where_the_spend_stands(payload: JsonView, n: Seq<char>)
    ensures
        payload.at("info"@) is Some && payload.at("info"@)->0.at("spend"@) == Some(
            JsonView::Number(n),
        ) ==> spend_written(payload) == Some(n),
        (payload.at("info"@) is None || payload.at("info"@)->0.at("spend"@) is None) && payload.at(
            "spend"@,
        ) == Some(JsonView::Number(n)) ==> spend_written(payload) == Some(n),
        (payload.at("info"@) is None || payload.at("info"@)->0.at("spend"@) is None) && payload.at(
            "spend"@,
        ) is None ==> spend_written(payload) is None,
{
}

} // verus!
