//! The service catalog: one manifest per service says how it is provisioned,
//! what it costs and who may have it.
use vstd::prelude::*;

use crate::json::{Json, JsonView};
use crate::provision::{ProvisionError, ProvisionFault};
use crate::registry::promotion::lemma_tiers_differ;
use crate::registry::{classification_names, classifications};
use crate::sorted_map::SortedMap;
use crate::text::{blank, contents, copy_option, is_blank, list_contains, text_eq, texts};
use crate::usd::Usd;

verus! {

/// How a service is provisioned.
#[derive(Debug)]
pub struct ProvisionerCfg {
    pub connector: String,
    /// What the connector is told; the manifest does not look into it.
    pub config: Json,
}

/// Where the cost of a service is read.
#[derive(Debug)]
pub struct CostSourceCfg {
    pub source_type: String,
}

/// What a service costs.
#[derive(Debug)]
pub struct CostCfg {
    pub model: String,
    pub estimated_monthly_usd: Usd,
    pub source: CostSourceCfg,
}

/// How a grant against a resource is bound.
#[derive(Debug)]
pub struct GrantCfg {
    pub module: String,
    pub principal_kind: String,
}

/// One size or kind of a service.
#[derive(Debug)]
pub struct Variant {
    pub estimated_monthly_usd: Option<Usd>,
    pub classification_min: Option<String>,
    pub requires_approval: bool,
}

/// The variants of a service, by the value of one field of the spec.
#[derive(Debug)]
pub struct Variants {
    pub field: String,
    pub options: SortedMap<Variant>,
}

/// A service's own retry settings; what is absent comes from the deployment.
#[derive(Debug)]
pub struct RetryCfg {
    pub max_attempts: Option<u32>,
    pub base_secs: Option<u64>,
    pub cap_secs: Option<u64>,
}

/// A model that an inference backend serves.
#[derive(Debug)]
pub struct InferenceModel {
    pub model_ref: String,
    pub route: String,
    pub data_classes: Vec<String>,
    pub cost_in: Usd,
    pub cost_out: Usd,
}

/// How an inference backend is reached.
#[derive(Debug)]
pub struct InferenceCfg {
    pub kind: String,
    pub base_url: Option<String>,
    pub base_url_env: Option<String>,
    pub chat_path: Option<String>,
    pub api_key_env: String,
    pub models: Vec<InferenceModel>,
}

/// A service manifest.
#[derive(Debug)]
pub struct ServiceManifest {
    pub id: String,
    pub name: String,
    pub category: String,
    pub status: String,
    pub classification_min: Option<String>,
    pub classification_max: Option<String>,
    pub description: String,
    pub auto_approvable: bool,
    pub required_fields: Vec<String>,
    /// Outputs whose values are secrets.
    pub secret_outputs: Vec<String>,
    pub provisioner: ProvisionerCfg,
    pub cost: CostCfg,
    pub tags: Vec<String>,
    pub documentation: Option<String>,
    pub inference: Option<InferenceCfg>,
    pub variants: Option<Variants>,
    /// The access this service can hand out: the actions of each level.
    pub access_levels: SortedMap<Vec<String>>,
    pub grant: Option<GrantCfg>,
    /// The output that holds the identity access is granted to.
    pub principal_output: Option<String>,
    pub principal_kind: Option<String>,
    /// Whether a request returns before its work is done.
    pub long_running: bool,
    pub retry: Option<RetryCfg>,
}

/// What a request for a service comes to once its variant is known.
#[derive(Debug)]
pub struct Resolved {
    pub estimated_monthly_usd: Usd,
    pub classification_min: Option<String>,
    pub force_review: bool,
}

/// The status of a manifest that does not say.
pub fn default_status() -> (r: String)
    ensures
        r@ == "live"@,
{
    "live".to_owned()
}

/// The cost model of a manifest that does not say.
pub fn default_cost_model() -> (r: String)
    ensures
        r@ == "usage"@,
{
    "usage".to_owned()
}

/// The cost source of a manifest that does not say.
pub fn default_source_type() -> (r: String)
    ensures
        r@ == "none"@,
{
    "none".to_owned()
}

impl Default for CostSourceCfg {
    fn default() -> (r: CostSourceCfg)
        ensures
            r.source_type@ == "none"@,
    {
        CostSourceCfg { source_type: default_source_type() }
    }
}

/// The rank of a project classification; an unknown one ranks lowest.
pub open spec fn class_rank_of(c: Seq<char>) -> int {
    if c == "light-operational"@ {
        1
    } else if c == "wide-operational"@ {
        2
    } else if c == "critical-path"@ {
        3
    } else {
        0
    }
}

/// The rank of a project classification.
pub fn class_rank(c: &str) -> (r: i32)
    ensures
        r == class_rank_of(c@),
        0 <= r <= 3,
{
    if text_eq(c, "light-operational") {
        1
    } else if text_eq(c, "wide-operational") {
        2
    } else if text_eq(c, "critical-path") {
        3
    } else {
        0
    }
}

/// The connectors a manifest may name.
pub open spec fn connector_names() -> Seq<Seq<char>> {
    seq!["terraform"@, "exec"@, "http"@, "mcp"@, "litellm"@, "stub"@]
}

fn known_connectors() -> (r: Vec<String>)
    ensures
        texts(r@) == connector_names(),
{
    let v = vec![
        "terraform".to_owned(),
        "exec".to_owned(),
        "http".to_owned(),
        "mcp".to_owned(),
        "litellm".to_owned(),
        "stub".to_owned(),
    ];
    assert(texts(v@) =~= connector_names());
    v
}

/// The kinds of inference backend.
pub open spec fn inference_kinds() -> Seq<Seq<char>> {
    seq!["openai"@, "anthropic"@, "openai-compatible"@]
}

fn known_inference_kinds() -> (r: Vec<String>)
    ensures
        texts(r@) == inference_kinds(),
{
    let v = vec!["openai".to_owned(), "anthropic".to_owned(), "openai-compatible".to_owned()];
    assert(texts(v@) =~= inference_kinds());
    v
}

/// The cost sources a manifest may name.
pub open spec fn cost_source_names() -> Seq<Seq<char>> {
    seq![
        "none"@,
        "free"@,
        "flat"@,
        "gateway"@,
        "aws-cost-explorer"@,
        "gcp-billing"@,
        "azure-cost-management"@,
        "databricks-billing"@,
        "litellm"@,
        "exec"@,
    ]
}

fn known_cost_sources() -> (r: Vec<String>)
    ensures
        texts(r@) == cost_source_names(),
{
    let v = vec![
        "none".to_owned(),
        "free".to_owned(),
        "flat".to_owned(),
        "gateway".to_owned(),
        "aws-cost-explorer".to_owned(),
        "gcp-billing".to_owned(),
        "azure-cost-management".to_owned(),
        "databricks-billing".to_owned(),
        "litellm".to_owned(),
        "exec".to_owned(),
    ];
    assert(texts(v@) =~= cost_source_names());
    v
}

/// The first of two optional texts that is there.
pub open spec fn either(a: Option<Seq<char>>, b: Option<Seq<char>>) -> Option<Seq<char>> {
    match a {
        Some(s) => Some(s),
        None => b,
    }
}

/// What a resolved request says.
pub struct ResolvedView {
    pub estimated_monthly_usd: Usd,
    pub classification_min: Option<Seq<char>>,
    pub force_review: bool,
}

impl View for Resolved {
    type V = ResolvedView;

    open spec fn view(&self) -> ResolvedView {
        ResolvedView {
            estimated_monthly_usd: self.estimated_monthly_usd,
            classification_min: contents(self.classification_min),
            force_review: self.force_review,
        }
    }
}

/// The variant that a spec selects.
pub open spec fn selected(v: Variants, spec: JsonView) -> Option<Variant> {
    match spec.text_at(v.field@) {
        Some(k) => if v.options@.contains_key(k) {
            Some(v.options@[k])
        } else {
            None
        },
        None => None,
    }
}

/// What a request with this spec comes to: without variants the service's own
/// terms; with them those of the selected variant, and a review where none of
/// them is selected.
pub open spec fn resolution(m: ServiceManifest, spec: JsonView) -> ResolvedView {
    let own = m.cost.estimated_monthly_usd;
    let floor = contents(m.classification_min);
    match m.variants {
        None => ResolvedView {
            estimated_monthly_usd: own,
            classification_min: floor,
            force_review: false,
        },
        Some(v) => match selected(v, spec) {
            None => ResolvedView {
                estimated_monthly_usd: own,
                classification_min: floor,
                force_review: true,
            },
            Some(o) => ResolvedView {
                estimated_monthly_usd: match o.estimated_monthly_usd {
                    Some(e) => e,
                    None => own,
                },
                classification_min: either(contents(o.classification_min), floor),
                force_review: o.requires_approval,
            },
        },
    }
}

/// Why a project's tier is out of a service's range.
pub open spec fn tier_objection(
    m: ServiceManifest,
    classification: Seq<char>,
    resolved: ResolvedView,
) -> Option<Seq<char>> {
    let rank = class_rank_of(classification);
    let floor = either(resolved.classification_min, contents(m.classification_min));
    let ceiling = contents(m.classification_max);
    if floor matches Some(min) && rank < class_rank_of(min) {
        Some(
            "service '"@ + m.id@ + "' requires classification '"@ + floor->0
                + "' or higher (project is '"@ + classification + "')"@,
        )
    } else if ceiling matches Some(max) && rank > class_rank_of(max) {
        Some(
            "service '"@ + m.id@ + "' is only available up to classification '"@ + ceiling->0
                + "' (project is '"@ + classification + "')"@,
        )
    } else {
        None
    }
}

fn service_error(id: &str, what: &str, value: &str, tail: &str) -> (r: ProvisionError)
    ensures
        r@ == ProvisionFault::InvalidSpec("service '"@ + id@ + what@ + value@ + tail@),
{
    let mut m = "service '".to_owned();
    m.append(id);
    m.append(what);
    m.append(value);
    m.append(tail);
    ProvisionError::InvalidSpec(m)
}

/// What is wrong with a classification bound of a manifest.
pub open spec fn bound_fault(id: Seq<char>, bound: Option<Seq<char>>) -> Option<ProvisionFault> {
    match bound {
        Some(c) => if classification_names().contains(c) {
            None
        } else {
            Some(
                ProvisionFault::InvalidSpec(
                    "service '"@ + id + "': unknown classification '"@ + c + "'"@,
                ),
            )
        },
        None => None,
    }
}

/// What is wrong with the inference section of a manifest.
pub open spec fn inference_fault(id: Seq<char>, inf: Option<InferenceCfg>) -> Option<
    ProvisionFault,
> {
    match inf {
        Some(i) => if !inference_kinds().contains(i.kind@) {
            Some(
                ProvisionFault::InvalidSpec(
                    "service '"@ + id + "': unknown inference kind '"@ + i.kind@ + "'"@,
                ),
            )
        } else if blank(i.api_key_env@) {
            Some(
                ProvisionFault::InvalidSpec(
                    "service '"@ + id + "': inference.api_key_env is required"@,
                ),
            )
        } else {
            None
        },
        None => None,
    }
}

/// The first thing that is wrong with a manifest.
pub open spec fn manifest_fault(m: ServiceManifest) -> Option<ProvisionFault> {
    if blank(m.id@) {
        Some(ProvisionFault::InvalidSpec("manifest has empty id"@))
    } else if !connector_names().contains(m.provisioner.connector@) {
        Some(
            ProvisionFault::InvalidSpec(
                "service '"@ + m.id@ + "': unknown connector '"@ + m.provisioner.connector@ + "'"@,
            ),
        )
    } else if !cost_source_names().contains(m.cost.source.source_type@) {
        Some(
            ProvisionFault::InvalidSpec(
                "service '"@ + m.id@ + "': unknown cost source '"@ + m.cost.source.source_type@
                    + "'"@,
            ),
        )
    } else if inference_fault(m.id@, m.inference) is Some {
        inference_fault(m.id@, m.inference)
    } else if bound_fault(m.id@, contents(m.classification_min)) is Some {
        bound_fault(m.id@, contents(m.classification_min))
    } else {
        bound_fault(m.id@, contents(m.classification_max))
    }
}

fn check_bound(id: &str, bound: &Option<String>) -> (r: Result<(), ProvisionError>)
    ensures
        match r {
            Ok(_) => bound_fault(id@, contents(*bound)) is None,
            Err(e) => bound_fault(id@, contents(*bound)) == Some(e@),
        },
{
    match bound {
        Some(c) => {
            let known = classifications();
            if list_contains(&known, c.as_str()) {
                Ok(())
            } else {
                Err(service_error(id, "': unknown classification '", c.as_str(), "'"))
            }
        },
        None => Ok(()),
    }
}

impl ServiceManifest {
    /// The connector the service is provisioned through.
    pub fn connector(&self) -> (r: &str)
        ensures
            r@ == self.provisioner.connector@,
    {
        self.provisioner.connector.as_str()
    }

    /// The cost, floor and need for review of a request with this spec.
    pub fn resolve(&self, spec: &Json) -> (r: Resolved)
        ensures
            r@ == resolution(*self, spec@),
    {
        let own = self.cost.estimated_monthly_usd;
        match &self.variants {
            None => Resolved {
                estimated_monthly_usd: own,
                classification_min: copy_option(&self.classification_min),
                force_review: false,
            },
            Some(v) => {
                let option = match spec.get_str(v.field.as_str()) {
                    Some(k) => v.options.get(k),
                    None => None,
                };
                match option {
                    None => Resolved {
                        estimated_monthly_usd: own,
                        classification_min: copy_option(&self.classification_min),
                        force_review: true,
                    },
                    Some(o) => Resolved {
                        estimated_monthly_usd: match &o.estimated_monthly_usd {
                            Some(e) => *e,
                            None => own,
                        },
                        classification_min: match &o.classification_min {
                            Some(c) => Some(c.clone()),
                            None => copy_option(&self.classification_min),
                        },
                        force_review: o.requires_approval,
                    },
                }
            },
        }
    }

    /// Why a project at `classification` may not use the service, if so.
    pub fn tier_violation(&self, classification: &str, resolved: &Resolved) -> (r: Option<String>)
        ensures
            contents(r) == tier_objection(*self, classification@, resolved@),
    {
        let rank: i32 = class_rank(classification);
        let floor = match &resolved.classification_min {
            Some(c) => Some(c.clone()),
            None => copy_option(&self.classification_min),
        };
        match &floor {
            Some(min) => {
                if rank < class_rank(min.as_str()) {
                    let mut m = "service '".to_owned();
                    m.append(self.id.as_str());
                    m.append("' requires classification '");
                    m.append(min.as_str());
                    m.append("' or higher (project is '");
                    m.append(classification);
                    m.append("')");
                    return Some(m);
                }
            },
            None => {},
        }
        match &self.classification_max {
            Some(max) => {
                if rank > class_rank(max.as_str()) {
                    let mut m = "service '".to_owned();
                    m.append(self.id.as_str());
                    m.append("' is only available up to classification '");
                    m.append(max.as_str());
                    m.append("' (project is '");
                    m.append(classification);
                    m.append("')");
                    return Some(m);
                }
            },
            None => {},
        }
        None
    }

    /// What the connector is told: the configuration, or an empty object where
    /// the manifest has none.
    pub fn connector_config(&self) -> (r: Json)
        ensures
            r@ == config_of(*self),
    {
        match &self.provisioner.config {
            Json::Null => Json::object(),
            v => v.copy(),
        }
    }

    /// Checks the manifest.
    pub fn validate(&self) -> (r: Result<(), ProvisionError>)
        ensures
            match r {
                Ok(_) => manifest_fault(*self) is None,
                Err(e) => manifest_fault(*self) == Some(e@),
            },
    {
        let id = self.id.as_str();
        if is_blank(id) {
            return Err(ProvisionError::invalid("manifest has empty id"));
        }
        let connectors = known_connectors();
        if !list_contains(&connectors, self.provisioner.connector.as_str()) {
            return Err(
                service_error(
                    id,
                    "': unknown connector '",
                    self.provisioner.connector.as_str(),
                    "'",
                ),
            );
        }
        let sources = known_cost_sources();
        if !list_contains(&sources, self.cost.source.source_type.as_str()) {
            return Err(
                service_error(
                    id,
                    "': unknown cost source '",
                    self.cost.source.source_type.as_str(),
                    "'",
                ),
            );
        }
        match &self.inference {
            Some(inf) => {
                let kinds = known_inference_kinds();
                if !list_contains(&kinds, inf.kind.as_str()) {
                    return Err(
                        service_error(id, "': unknown inference kind '", inf.kind.as_str(), "'"),
                    );
                }
                if is_blank(inf.api_key_env.as_str()) {
                    let mut m = "service '".to_owned();
                    m.append(id);
                    m.append("': inference.api_key_env is required");
                    return Err(ProvisionError::InvalidSpec(m));
                }
            },
            None => {},
        }
        match check_bound(id, &self.classification_min) {
            Ok(_) => check_bound(id, &self.classification_max),
            Err(e) => Err(e),
        }
    }
}

/// What the connector of a service is told.
pub open spec fn config_of(m: ServiceManifest) -> JsonView {
    match m.provisioner.config@ {
        JsonView::Null => JsonView::Object(Map::empty()),
        v => v,
    }
}

/// The catalog: the manifests by their ids.
#[derive(Debug)]
pub struct ServiceCatalog {
    services: SortedMap<ServiceManifest>,
}

impl View for ServiceCatalog {
    type V = Map<Seq<char>, ServiceManifest>;

    closed spec fn view(&self) -> Map<Seq<char>, ServiceManifest> {
        self.services@
    }
}

/// Whether a spec fills a field in: it is there, and neither null nor the empty
/// text.
pub open spec fn fills(spec: JsonView, field: Seq<char>) -> bool {
    match spec.at(field) {
        Some(v) => v != JsonView::Null && v != JsonView::Str(Seq::empty()),
        None => false,
    }
}

/// The first required field that a spec does not fill in.
pub open spec fn first_unfilled(required: Seq<Seq<char>>, spec: JsonView) -> Option<Seq<char>>
    decreases required.len(),
{
    if required.len() == 0 {
        None
    } else if !fills(spec, required[0]) {
        Some(required[0])
    } else {
        first_unfilled(required.subrange(1, required.len() as int), spec)
    }
}

/// Why a spec is refused for a service.
pub open spec fn spec_fault(
    catalog: Map<Seq<char>, ServiceManifest>,
    id: Seq<char>,
    spec: JsonView,
) -> Option<ProvisionFault> {
    if !catalog.contains_key(id) {
        Some(ProvisionFault::Unsupported(id))
    } else {
        match first_unfilled(texts(catalog[id].required_fields@), spec) {
            Some(f) => Some(
                ProvisionFault::InvalidSpec("service '"@ + id + "' requires field '"@ + f + "'"@),
            ),
            None => None,
        }
    }
}

fn is_filled(spec: &Json, field: &str) -> (r: bool)
    ensures
        r == fills(spec@, field@),
{
    match spec.get(field) {
        Some(Json::Null) => false,
        Some(Json::Str(s)) => {
            let empty = s.as_str().is_empty();
            proof {
                if empty {
                    assert(s@ =~= Seq::<char>::empty());
                }
            }
            !empty
        },
        Some(_) => true,
        None => false,
    }
}

impl ServiceCatalog {
    /// An empty catalog.
    pub fn new() -> (r: ServiceCatalog)
        ensures
            r@ == Map::<Seq<char>, ServiceManifest>::empty(),
    {
        ServiceCatalog { services: SortedMap::new() }
    }

    /// Adds a manifest under its id, in place of one that is there already, once
    /// it has been checked.
    pub fn add(&mut self, m: ServiceManifest) -> (r: Result<(), ProvisionError>)
        ensures
            match r {
                Ok(_) => manifest_fault(m) is None && final(self)@ == old(self)@.insert(m.id@, m),
                Err(e) => manifest_fault(m) == Some(e@) && final(self)@ == old(self)@,
            },
    {
        match m.validate() {
            Ok(_) => {},
            Err(e) => {
                return Err(e);
            },
        }
        let id = m.id.clone();
        self.services.insert(id.as_str(), m);
        Ok(())
    }

    /// The manifest of a service.
    pub fn get(&self, id: &str) -> (r: Option<&ServiceManifest>)
        ensures
            match r {
                Some(m) => self@.contains_key(id@) && *m == self@[id@],
                None => !self@.contains_key(id@),
            },
    {
        self.services.get(id)
    }

    /// The ids of the services, in order.
    pub fn ids(&self) -> (r: Vec<String>)
        ensures
            crate::sorted_map::increasing(texts(r@)),
            forall|k: Seq<char>| self@.contains_key(k) <==> #[trigger] texts(r@).contains(k),
    {
        self.services.keys()
    }

    /// Checks that a spec fills in the fields a service requires.
    pub fn validate_spec(&self, id: &str, spec: &Json) -> (r: Result<(), ProvisionError>)
        ensures
            match r {
                Ok(_) => spec_fault(self@, id@, spec@) is None,
                Err(e) => spec_fault(self@, id@, spec@) == Some(e@),
            },
    {
        let m = match self.get(id) {
            Some(m) => m,
            None => {
                return Err(ProvisionError::Unsupported(id.to_owned()));
            },
        };
        let required = &m.required_fields;
        let mut i: usize = 0;
        assert(texts(required@).subrange(0, required@.len() as int) =~= texts(required@));
        while i < required.len()
            invariant
                i <= required@.len(),
                self@.contains_key(id@),
                self@[id@].required_fields == *required,
                first_unfilled(
                    texts(required@).subrange(i as int, required@.len() as int),
                    spec@,
                ) == first_unfilled(texts(required@), spec@),
            decreases required.len() - i,
        {
            let ghost tail = texts(required@).subrange(i as int, required@.len() as int);
            assert(tail[0] == required@[i as int]@);
            assert(tail.subrange(1, tail.len() as int) =~= texts(required@).subrange(
                i + 1,
                required@.len() as int,
            ));
            if !is_filled(spec, required[i].as_str()) {
                let mut m = "service '".to_owned();
                m.append(id);
                m.append("' requires field '");
                m.append(required[i].as_str());
                m.append("'");
                return Err(ProvisionError::InvalidSpec(m));
            }
            i = i + 1;
        }
        Ok(())
    }
}

/// The tiers stand on the ladder `poc`, `light-operational`, `wide-operational`,
/// `critical-path`. A project below the floor that applies (the variant's own, else the
/// service's) is refused, and so is one above the ceiling; every other project is not
/// refused for its tier.
pub proof fn law_tiers_between_floor_and_ceiling(
    m: ServiceManifest,
    resolved: ResolvedView,
    floor: int,
    ceiling: int,
    place: int,
)
    requires
        0 <= floor < 4,
        0 <= ceiling < 4,
        0 <= place < 4,
    ensures
        ({
            let ladder = seq![
                "poc"@,
                "light-operational"@,
                "wide-operational"@,
                "critical-path"@,
            ];
            let objection = tier_objection(m, ladder[place], resolved);
            let below = Some(
                "service '"@ + m.id@ + "' requires classification '"@ + ladder[floor]
                    + "' or higher (project is '"@ + ladder[place] + "')"@,
            );
            let above = Some(
                "service '"@ + m.id@ + "' is only available up to classification '"@
                    + ladder[ceiling] + "' (project is '"@ + ladder[place] + "')"@,
            );
            let floored = resolved.classification_min == Some(ladder[floor])
                || resolved.classification_min is None && contents(m.classification_min) == Some(
                ladder[floor],
            );
            let open = resolved.classification_min is None && m.classification_min is None;
            let capped = contents(m.classification_max) == Some(ladder[ceiling]);
            &&& floored && place < floor ==> objection == below
            &&& floored && floor <= place && capped && ceiling < place ==> objection == above
            &&& open && capped && ceiling < place ==> objection == above
            &&& floored && floor <= place && capped && place <= ceiling ==> objection is None
            &&& floored && floor <= place && m.classification_max is None ==> objection is None
            &&& open && capped && place <= ceiling ==> objection is None
            &&& open && m.classification_max is None ==> objection is None
        }),
{
    lemma_tiers_differ();
}

/// A project whose classification is unknown is treated as one on the lowest tier.
pub proof fn law_unknown_tier_is_lowest(
    m: ServiceManifest,
    classification: Seq<char>,
    resolved: ResolvedView,
)
    requires
        !seq!["poc"@, "light-operational"@, "wide-operational"@, "critical-path"@].contains(
            classification,
        ),
    ensures
        tier_objection(m, classification, resolved) is Some <==> tier_objection(
            m,
            "poc"@,
            resolved,
        ) is Some,
{
    lemma_tiers_differ();
    let tiers = seq!["poc"@, "light-operational"@, "wide-operational"@, "critical-path"@];
    assert(tiers[0] == "poc"@ && tiers[1] == "light-operational"@ && tiers[2] == "wide-operational"@
        && tiers[3] == "critical-path"@);
    assert(tiers.contains(tiers[0]) && tiers.contains(tiers[1]) && tiers.contains(tiers[2])
        && tiers.contains(tiers[3]));
}

/// The variant that the spec's own field names sets the terms: its price and its floor,
/// where it has them, go before the service's, and it alone says whether a review is
/// asked for. Without variants the service's terms hold and no review is asked for.
pub proof fn law_variant_sets_the_terms(m: ServiceManifest, spec: JsonView, v: Variants, k: Seq<char>)
    ensures
        m.variants is None ==> {
            &&& resolution(m, spec).estimated_monthly_usd == m.cost.estimated_monthly_usd
            &&& resolution(m, spec).classification_min == contents(m.classification_min)
            &&& !resolution(m, spec).force_review
        },
        m.variants == Some(v) && spec.text_at(v.field@) == Some(k) && v.options@.contains_key(k)
            ==> {
            let o = v.options@[k];
            let got = resolution(m, spec);
            &&& o.estimated_monthly_usd matches Some(e) ==> got.estimated_monthly_usd == e
            &&& o.estimated_monthly_usd is None ==> got.estimated_monthly_usd
                == m.cost.estimated_monthly_usd
            &&& o.classification_min matches Some(c) ==> got.classification_min == Some(c@)
            &&& o.classification_min is None ==> got.classification_min == contents(
                m.classification_min,
            )
            &&& got.force_review == o.requires_approval
        },
        m.variants == Some(v) && (spec.text_at(v.field@) is None || spec.text_at(v.field@)
            == Some(k) && !v.options@.contains_key(k)) ==> {
            let got = resolution(m, spec);
            &&& got.force_review
            &&& got.estimated_monthly_usd == m.cost.estimated_monthly_usd
            &&& got.classification_min == contents(m.classification_min)
        },
{
}

/// A spec is taken exactly when the service is known and every field it requires is
/// there, and neither null nor the empty text.
pub proof fn law_spec_fills_what_is_required(
    catalog: Map<Seq<char>, ServiceManifest>,
    id: Seq<char>,
    spec: JsonView,
)
    ensures
        spec_fault(catalog, id, spec) is None <==> catalog.contains_key(id) && forall|i: int|
            0 <= i < catalog[id].required_fields@.len() ==> match spec.at(
                (#[trigger] catalog[id].required_fields@[i])@,
            ) {
                Some(v) => v != JsonView::Null && v != JsonView::Str(Seq::empty()),
                None => false,
            },
        !catalog.contains_key(id) ==> spec_fault(catalog, id, spec) == Some(
            ProvisionFault::Unsupported(id),
        ),
        catalog.contains_key(id) && spec_fault(catalog, id, spec) is Some ==> spec_fault(
            catalog,
            id,
            spec,
        )->0 is InvalidSpec,
{
    let required = catalog[id].required_fields@;
    let names = texts(required);
    lemma_first_unfilled(names, spec);
    assert forall|i: int| 0 <= i < required.len() implies (#[trigger] required[i])@ == names[i] by {}
    if first_unfilled(names, spec) is None {
        assert forall|i: int| 0 <= i < required.len() implies fills(
            spec,
            (#[trigger] required[i])@,
        ) by {
            assert(fills(spec, names[i]));
        }
    } else {
        let i = choose|i: int| 0 <= i < names.len() && !fills(spec, #[trigger] names[i]);
        assert(!fills(spec, required[i]@));
    }
}

proof fn lemma_first_unfilled(required: Seq<Seq<char>>, spec: JsonView)
    ensures
        first_unfilled(required, spec) is None <==> forall|i: int|
            0 <= i < required.len() ==> fills(spec, #[trigger] required[i]),
    decreases required.len(),
{
    if required.len() > 0 && fills(spec, required[0]) {
        let rest = required.subrange(1, required.len() as int);
        lemma_first_unfilled(rest, spec);
        if first_unfilled(rest, spec) is None {
            assert forall|i: int| 0 <= i < required.len() implies fills(
                spec,
                #[trigger] required[i],
            ) by {
                if i > 0 {
                    assert(rest[i - 1] == required[i]);
                }
            }
        } else {
            let i = choose|i: int| 0 <= i < rest.len() && !fills(spec, #[trigger] rest[i]);
            assert(rest[i] == required[i + 1]);
        }
    }
}

/// A manifest is taken exactly when it has an id, names one of the known connectors and
/// one of the known cost sources, its inference section, if there is one, is of a known
/// kind and says where the key is, and its bounds are tiers.
pub proof fn law_manifest_is_taken(m: ServiceManifest)
    ensures
        manifest_fault(m) is None <==> {
            &&& !blank(m.id@)
            &&& {
                let c = m.provisioner.connector@;
                ||| c == "terraform"@
                ||| c == "exec"@
                ||| c == "http"@
                ||| c == "mcp"@
                ||| c == "litellm"@
                ||| c == "stub"@
            }
            &&& {
                let c = m.cost.source.source_type@;
                ||| c == "none"@
                ||| c == "free"@
                ||| c == "flat"@
                ||| c == "gateway"@
                ||| c == "aws-cost-explorer"@
                ||| c == "gcp-billing"@
                ||| c == "azure-cost-management"@
                ||| c == "databricks-billing"@
                ||| c == "litellm"@
                ||| c == "exec"@
            }
            &&& m.inference matches Some(i) ==> (i.kind@ == "openai"@ || i.kind@ == "anthropic"@
                || i.kind@ == "openai-compatible"@) && !blank(i.api_key_env@)
            &&& m.classification_min matches Some(c) ==> c@ == "poc"@ || c@
                == "light-operational"@ || c@ == "wide-operational"@ || c@ == "critical-path"@
            &&& m.classification_max matches Some(c) ==> c@ == "poc"@ || c@
                == "light-operational"@ || c@ == "wide-operational"@ || c@ == "critical-path"@
        },
        manifest_fault(m) is Some ==> manifest_fault(m)->0 is InvalidSpec,
{
    lemma_connector_names(m.provisioner.connector@);
    lemma_cost_source_names(m.cost.source.source_type@);
    if m.inference is Some {
        lemma_inference_kinds(m.inference->0.kind@);
    }
    if m.classification_min is Some {
        lemma_classification_names(m.classification_min->0@);
    }
    if m.classification_max is Some {
        lemma_classification_names(m.classification_max->0@);
    }
}

proof fn lemma_connector_names(s: Seq<char>)
    ensures
        connector_names().contains(s) <==> {
            ||| s == "terraform"@
            ||| s == "exec"@
            ||| s == "http"@
            ||| s == "mcp"@
            ||| s == "litellm"@
            ||| s == "stub"@
        },
{
    let all = connector_names();
    assert(all[0] == "terraform"@ && all[1] == "exec"@ && all[2] == "http"@ && all[3] == "mcp"@ && all[4] == "litellm"@ && all[5] == "stub"@);
    assert(all.contains(all[0]));
    assert(all.contains(all[1]));
    assert(all.contains(all[2]));
    assert(all.contains(all[3]));
    assert(all.contains(all[4]));
    assert(all.contains(all[5]));
}

proof fn lemma_cost_source_names(s: Seq<char>)
    ensures
        cost_source_names().contains(s) <==> {
            ||| s == "none"@
            ||| s == "free"@
            ||| s == "flat"@
            ||| s == "gateway"@
            ||| s == "aws-cost-explorer"@
            ||| s == "gcp-billing"@
            ||| s == "azure-cost-management"@
            ||| s == "databricks-billing"@
            ||| s == "litellm"@
            ||| s == "exec"@
        },
{
    let all = cost_source_names();
    assert(all[0] == "none"@ && all[1] == "free"@ && all[2] == "flat"@ && all[3] == "gateway"@ && all[4] == "aws-cost-explorer"@ && all[5] == "gcp-billing"@ && all[6] == "azure-cost-management"@ && all[7] == "databricks-billing"@ && all[8] == "litellm"@ && all[9] == "exec"@);
    assert(all.contains(all[0]));
    assert(all.contains(all[1]));
    assert(all.contains(all[2]));
    assert(all.contains(all[3]));
    assert(all.contains(all[4]));
    assert(all.contains(all[5]));
    assert(all.contains(all[6]));
    assert(all.contains(all[7]));
    assert(all.contains(all[8]));
    assert(all.contains(all[9]));
}

proof fn lemma_inference_kinds(s: Seq<char>)
    ensures
        inference_kinds().contains(s) <==> {
            ||| s == "openai"@
            ||| s == "anthropic"@
            ||| s == "openai-compatible"@
        },
{
    let all = inference_kinds();
    assert(all[0] == "openai"@ && all[1] == "anthropic"@ && all[2] == "openai-compatible"@);
    assert(all.contains(all[0]));
    assert(all.contains(all[1]));
    assert(all.contains(all[2]));
}

proof fn lemma_classification_names(s: Seq<char>)
    ensures
        classification_names().contains(s) <==> {
            ||| s == "poc"@
            ||| s == "light-operational"@
            ||| s == "wide-operational"@
            ||| s == "critical-path"@
        },
{
    let all = classification_names();
    assert(all[0] == "poc"@ && all[1] == "light-operational"@ && all[2] == "wide-operational"@ && all[3] == "critical-path"@);
    assert(all.contains(all[0]));
    assert(all.contains(all[1]));
    assert(all.contains(all[2]));
    assert(all.contains(all[3]));
}

/// An unknown variant never slips through without a review.
pub proof fn law_unknown_variant_is_reviewed(m: ServiceManifest, spec: JsonView)
    ensures
        m.variants matches Some(v) && selected(v, spec) is None ==> resolution(
            m,
            spec,
        ).force_review,
{
}

} // verus!
