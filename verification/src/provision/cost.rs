//! Cost sources: how spend finds its way back to a project. A service is billed
//! through the source that its manifest names, whatever connector brought it up,
//! and every source goes by the project's tag.
use vstd::prelude::*;

use crate::sorted_map::SortedMap;
use crate::usd::Usd;

pub mod aws_ce;
pub mod databricks;
pub mod exec;
pub mod litellm;
pub mod project;
pub mod qa;
pub mod report;
pub mod rollup;

verus! {

/// What a source measured for a project. No figure means that nothing was
/// measured, which is not the same as nothing spent.
#[derive(Debug)]
pub struct ServiceCost {
    pub backend: String,
    pub actual_usd: Option<Usd>,
    pub source: String,
}

/// A measurement by its contents.
pub struct CostView {
    pub backend: Seq<char>,
    pub actual_usd: Option<Usd>,
    pub source: Seq<char>,
}

impl View for ServiceCost {
    type V = CostView;

    open spec fn view(&self) -> CostView {
        CostView { backend: self.backend@, actual_usd: self.actual_usd, source: self.source@ }
    }
}

/// A measurement of a backend.
pub fn service_cost(backend: &str, actual_usd: Option<Usd>, source: &str) -> (r: ServiceCost)
    ensures
        r@ == (CostView { backend: backend@, actual_usd, source: source@ }),
{
    ServiceCost { backend: backend.to_owned(), actual_usd, source: source.to_owned() }
}

/// Why a source has no figure: its name and the reason.
pub fn unavailable(backend: &str, source: &str, why: &str) -> (r: ServiceCost)
    ensures
        r@ == (CostView {
            backend: backend@,
            actual_usd: None,
            source: source@ + " unavailable: "@ + why@,
        }),
{
    let mut s = source.to_owned();
    s.append(" unavailable: ");
    s.append(why);
    ServiceCost { backend: backend.to_owned(), actual_usd: None, source: s }
}

/// A source without a feed: free services, and those that nobody meters.
#[derive(Debug)]
pub struct NoneSource {
    pub label: String,
}

impl NoneSource {
    /// A source known by a label.
    pub fn new(label: &str) -> (r: NoneSource)
        ensures
            r.label@ == label@,
    {
        NoneSource { label: label.to_owned() }
    }

    /// Its name.
    pub fn name(&self) -> (r: &str)
        ensures
            r@ == self.label@,
    {
        self.label.as_str()
    }

    /// It measures nothing.
    pub fn cost(&self) -> (r: ServiceCost)
        ensures
            r@ == (CostView { backend: self.label@, actual_usd: None, source: self.label@ }),
    {
        service_cost(self.label.as_str(), None, self.label.as_str())
    }
}

/// A source that is declared and not set up.
#[derive(Debug)]
pub struct UnconfiguredSource {
    pub label: String,
}

impl UnconfiguredSource {
    /// A source known by a label.
    pub fn new(label: &str) -> (r: UnconfiguredSource)
        ensures
            r.label@ == label@,
    {
        UnconfiguredSource { label: label.to_owned() }
    }

    /// Its name.
    pub fn name(&self) -> (r: &str)
        ensures
            r@ == self.label@,
    {
        self.label.as_str()
    }

    /// It measures nothing and says so.
    pub fn cost(&self) -> (r: ServiceCost)
        ensures
            r@ == (CostView {
                backend: self.label@,
                actual_usd: None,
                source: self.label@ + " unconfigured"@,
            }),
    {
        let mut s = self.label.clone();
        s.append(" unconfigured");
        ServiceCost { backend: self.label.clone(), actual_usd: None, source: s }
    }
}

/// A flat fee: the estimate stands in for the cost.
#[derive(Debug)]
pub struct FlatSource;

impl FlatSource {
    /// Its name.
    pub fn name(&self) -> (r: &'static str)
        ensures
            r@ == "flat"@,
    {
        "flat"
    }

    /// It measures nothing beside the estimate.
    pub fn cost(&self) -> (r: ServiceCost)
        ensures
            r@ == (CostView {
                backend: "flat"@,
                actual_usd: None,
                source: "flat (estimate)"@,
            }),
    {
        service_cost("flat", None, "flat (estimate)")
    }
}

/// The model gateway: spend that it has attributed to the project already.
#[derive(Debug)]
pub struct GatewaySource;

impl GatewaySource {
    /// Its name.
    pub fn name(&self) -> (r: &'static str)
        ensures
            r@ == "gateway"@,
    {
        "gateway"
    }

    /// The attributed spend, which is a figure even where it is zero.
    pub fn cost(&self, spent: Usd) -> (r: ServiceCost)
        ensures
            r@ == (CostView {
                backend: "gateway"@,
                actual_usd: Some(spent),
                source: "gateway-usage-events"@,
            }),
    {
        service_cost("gateway", Some(spent), "gateway-usage-events")
    }
}

/// How a registered source answers.
#[derive(Debug)]
pub enum SourceKind {
    /// By itself, without a figure.
    Unmetered(NoneSource),
    /// By itself, with the estimate.
    Flat(FlatSource),
    /// From a feed that the deployment has wired.
    Feed,
}

/// The sources by the type that manifests name them by.
#[derive(Debug)]
pub struct CostSourceRegistry {
    pub sources: SortedMap<SourceKind>,
}

impl Default for CostSourceRegistry {
    fn default() -> (r: CostSourceRegistry)
        ensures
            forall|k: Seq<char>| #[trigger]
                r.sources@.contains_key(k) <==> k == "none"@ || k == "free"@ || k == "flat"@,
            r.sources@["none"@] matches SourceKind::Unmetered(s) && s.label@ == "none"@,
            r.sources@["free"@] matches SourceKind::Unmetered(s) && s.label@ == "free"@,
            r.sources@["flat"@] is Flat,
    {
        CostSourceRegistry::new()
    }
}

impl CostSourceRegistry {
    /// The sources that are always there.
    pub fn new() -> (r: CostSourceRegistry)
        ensures
            forall|k: Seq<char>| #[trigger]
                r.sources@.contains_key(k) <==> k == "none"@ || k == "free"@ || k == "flat"@,
            r.sources@["none"@] matches SourceKind::Unmetered(s) && s.label@ == "none"@,
            r.sources@["free"@] matches SourceKind::Unmetered(s) && s.label@ == "free"@,
            r.sources@["flat"@] is Flat,
    {
        proof {
            reveal_strlit("none");
            reveal_strlit("free");
            reveal_strlit("flat");
            assert("none"@[0] == 'n' && "free"@[0] == 'f' && "flat"@[0] == 'f');
            assert("free"@[1] == 'r' && "flat"@[1] == 'l');
        }
        let mut sources: SortedMap<SourceKind> = SortedMap::new();
        sources.insert("none", SourceKind::Unmetered(NoneSource::new("none")));
        sources.insert("free", SourceKind::Unmetered(NoneSource::new("free")));
        sources.insert("flat", SourceKind::Flat(FlatSource));
        CostSourceRegistry { sources }
    }

    /// Registers a source under a type, in place of one that is there already.
    pub fn register(&mut self, key: &str, src: SourceKind)
        ensures
            final(self).sources@ == old(self).sources@.insert(key@, src),
    {
        self.sources.insert(key, src);
    }

    /// The source of a type.
    pub fn get(&self, key: &str) -> (r: Option<&SourceKind>)
        ensures
            match r {
                Some(s) => self.sources@.contains_key(key@) && *s == self.sources@[key@],
                None => !self.sources@.contains_key(key@),
            },
    {
        self.sources.get(key)
    }
}

} // verus!
