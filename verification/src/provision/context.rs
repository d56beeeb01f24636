//! The attribution context of a resource and the tags stamped on it.
use vstd::prelude::*;

use crate::registry::Registration;
use crate::sorted_map::SortedMap;

verus! {

/// One permitted provisioning target: a cloud and an account within it.
#[derive(Debug)]
pub struct CloudTarget {
    pub cloud: String,
    pub account: String,
}

/// Who a resource belongs to and where it stands.
#[derive(Debug)]
pub struct ResourceContext {
    pub project_id: String,
    pub owner: String,
    pub manager: String,
    pub group: String,
    pub cost_center: String,
    pub classification: String,
    pub environment: String,
    pub cloud: String,
    pub account: String,
}

/// What a context says.
pub struct ContextView {
    pub project_id: Seq<char>,
    pub owner: Seq<char>,
    pub manager: Seq<char>,
    pub group: Seq<char>,
    pub cost_center: Seq<char>,
    pub classification: Seq<char>,
    pub environment: Seq<char>,
    pub cloud: Seq<char>,
    pub account: Seq<char>,
}

impl View for ResourceContext {
    type V = ContextView;

    open spec fn view(&self) -> ContextView {
        ContextView {
            project_id: self.project_id@,
            owner: self.owner@,
            manager: self.manager@,
            group: self.group@,
            cost_center: self.cost_center@,
            classification: self.classification@,
            environment: self.environment@,
            cloud: self.cloud@,
            account: self.account@,
        }
    }
}

/// A map of texts by their contents.
pub open spec fn text_map(m: Map<Seq<char>, String>) -> Map<Seq<char>, Seq<char>> {
    m.map_values(|s: String| s@)
}

impl ContextView {
    /// The fixed set of tags stamped on every resource.
    pub open spec fn tag_map(self) -> Map<Seq<char>, Seq<char>> {
        Map::empty().insert("project"@, self.project_id).insert("owner"@, self.owner).insert(
            "manager"@,
            self.manager,
        ).insert("group"@, self.group).insert("cost-center"@, self.cost_center).insert(
            "classification"@,
            self.classification,
        ).insert("environment"@, self.environment).insert("cloud"@, self.cloud).insert(
            "account"@,
            self.account,
        ).insert("managed-by"@, "asgard"@)
    }
}

/// The context of a resource of a registered project.
pub open spec fn context_for(reg: Registration, cloud: Seq<char>, account: Seq<char>) -> ContextView {
    ContextView {
        project_id: reg.project_id@,
        owner: reg.owner@,
        manager: reg.manager@,
        group: reg.group@,
        cost_center: reg.cost_center@,
        classification: reg.classification@,
        environment: "dev"@,
        cloud,
        account,
    }
}

/// Sets a tag.
pub fn put_tag(tags: &mut SortedMap<String>, key: &str, value: &str)
    ensures
        text_map(final(tags)@) == text_map(old(tags)@).insert(key@, value@),
{
    let v = value.to_owned();
    let ghost before = tags@;
    tags.insert(key, v);
    assert(text_map(before.insert(key@, v)) =~= text_map(before).insert(key@, value@));
}

/// The value of a tag; the empty text for a tag that is not there.
pub open spec fn tag_or_empty(tags: Map<Seq<char>, Seq<char>>, key: Seq<char>) -> Seq<char> {
    if tags.contains_key(key) {
        tags[key]
    } else {
        Seq::empty()
    }
}

fn tag_value(tags: &SortedMap<String>, key: &str) -> (r: String)
    ensures
        r@ == tag_or_empty(text_map(tags@), key@),
{
    match tags.get(key) {
        Some(v) => v.clone(),
        None => String::new(),
    }
}

impl ResourceContext {
    /// The context of a resource of a registered project.
    pub fn from_registration(reg: &Registration, cloud: &str, account: &str) -> (r: ResourceContext)
        ensures
            r@ == context_for(*reg, cloud@, account@),
    {
        ResourceContext {
            project_id: reg.project_id.clone(),
            owner: reg.owner.clone(),
            manager: reg.manager.clone(),
            group: reg.group.clone(),
            cost_center: reg.cost_center.clone(),
            classification: reg.classification.clone(),
            environment: "dev".to_owned(),
            cloud: cloud.to_owned(),
            account: account.to_owned(),
        }
    }

    /// The fixed set of tags stamped on every resource.
    pub fn tags(&self) -> (r: SortedMap<String>)
        ensures
            text_map(r@) == self@.tag_map(),
    {
        let mut t: SortedMap<String> = SortedMap::new();
        assert(text_map(t@) =~= Map::empty());
        put_tag(&mut t, "project", self.project_id.as_str());
        put_tag(&mut t, "owner", self.owner.as_str());
        put_tag(&mut t, "manager", self.manager.as_str());
        put_tag(&mut t, "group", self.group.as_str());
        put_tag(&mut t, "cost-center", self.cost_center.as_str());
        put_tag(&mut t, "classification", self.classification.as_str());
        put_tag(&mut t, "environment", self.environment.as_str());
        put_tag(&mut t, "cloud", self.cloud.as_str());
        put_tag(&mut t, "account", self.account.as_str());
        put_tag(&mut t, "managed-by", "asgard");
        t
    }
}

/// The context that the tags of a project's resource stand for.
pub open spec fn context_of(project_id: Seq<char>, tags: Map<Seq<char>, Seq<char>>) -> ContextView {
    ContextView {
        project_id,
        owner: tag_or_empty(tags, "owner"@),
        manager: tag_or_empty(tags, "manager"@),
        group: tag_or_empty(tags, "group"@),
        cost_center: tag_or_empty(tags, "cost-center"@),
        classification: tag_or_empty(tags, "classification"@),
        environment: tag_or_empty(tags, "environment"@),
        cloud: tag_or_empty(tags, "cloud"@),
        account: tag_or_empty(tags, "account"@),
    }
}

/// The context of a recorded resource, read back from its tags.
pub fn ctx_from_record(project_id: &str, tags: &SortedMap<String>) -> (r: ResourceContext)
    ensures
        r@ == context_of(project_id@, text_map(tags@)),
{
    ResourceContext {
        project_id: project_id.to_owned(),
        owner: tag_value(tags, "owner"),
        manager: tag_value(tags, "manager"),
        group: tag_value(tags, "group"),
        cost_center: tag_value(tags, "cost-center"),
        classification: tag_value(tags, "classification"),
        environment: tag_value(tags, "environment"),
        cloud: tag_value(tags, "cloud"),
        account: tag_value(tags, "account"),
    }
}

proof fn lemma_tag_names_differ()
    ensures
        ({
            let n = seq![
                "project"@,
                "owner"@,
                "manager"@,
                "group"@,
                "cost-center"@,
                "classification"@,
                "environment"@,
                "cloud"@,
                "account"@,
                "managed-by"@,
            ];
            forall|i: int, j: int| 0 <= i < j < 10 ==> n[i] != n[j]
        }),
{
    reveal_strlit("project");
    reveal_strlit("owner");
    reveal_strlit("manager");
    reveal_strlit("group");
    reveal_strlit("cost-center");
    reveal_strlit("classification");
    reveal_strlit("environment");
    reveal_strlit("cloud");
    reveal_strlit("account");
    reveal_strlit("managed-by");
    assert("project"@.len() == 7 && "project"@[0] == 'p');
    assert("owner"@.len() == 5 && "owner"@[0] == 'o');
    assert("manager"@.len() == 7 && "manager"@[0] == 'm');
    assert("group"@.len() == 5 && "group"@[0] == 'g');
    assert("cost-center"@.len() == 11 && "cost-center"@[0] == 'c');
    assert("classification"@.len() == 14);
    assert("environment"@.len() == 11 && "environment"@[0] == 'e');
    assert("cloud"@.len() == 5 && "cloud"@[0] == 'c');
    assert("account"@.len() == 7 && "account"@[0] == 'a');
    assert("managed-by"@.len() == 10);
}

/// The tags of a resource carry its whole context: reading them back gives the
/// context they were made from, and every resource bears its project's id.
pub proof fn law_tags_carry_the_context(ctx: ContextView)
    ensures
        context_of(ctx.project_id, ctx.tag_map()) == ctx,
        ctx.tag_map()["project"@] == ctx.project_id,
{
    lemma_tag_names_differ();
    let n = seq![
        "project"@,
        "owner"@,
        "manager"@,
        "group"@,
        "cost-center"@,
        "classification"@,
        "environment"@,
        "cloud"@,
        "account"@,
        "managed-by"@,
    ];
    assert(n[0] == "project"@ && n[1] == "owner"@ && n[2] == "manager"@ && n[3] == "group"@ && n[4]
        == "cost-center"@ && n[5] == "classification"@ && n[6] == "environment"@ && n[7] == "cloud"@
        && n[8] == "account"@ && n[9] == "managed-by"@);
}

/// Every resource bears the same ten tags, each with what its name says: the project, its
/// owner, manager, group, cost center and classification, the environment, the cloud and
/// the account, and who manages it.
pub proof fn law_tags_say_what_they_are_named_for(
    reg: Registration,
    cloud: Seq<char>,
    account: Seq<char>,
    key: Seq<char>,
)
    ensures
        ({
            let tags = context_for(reg, cloud, account).tag_map();
            &&& tags.contains_pair("project"@, reg.project_id@)
            &&& tags.contains_pair("owner"@, reg.owner@)
            &&& tags.contains_pair("manager"@, reg.manager@)
            &&& tags.contains_pair("group"@, reg.group@)
            &&& tags.contains_pair("cost-center"@, reg.cost_center@)
            &&& tags.contains_pair("classification"@, reg.classification@)
            &&& tags.contains_pair("environment"@, "dev"@)
            &&& tags.contains_pair("cloud"@, cloud)
            &&& tags.contains_pair("account"@, account)
            &&& tags.contains_pair("managed-by"@, "asgard"@)
            &&& tags.contains_key(key) ==> key == "project"@ || key == "owner"@ || key
                == "manager"@ || key == "group"@ || key == "cost-center"@ || key
                == "classification"@ || key == "environment"@ || key == "cloud"@ || key
                == "account"@ || key == "managed-by"@
        }),
{
    reveal_strlit("project");
    reveal_strlit("owner");
    reveal_strlit("manager");
    reveal_strlit("group");
    reveal_strlit("cost-center");
    reveal_strlit("classification");
    reveal_strlit("environment");
    reveal_strlit("cloud");
    reveal_strlit("account");
    reveal_strlit("managed-by");
    assert("project"@.len() == 7);
    assert("owner"@.len() == 5);
    assert("manager"@.len() == 7);
    assert("group"@.len() == 5);
    assert("cost-center"@.len() == 11);
    assert("classification"@.len() == 14);
    assert("environment"@.len() == 11);
    assert("cloud"@.len() == 5);
    assert("account"@.len() == 7);
    assert("managed-by"@.len() == 10);
    assert("project"@[0] != "manager"@[0]);
    assert("project"@[0] != "account"@[0]);
    assert("owner"@[0] != "group"@[0]);
    assert("owner"@[0] != "cloud"@[0]);
    assert("manager"@[0] != "account"@[0]);
    assert("group"@[0] != "cloud"@[0]);
    assert("cost-center"@[0] != "environment"@[0]);
}

/// The context of a recorded resource is read from the tags of the same names.
pub proof fn law_context_is_read_from_the_tags(
    project_id: Seq<char>,
    tags: Map<Seq<char>, Seq<char>>,
)
    ensures
        ({
            let c = context_of(project_id, tags);
            &&& c.project_id == project_id
            &&& tags.contains_key("owner"@) ==> c.owner == tags["owner"@]
            &&& tags.contains_key("manager"@) ==> c.manager == tags["manager"@]
            &&& tags.contains_key("group"@) ==> c.group == tags["group"@]
            &&& tags.contains_key("cost-center"@) ==> c.cost_center == tags["cost-center"@]
            &&& tags.contains_key("classification"@) ==> c.classification
                == tags["classification"@]
            &&& tags.contains_key("environment"@) ==> c.environment == tags["environment"@]
            &&& tags.contains_key("cloud"@) ==> c.cloud == tags["cloud"@]
            &&& tags.contains_key("account"@) ==> c.account == tags["account"@]
            &&& !tags.contains_key("owner"@) ==> c.owner.len() == 0
            &&& !tags.contains_key("cost-center"@) ==> c.cost_center.len() == 0
        }),
{
}

} // verus!
