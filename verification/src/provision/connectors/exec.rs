//! The exec connector: a command of the operator's choice, told of the request on
//! its standard input and answering in JSON.
use vstd::prelude::*;

use crate::json::{json_read, json_text, Json, JsonView};
use crate::provision::connectors::{tags_json, tags_object};
use crate::provision::context::text_map;
use crate::provision::outputs::{Plan, Provisioned};
use crate::provision::work::{ProvisionRequest, RequestView};
use crate::provision::{ProvisionError, ProvisionFault};
use crate::sorted_map::SortedMap;
use crate::text::{blank, copy_texts, lemma_trimmed_blank, shown, text_lossy, texts, trim, trimmed};

verus! {

/// The exec connector.
#[derive(Debug)]
pub struct ExecConnector;

/// The texts among some values, in order.
pub open spec fn texts_among(items: Seq<JsonView>) -> Seq<Seq<char>>
    decreases items.len(),
{
    if items.len() == 0 {
        Seq::empty()
    } else {
        let rest = texts_among(items.drop_last());
        match items.last() {
            JsonView::Str(s) => rest.push(s),
            _ => rest,
        }
    }
}

/// The command under a key of a configuration: the texts of its list.
pub open spec fn command_at(config: JsonView, key: Seq<char>) -> Option<Seq<Seq<char>>> {
    match config.at(key) {
        Some(JsonView::Array(items)) => Some(texts_among(items)),
        _ => None,
    }
}

/// A command by its contents.
pub open spec fn command_view(c: Option<Vec<String>>) -> Option<Seq<Seq<char>>> {
    match c {
        Some(v) => Some(texts(v@)),
        None => None,
    }
}

/// The texts of a list of values.
pub fn texts_of(items: &Vec<Json>) -> (r: Vec<String>)
    ensures
        texts(r@) == texts_among(crate::json::items_view(items@)),
{
    let mut out: Vec<String> = Vec::new();
    let mut i: usize = 0;
    let ghost all = crate::json::items_view(items@);
    proof {
        crate::json::lemma_items_view(items@);
        assert(all.take(0) =~= Seq::empty());
        assert(texts(out@) =~= Seq::empty());
    }
    while i < items.len()
        invariant
            i <= items@.len(),
            all == crate::json::items_view(items@),
            all.len() == items@.len(),
            forall|k: int|
                0 <= k < items@.len() ==> #[trigger] all[k] == crate::json::json_view(items@[k]),
            texts(out@) == texts_among(all.take(i as int)),
        decreases items.len() - i,
    {
        let ghost prev = texts(out@);
        proof {
            assert(all.take(i + 1).drop_last() =~= all.take(i as int));
            assert(all.take(i + 1).last() == all[i as int]);
        }
        match &items[i] {
            Json::Str(s) => {
                out.push(s.clone());
                assert(texts(out@) =~= prev.push(s@));
            },
            _ => {},
        }
        i = i + 1;
    }
    assert(all.take(items@.len() as int) =~= all);
    out
}

/// The command under a key of a configuration.
pub fn command_of(config: &Json, key: &str) -> (r: Option<Vec<String>>)
    ensures
        command_view(r) == command_at(config@, key@),
{
    match config.get(key) {
        Some(Json::Array(items)) => Some(texts_of(items)),
        _ => None,
    }
}

/// What a command is told of a request: its name, its spec, and its tags where a
/// resource is brought up.
pub open spec fn told_of(req: RequestView, tags: Option<Map<Seq<char>, Seq<char>>>) -> JsonView {
    let base = Map::empty().insert("name"@, JsonView::Str(req.name)).insert("spec"@, req.spec);
    match tags {
        Some(t) => JsonView::Object(base.insert("tags"@, JsonView::Object(tags_object(t)))),
        None => JsonView::Object(base),
    }
}

/// A command and what it is told.
#[derive(Debug)]
pub struct ExecRun {
    pub bin: String,
    pub args: Vec<String>,
    pub stdin: String,
}

/// Why a command is not run, if so.
pub open spec fn run_fault(command: Seq<Seq<char>>) -> Option<ProvisionFault> {
    if command.len() == 0 {
        Some(ProvisionFault::Backend("exec command is empty"@))
    } else {
        None
    }
}

/// Whether a run is of a command and is told a value.
pub open spec fn runs(r: ExecRun, command: Seq<Seq<char>>, told: JsonView) -> bool {
    &&& seq![r.bin@] + texts(r.args@) == command
    &&& r.stdin@ == json_text(told)
}

fn build_run(command: Vec<String>, told: &Json) -> (r: Result<ExecRun, ProvisionError>)
    ensures
        match r {
            Ok(x) => run_fault(texts(command@)) is None && runs(x, texts(command@), told@),
            Err(e) => run_fault(texts(command@)) == Some(e@),
        },
{
    if command.len() == 0 {
        return Err(ProvisionError::Backend("exec command is empty".to_owned()));
    }
    let ghost all = texts(command@);
    let mut args = command;
    let bin = args.remove(0);
    assert(seq![bin@] + texts(args@) =~= all);
    Ok(ExecRun { bin, args, stdin: told.text() })
}

fn told_json(req: &ProvisionRequest, tags: Option<&SortedMap<String>>) -> (r: Json)
    ensures
        r@ == told_of(
            req@,
            match tags {
                Some(t) => Some(text_map(t@)),
                None => None,
            },
        ),
{
    let mut j = Json::object();
    j.insert_str("name", req.name.as_str());
    j.insert("spec", req.spec.copy());
    match tags {
        Some(t) => j.insert("tags", tags_json(t)),
        None => {},
    }
    j
}

/// What a command's end means: its answer, or why there is none. No answer counts
/// as an empty one.
pub open spec fn reply_of(ok: bool, stdout: Seq<u8>, stderr: Seq<u8>) -> Result<
    JsonView,
    ProvisionFault,
> {
    if !ok {
        Err(ProvisionFault::Backend("exec command failed: "@ + trimmed(shown(stderr))))
    } else if blank(shown(stdout)) {
        Ok(JsonView::Object(Map::empty()))
    } else {
        match json_read(trimmed(shown(stdout))) {
            Ok(j) => Ok(j),
            Err(c) => Err(ProvisionFault::Backend("exec stdout not json: "@ + c)),
        }
    }
}

/// What a command's end means.
pub fn read_reply(ok: bool, stdout: &Vec<u8>, stderr: &Vec<u8>) -> (r: Result<
    Json,
    ProvisionError,
>)
    ensures
        match r {
            Ok(j) => reply_of(ok, stdout@, stderr@) == Ok::<_, ProvisionFault>(j@),
            Err(e) => reply_of(ok, stdout@, stderr@) == Err::<JsonView, _>(e@),
        },
{
    if !ok {
        let said = text_lossy(stderr);
        let why = trim(said.as_str());
        let mut m = "exec command failed: ".to_owned();
        m.append(why.as_str());
        return Err(ProvisionError::Backend(m));
    }
    let said = text_lossy(stdout);
    let answer = trim(said.as_str());
    proof {
        lemma_trimmed_blank(said@);
    }
    if answer.as_str().is_empty() {
        return Ok(Json::object());
    }
    match Json::parse(answer.as_str()) {
        Ok(j) => Ok(j),
        Err(c) => {
            let mut m = "exec stdout not json: ".to_owned();
            m.append(c.as_str());
            Err(ProvisionError::Backend(m))
        },
    }
}

impl ExecConnector {
    /// The exec connector.
    pub fn new() -> (r: ExecConnector)
        ensures
            r == ExecConnector,
    {
        ExecConnector
    }

    /// Its name.
    pub fn name(&self) -> (r: &'static str)
        ensures
            r@ == "exec"@,
    {
        "exec"
    }

    /// It acts for real.
    pub fn dry_run(&self) -> (r: bool)
        ensures
            !r,
    {
        false
    }

    /// It takes any service.
    pub fn supports(&self, _resource_type: &str) -> (r: bool)
        ensures
            r,
    {
        true
    }

    /// What it would do.
    pub fn plan(&self, req: &ProvisionRequest) -> (r: Plan)
        ensures
            r.summary@ == "exec connector would run '"@ + req@.resource_type + "'"@,
            text_map(r.tags@) == req@.ctx.tag_map(),
            r.estimated_monthly_usd == req@.estimated_monthly_usd,
    {
        let mut s = "exec connector would run '".to_owned();
        s.append(req.resource_type.as_str());
        s.append("'");
        Plan {
            summary: s,
            tags: req.ctx.tags(),
            estimated_monthly_usd: req.estimated_monthly_usd,
        }
    }

    /// The run that brings a resource up.
    pub fn apply(&self, req: &ProvisionRequest, plan: &Plan) -> (r: Result<
        ExecRun,
        ProvisionError,
    >)
        ensures
            match r {
                Ok(x) => command_at(req@.config, "command"@) matches Some(c) && run_fault(
                    c,
                ) is None && runs(x, c, told_of(req@, Some(text_map(plan.tags@)))),
                Err(e) => match command_at(req@.config, "command"@) {
                    None => e@ == ProvisionFault::Backend("exec connector needs config.command"@),
                    Some(c) => run_fault(c) == Some(e@),
                },
            },
    {
        match command_of(&req.config, "command") {
            Some(c) => {
                let told = told_json(req, Some(&plan.tags));
                build_run(c, &told)
            },
            None => Err(
                ProvisionError::Backend("exec connector needs config.command".to_owned()),
            ),
        }
    }

    /// What the answer to a run that brought a resource up amounts to.
    pub fn applied(&self, req: &ProvisionRequest, outputs: Json) -> (r: Provisioned)
        ensures
            r.outputs == outputs,
            r.resource_ids@.len() == 0,
            texts(r.sensitive_keys@) == req@.secret_outputs,
    {
        Provisioned {
            outputs,
            resource_ids: Vec::new(),
            sensitive_keys: copy_texts(&req.secret_outputs),
        }
    }

    /// The run for a later step of a resource's life: `destroy_command`,
    /// `stop_command` or `resume_command`; none where the service has no such
    /// command.
    pub fn later_run(&self, req: &ProvisionRequest, key: &str) -> (r: Result<
        Option<ExecRun>,
        ProvisionError,
    >)
        ensures
            match command_at(req@.config, key@) {
                None => r matches Ok(None),
                Some(c) => match r {
                    Ok(x) => x is Some && run_fault(c) is None && runs(
                        x->0,
                        c,
                        told_of(req@, None),
                    ),
                    Err(e) => run_fault(c) == Some(e@),
                },
            },
    {
        match command_of(&req.config, key) {
            Some(c) => {
                let told = told_json(req, None);
                match build_run(c, &told) {
                    Ok(x) => Ok(Some(x)),
                    Err(e) => Err(e),
                }
            },
            None => Ok(None),
        }
    }
}

/// A command is the texts of the list under its key, in order, and nothing where there is
/// no list.
pub proof fn law_command_is_the_texts_of_the_list(config: JsonView, key: Seq<char>)
    ensures
        command_at(config, key) is Some <==> (config.at(key) is Some && config.at(key)->0 is Array),
        config.at(key) matches Some(JsonView::Array(items)) ==> command_at(config, key) == Some(
            items.filter(|v: JsonView| v is Str).map_values(|v: JsonView| v.text()->0),
        ),
{
    if config.at(key) is Some && config.at(key)->0 is Array {
        lemma_texts_among(config.at(key)->0->Array_0);
    }
}

proof fn lemma_texts_among(items: Seq<JsonView>)
    ensures
        texts_among(items) == items.filter(|v: JsonView| v is Str).map_values(
            |v: JsonView| v.text()->0,
        ),
    decreases items.len(),
{
    reveal(Seq::filter);
    let f = |v: JsonView| v is Str;
    let g = |v: JsonView| v.text()->0;
    if items.len() > 0 {
        let t = items.drop_last();
        lemma_texts_among(t);
        let last = items.last();
        assert(t.filter(f).push(last).map_values(g) =~= t.filter(f).map_values(g).push(g(last)));
    }
    assert(texts_among(items) =~= items.filter(f).map_values(g));
}

/// A command is told the resource's name and spec, and its tags where it brings the
/// resource up; it runs its first text with the rest as arguments.
pub proof fn law_what_a_command_is_told(
    req: RequestView,
    tags: Map<Seq<char>, Seq<char>>,
    r: ExecRun,
    command: Seq<Seq<char>>,
    told: JsonView,
)
    ensures
        told_of(req, None).text_at("name"@) == Some(req.name),
        told_of(req, None).at("spec"@) == Some(req.spec),
        told_of(req, None).at("tags"@) is None,
        told_of(req, Some(tags)).text_at("name"@) == Some(req.name),
        told_of(req, Some(tags)).at("spec"@) == Some(req.spec),
        told_of(req, Some(tags)).at("tags"@) == Some(JsonView::Object(tags_object(tags))),
        runs(r, command, told) ==> command.len() == r.args@.len() + 1 && command[0] == r.bin@
            && r.stdin@ == json_text(told),
        run_fault(command) is None <==> command.len() > 0,
{
    reveal_strlit("name");
    reveal_strlit("spec");
    reveal_strlit("tags");
    assert("name"@.len() == 4);
    assert("spec"@.len() == 4);
    assert("tags"@.len() == 4);
    assert("name"@[0] != "spec"@[0]);
    assert("name"@[0] != "tags"@[0]);
    assert("spec"@[0] != "tags"@[0]);
    if runs(r, command, told) {
        assert((seq![r.bin@] + texts(r.args@))[0] == r.bin@);
    }
}

/// A command that fails has no answer, one that prints nothing has an empty one, and any
/// other has the JSON that it prints, or none where that is no JSON.
pub proof fn law_what_a_command_answers(ok: bool, stdout: Seq<u8>, stderr: Seq<u8>)
    ensures
        reply_of(ok, stdout, stderr) is Ok <==> ok && (blank(shown(stdout)) || json_read(
            trimmed(shown(stdout)),
        ) is Ok),
        ok && blank(shown(stdout)) ==> reply_of(ok, stdout, stderr) == Ok::<_, ProvisionFault>(
            JsonView::Object(Map::empty()),
        ),
        ok && !blank(shown(stdout)) && json_read(trimmed(shown(stdout))) is Ok ==> reply_of(
            ok,
            stdout,
            stderr,
        ) == Ok::<_, ProvisionFault>(json_read(trimmed(shown(stdout)))->Ok_0),
{
}

} // verus!
