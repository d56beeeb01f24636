//! The exec source: a command of the operator's choice that prints a project's
//! spend.
use vstd::prelude::*;

use crate::calendar::CostWindow;
use crate::json::{json_read, Json, JsonView};
use crate::provision::cost::{service_cost, CostView, ServiceCost};
use crate::text::{contents, copy_texts, shown, text_lossy, texts, trim, trimmed};
use crate::usd::Usd;

verus! {

/// The command, without the arguments that each query adds.
#[derive(Debug)]
pub struct ExecCostSource {
    pub command: Vec<String>,
}

/// The command of a query.
pub open spec fn query_of(
    command: Seq<Seq<char>>,
    project_id: Seq<char>,
    start: Seq<char>,
    end: Seq<char>,
) -> Seq<Seq<char>> {
    command + seq!["--project"@, project_id, "--start"@, start, "--end"@, end]
}

/// What a command printed, trimmed: a number by itself, or JSON that names one.
pub fn printed(stdout: &Vec<u8>) -> (r: String)
    ensures
        r@ == trimmed(shown(stdout@)),
{
    let said = text_lossy(stdout);
    trim(said.as_str())
}

/// The writing of the number that printed JSON names.
pub open spec fn usd_written(s: Seq<char>) -> Option<Seq<char>> {
    match json_read(s) {
        Ok(j) => match j.at("usd"@) {
            Some(JsonView::Number(n)) => Some(n),
            _ => None,
        },
        Err(_) => None,
    }
}

/// The writing of the number that printed JSON names.
pub fn json_usd(s: &str) -> (r: Option<String>)
    ensures
        contents(r) == usd_written(s@),
{
    match Json::parse(s) {
        Ok(j) => match j.get("usd") {
            Some(Json::Number(n)) => Some(n.clone()),
            _ => None,
        },
        Err(_) => None,
    }
}

impl ExecCostSource {
    /// A source with a command.
    pub fn new(command: Vec<String>) -> (r: ExecCostSource)
        ensures
            r.command == command,
    {
        ExecCostSource { command }
    }

    /// Its name.
    pub fn name(&self) -> (r: &'static str)
        ensures
            r@ == "exec"@,
    {
        "exec"
    }

    /// The command of a query; nothing where there is no command.
    pub fn query(&self, project_id: &str, window: &CostWindow) -> (r: Option<Vec<String>>)
        ensures
            match r {
                Some(a) => self.command@.len() > 0 && texts(a@) == query_of(
                    texts(self.command@),
                    project_id@,
                    window.start@,
                    window.end@,
                ),
                None => self.command@.len() == 0,
            },
    {
        if self.command.len() == 0 {
            return None;
        }
        let mut a = copy_texts(&self.command);
        let ghost base = texts(a@);
        a.push("--project".to_owned());
        a.push(project_id.to_owned());
        a.push("--start".to_owned());
        a.push(window.start.clone());
        a.push("--end".to_owned());
        a.push(window.end.clone());
        assert(texts(a@) =~= query_of(base, project_id@, window.start@, window.end@));
        Some(a)
    }

    /// What is reported where there is no command.
    pub fn unconfigured(&self) -> (r: ServiceCost)
        ensures
            r@ == (CostView {
                backend: "exec"@,
                actual_usd: None,
                source: "exec unconfigured"@,
            }),
    {
        service_cost("exec", None, "exec unconfigured")
    }

    /// What is reported where the command failed.
    pub fn failed(&self) -> (r: ServiceCost)
        ensures
            r@ == (CostView {
                backend: "exec"@,
                actual_usd: None,
                source: "exec cost source failed"@,
            }),
    {
        service_cost("exec", None, "exec cost source failed")
    }

    /// What is reported of what was printed, read as a number where it could be.
    pub fn measured(&self, usd: Option<Usd>) -> (r: ServiceCost)
        ensures
            r@ == (CostView { backend: "exec"@, actual_usd: usd, source: "exec"@ }),
    {
        service_cost("exec", usd, "exec")
    }
}

/// A query names the project and the first and the last day of the window, behind the
/// operator's own command.
pub proof fn law_query_names_project_and_days(
    command: Seq<Seq<char>>,
    project_id: Seq<char>,
    start: Seq<char>,
    end: Seq<char>,
)
    ensures
        ({
            let q = query_of(command, project_id, start, end);
            let n = command.len() as int;
            &&& q.len() == n + 6
            &&& q.take(n) == command
            &&& q[n] == "--project"@ && q[n + 1] == project_id
            &&& q[n + 2] == "--start"@ && q[n + 3] == start
            &&& q[n + 4] == "--end"@ && q[n + 5] == end
        }),
{
    assert(query_of(command, project_id, start, end).take(command.len() as int) =~= command);
}

/// The spend in printed JSON is the number under `usd`, and nothing else is one.
pub proof fn law_spend_is_the_number_under_usd(s: Seq<char>)
    ensures
        usd_written(s) is Some <==> (json_read(s) is Ok && json_read(s)->Ok_0.at("usd"@) is Some
            && json_read(s)->Ok_0.at("usd"@)->0 is Number),
        usd_written(s) matches Some(n) ==> json_read(s)->Ok_0.at("usd"@) == Some(
            JsonView::Number(n),
        ),
{
}

} // verus!
