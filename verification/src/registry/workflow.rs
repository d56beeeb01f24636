//! Approval requests: the states they rest in and what is submitted.
use vstd::prelude::*;

use crate::json::Json;
use crate::text::text_eq;

verus! {

/// Where an approval request rests.
#[derive(Debug, Clone, Copy, PartialEq, Eq, Structural)]
pub enum State {
    Requested,
    Approved,
    Rejected,
    Fulfilled,
    Cancelled,
    Flagged,
    Reviewing,
}

/// The name of a state.
pub open spec fn state_name(s: State) -> Seq<char> {
    match s {
        State::Requested => "requested"@,
        State::Approved => "approved"@,
        State::Rejected => "rejected"@,
        State::Fulfilled => "fulfilled"@,
        State::Cancelled => "cancelled"@,
        State::Flagged => "flagged"@,
        State::Reviewing => "reviewing"@,
    }
}

/// The state of a name.
pub open spec fn named_state(s: Seq<char>) -> Option<State> {
    if s == "requested"@ {
        Some(State::Requested)
    } else if s == "approved"@ {
        Some(State::Approved)
    } else if s == "rejected"@ {
        Some(State::Rejected)
    } else if s == "fulfilled"@ {
        Some(State::Fulfilled)
    } else if s == "cancelled"@ {
        Some(State::Cancelled)
    } else if s == "flagged"@ {
        Some(State::Flagged)
    } else if s == "reviewing"@ {
        Some(State::Reviewing)
    } else {
        None
    }
}

impl State {
    /// The name of the state.
    pub fn as_str(&self) -> (r: &'static str)
        ensures
            r@ == state_name(*self),
    {
        match self {
            State::Requested => "requested",
            State::Approved => "approved",
            State::Rejected => "rejected",
            State::Fulfilled => "fulfilled",
            State::Cancelled => "cancelled",
            State::Flagged => "flagged",
            State::Reviewing => "reviewing",
        }
    }

    /// The state of a name.
    pub fn parse(s: &str) -> (r: Option<State>)
        ensures
            r == named_state(s@),
    {
        if text_eq(s, "requested") {
            Some(State::Requested)
        } else if text_eq(s, "approved") {
            Some(State::Approved)
        } else if text_eq(s, "rejected") {
            Some(State::Rejected)
        } else if text_eq(s, "fulfilled") {
            Some(State::Fulfilled)
        } else if text_eq(s, "cancelled") {
            Some(State::Cancelled)
        } else if text_eq(s, "flagged") {
            Some(State::Flagged)
        } else if text_eq(s, "reviewing") {
            Some(State::Reviewing)
        } else {
            None
        }
    }
}

/// A state is found again under its name.
pub proof fn law_state_names_round_trip(s: State)
    ensures
        named_state(state_name(s)) == Some(s),
{
    reveal_strlit("requested");
    reveal_strlit("approved");
    reveal_strlit("rejected");
    reveal_strlit("fulfilled");
    reveal_strlit("cancelled");
    reveal_strlit("flagged");
    reveal_strlit("reviewing");
    assert("requested"@.len() == 9 && "requested"@[2] == 'q');
    assert("approved"@.len() == 8 && "approved"@[0] == 'a');
    assert("rejected"@.len() == 8 && "rejected"@[0] == 'r');
    assert("fulfilled"@.len() == 9 && "fulfilled"@[2] == 'l');
    assert("cancelled"@.len() == 9 && "cancelled"@[2] == 'n');
    assert("flagged"@.len() == 7);
    assert("reviewing"@.len() == 9 && "reviewing"@[2] == 'v');
}

/// A request as it is submitted.
#[derive(Debug)]
pub struct NewRequest {
    pub kind: String,
    pub requester: String,
    pub subject: String,
    pub payload: Json,
    pub sla_seconds: Option<i64>,
}

/// A request on record.
#[derive(Debug)]
pub struct WorkflowRequest {
    pub id: String,
    pub kind: String,
    pub requester: String,
    pub subject: String,
    pub state: State,
    pub payload: Json,
    pub approver: Option<String>,
    pub reason: Option<String>,
}

/// The time a human has to answer a request: a week, in seconds.
pub const WEEK_SECS: i64 = 604800;

/// Each state has its own name, and no other text names one.
pub proof fn law_names_of_states(s: Seq<char>)
    ensures
        state_name(State::Requested) == "requested"@,
        state_name(State::Approved) == "approved"@,
        state_name(State::Rejected) == "rejected"@,
        state_name(State::Fulfilled) == "fulfilled"@,
        state_name(State::Cancelled) == "cancelled"@,
        state_name(State::Flagged) == "flagged"@,
        state_name(State::Reviewing) == "reviewing"@,
        named_state(s) == Some(State::Requested) <==> s == "requested"@,
        named_state(s) == Some(State::Approved) <==> s == "approved"@,
        named_state(s) == Some(State::Rejected) <==> s == "rejected"@,
        named_state(s) == Some(State::Fulfilled) <==> s == "fulfilled"@,
        named_state(s) == Some(State::Cancelled) <==> s == "cancelled"@,
        named_state(s) == Some(State::Flagged) <==> s == "flagged"@,
        named_state(s) == Some(State::Reviewing) <==> s == "reviewing"@,
{
    reveal_strlit("requested");
    reveal_strlit("approved");
    reveal_strlit("rejected");
    reveal_strlit("fulfilled");
    reveal_strlit("cancelled");
    reveal_strlit("flagged");
    reveal_strlit("reviewing");
    assert("requested"@.len() == 9);
    assert("approved"@.len() == 8);
    assert("rejected"@.len() == 8);
    assert("fulfilled"@.len() == 9);
    assert("cancelled"@.len() == 9);
    assert("flagged"@.len() == 7);
    assert("reviewing"@.len() == 9);
    assert("requested"@[0] != "fulfilled"@[0]);
    assert("requested"@[0] != "cancelled"@[0]);
    assert("requested"@[2] != "reviewing"@[2]);
    assert("approved"@[0] != "rejected"@[0]);
    assert("fulfilled"@[0] != "cancelled"@[0]);
    assert("fulfilled"@[0] != "reviewing"@[0]);
    assert("cancelled"@[0] != "reviewing"@[0]);
}

} // verus!
