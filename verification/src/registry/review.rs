//! Review deadlines: when a project is due, what a sweep finds overdue, and how
//! a deadline is extended. Expiry is a flag; it blocks nothing.
use vstd::prelude::*;

use crate::json::{Json, JsonView};
use crate::registry::approvals::project_subject;
use crate::registry::workflow::{NewRequest, WEEK_SECS};
use crate::text::{before, text_before, text_eq, texts, trim, trimmed};

verus! {

/// The operator's review thresholds.
#[derive(Debug)]
pub struct ReviewConfig {
    /// Days from registration to the first deadline of a proof of concept.
    pub poc_window_days: i64,
    /// How many extensions a project gets before a human must decide.
    pub auto_extensions: i64,
}

impl Default for ReviewConfig {
    fn default() -> (r: ReviewConfig)
        ensures
            r.poc_window_days == 90,
            r.auto_extensions == 1,
    {
        ReviewConfig { poc_window_days: 90, auto_extensions: 1 }
    }
}

/// The review fields of a project.
#[derive(Debug)]
pub struct ReviewState {
    pub review_date: String,
    pub review_state: String,
    pub review_extensions: i64,
    pub stack_exception_renewal_date: String,
}

impl Default for ReviewState {
    fn default() -> (r: ReviewState)
        ensures
            r.review_date@.len() == 0,
            r.review_state@.len() == 0,
            r.review_extensions == 0,
            r.stack_exception_renewal_date@.len() == 0,
    {
        ReviewState {
            review_date: String::new(),
            review_state: String::new(),
            review_extensions: 0,
            stack_exception_renewal_date: String::new(),
        }
    }
}

/// What a sweep found.
#[derive(Debug)]
pub struct SweepSummary {
    pub checked: usize,
    pub newly_expired: Vec<String>,
    pub expired_exceptions: Vec<String>,
}

/// The columns of a project that a sweep looks at.
#[derive(Debug)]
pub struct SweepRow {
    pub project_id: String,
    pub registered: bool,
    pub review_date: String,
    pub review_state: String,
    pub stack_exception: String,
    pub stack_exception_renewal_date: String,
}

/// The first deadline of a project: the end of the window for a proof of
/// concept, else the recurring date a human entered, else none.
pub open spec fn first_deadline(
    classification: Seq<char>,
    window_end: Seq<char>,
    recurring: Seq<char>,
) -> Seq<char> {
    if classification == "poc"@ {
        window_end
    } else {
        trimmed(recurring)
    }
}

/// The first deadline of a project. `window_end` is the creation time moved by
/// the window for a proof of concept.
pub fn set_initial(classification: &str, window_end: &str, recurring_review_date: &str) -> (r:
    String)
    ensures
        r@ == first_deadline(classification@, window_end@, recurring_review_date@),
{
    if text_eq(classification, "poc") {
        window_end.to_owned()
    } else {
        trim(recurring_review_date)
    }
}

/// A registered project with a deadline.
pub open spec fn has_deadline(r: SweepRow) -> bool {
    r.registered && r.review_date@.len() > 0
}

/// A project whose deadline has passed and that is not flagged yet.
pub open spec fn overdue(r: SweepRow, now: Seq<char>) -> bool {
    has_deadline(r) && r.review_state@ == "ok"@ && before(r.review_date@, now)
}

/// A project on an unsupported stack with no renewal date ahead.
pub open spec fn exception_lapsed(r: SweepRow, now: Seq<char>) -> bool {
    r.registered && r.stack_exception@.len() > 0 && (r.stack_exception_renewal_date@.len() == 0
        || before(r.stack_exception_renewal_date@, now))
}

/// How many projects have a deadline.
pub open spec fn with_deadline(rows: Seq<SweepRow>) -> nat
    decreases rows.len(),
{
    if rows.len() == 0 {
        0
    } else {
        with_deadline(rows.drop_last()) + if has_deadline(rows.last()) {
            1nat
        } else {
            0nat
        }
    }
}

/// The projects that are overdue, in order.
pub open spec fn overdue_ids(rows: Seq<SweepRow>, now: Seq<char>) -> Seq<Seq<char>>
    decreases rows.len(),
{
    if rows.len() == 0 {
        Seq::empty()
    } else {
        let rest = overdue_ids(rows.drop_last(), now);
        if overdue(rows.last(), now) {
            rest.push(rows.last().project_id@)
        } else {
            rest
        }
    }
}

/// The projects whose stack exception lapsed, in order.
pub open spec fn lapsed_ids(rows: Seq<SweepRow>, now: Seq<char>) -> Seq<Seq<char>>
    decreases rows.len(),
{
    if rows.len() == 0 {
        Seq::empty()
    } else {
        let rest = lapsed_ids(rows.drop_last(), now);
        if exception_lapsed(rows.last(), now) {
            rest.push(rows.last().project_id@)
        } else {
            rest
        }
    }
}

/// A row after a sweep: flagged when it was overdue, else as it was.
pub open spec fn swept(before_row: SweepRow, after_row: SweepRow, now: Seq<char>) -> bool {
    if overdue(before_row, now) {
        after_row.review_state@ == "expired"@ && after_row == (SweepRow {
            review_state: after_row.review_state,
            ..before_row
        })
    } else {
        after_row == before_row
    }
}

fn is_overdue(r: &SweepRow, now: &str) -> (b: bool)
    ensures
        b == overdue(*r, now@),
{
    r.registered && !r.review_date.as_str().is_empty() && text_eq(r.review_state.as_str(), "ok")
        && text_before(r.review_date.as_str(), now)
}

fn is_lapsed(r: &SweepRow, now: &str) -> (b: bool)
    ensures
        b == exception_lapsed(*r, now@),
{
    r.registered && !r.stack_exception.as_str().is_empty() && (
    r.stack_exception_renewal_date.as_str().is_empty() || text_before(
        r.stack_exception_renewal_date.as_str(),
        now,
    ))
}

/// Sweeps the projects: flags the overdue ones and reports them, and reports the
/// lapsed stack exceptions.
pub fn sweep(rows: &mut Vec<SweepRow>, now: &str) -> (r: SweepSummary)
    ensures
        final(rows)@.len() == old(rows)@.len(),
        forall|i: int|
            0 <= i < old(rows)@.len() ==> swept(old(rows)@[i], #[trigger] final(rows)@[i], now@),
        r.checked == with_deadline(old(rows)@),
        texts(r.newly_expired@) == overdue_ids(old(rows)@, now@),
        texts(r.expired_exceptions@) == lapsed_ids(old(rows)@, now@),
{
    let ghost start = rows@;
    let mut checked: usize = 0;
    let mut newly: Vec<String> = Vec::new();
    let mut lapsed: Vec<String> = Vec::new();
    let mut i: usize = 0;
    assert(texts(newly@) =~= overdue_ids(start.take(0), now@));
    assert(texts(lapsed@) =~= lapsed_ids(start.take(0), now@));
    while i < rows.len()
        invariant
            i <= rows@.len(),
            rows@.len() == start.len(),
            checked <= i,
            checked == with_deadline(start.take(i as int)),
            texts(newly@) == overdue_ids(start.take(i as int), now@),
            texts(lapsed@) == lapsed_ids(start.take(i as int), now@),
            forall|k: int| 0 <= k < i ==> swept(start[k], #[trigger] rows@[k], now@),
            forall|k: int| i <= k < start.len() ==> #[trigger] rows@[k] == start[k],
        decreases rows.len() - i,
    {
        assert(start.take(i + 1).drop_last() =~= start.take(i as int));
        assert(start.take(i + 1).last() == start[i as int]);
        let ghost n0 = texts(newly@);
        let ghost l0 = texts(lapsed@);
        assert(rows@[i as int] == start[i as int]);
        if rows[i].registered && !rows[i].review_date.as_str().is_empty() {
            checked = checked + 1;
        }
        let lapse = is_lapsed(&rows[i], now);
        if lapse {
            lapsed.push(rows[i].project_id.clone());
            assert(texts(lapsed@) =~= l0.push(start[i as int].project_id@));
        }
        if is_overdue(&rows[i], now) {
            newly.push(rows[i].project_id.clone());
            assert(texts(newly@) =~= n0.push(start[i as int].project_id@));
            rows[i].review_state = "expired".to_owned();
        }
        i = i + 1;
    }
    assert(start.take(start.len() as int) =~= start);
    SweepSummary { checked, newly_expired: newly, expired_exceptions: lapsed }
}

/// A second sweep at the same time reports no project again: the flag is raised
/// once.
pub proof fn law_sweep_reports_once(first: Seq<SweepRow>, second: Seq<SweepRow>, now: Seq<char>)
    requires
        first.len() == second.len(),
        forall|i: int| 0 <= i < first.len() ==> swept(first[i], #[trigger] second[i], now),
    ensures
        overdue_ids(second, now).len() == 0,
    decreases first.len(),
{
    if first.len() > 0 {
        let f = first.drop_last();
        let s = second.drop_last();
        assert forall|i: int| 0 <= i < f.len() implies swept(f[i], #[trigger] s[i], now) by {
            assert(swept(first[i], second[i], now));
        }
        law_sweep_reports_once(f, s, now);
        let n = first.len() - 1;
        assert(swept(first[n], second[n], now));
        reveal_strlit("ok");
        reveal_strlit("expired");
        assert("ok"@.len() == 2 && "expired"@.len() == 7);
    }
}

/// What an extension request comes to.
#[derive(Debug)]
pub enum Extension {
    /// Grant a window counted from this time.
    Grant { base: String },
    /// The allowance is used up; a human decides.
    Ask(NewRequest),
}

/// Decides an extension request: automatic while the project is under its
/// allowance, a request to a human after that.
pub fn extend_review(
    project_id: &str,
    rv: &ReviewState,
    cfg: &ReviewConfig,
    now: &str,
    actor: &str,
) -> (r: Extension)
    ensures
        if rv.review_extensions < cfg.auto_extensions {
            r matches Extension::Grant { base } && base@ == if rv.review_date@.len() == 0 {
                now@
            } else {
                rv.review_date@
            }
        } else {
            r matches Extension::Ask(n) && n.kind@ == "review-extension"@ && n.requester@ == actor@
                && n.subject@ == project_subject(project_id@) && n.payload@ == JsonView::Object(
                Map::empty().insert("project_id"@, JsonView::Str(project_id@)),
            ) && n.sla_seconds == Some(604800i64)
        },
        r is Grant <==> rv.review_extensions < cfg.auto_extensions,
        cfg.auto_extensions <= rv.review_extensions ==> r is Ask,
        r matches Extension::Grant { base } ==> base@ == rv.review_date@ || (
        rv.review_date@.len() == 0 && base@ == now@),
{
    if rv.review_extensions < cfg.auto_extensions {
        let base = if rv.review_date.as_str().is_empty() {
            now.to_owned()
        } else {
            rv.review_date.clone()
        };
        return Extension::Grant { base };
    }
    let mut payload = Json::object();
    payload.insert_str("project_id", project_id);
    let mut subject = "project:".to_owned();
    subject.append(project_id);
    Extension::Ask(
        NewRequest {
            kind: "review-extension".to_owned(),
            requester: actor.to_owned(),
            subject,
            payload,
            sla_seconds: Some(WEEK_SECS),
        },
    )
}

/// Applies a granted extension: the new deadline, one extension more, and the
/// flag cleared.
pub fn grant_extension(rv: ReviewState, new_date: &str) -> (r: ReviewState)
    requires
        rv.review_extensions < i64::MAX,
    ensures
        r.review_date@ == new_date@,
        r.review_state@ == "ok"@,
        r.review_extensions == rv.review_extensions + 1,
        r.stack_exception_renewal_date == rv.stack_exception_renewal_date,
{
    ReviewState {
        review_date: new_date.to_owned(),
        review_state: "ok".to_owned(),
        review_extensions: rv.review_extensions + 1,
        stack_exception_renewal_date: rv.stack_exception_renewal_date,
    }
}

/// A sweep flags exactly the registered projects whose deadline is past and whose state
/// is still `ok`, and names them in order; it names the registered projects whose stack
/// exception has no renewal date or one that is past, and counts those with a deadline.
pub proof fn law_sweep_finds_what_is_past(rows: Seq<SweepRow>, now: Seq<char>)
    ensures
        overdue_ids(rows, now) == rows.filter(
            |r: SweepRow|
                r.registered && r.review_date@.len() > 0 && r.review_state@ == "ok"@ && before(
                    r.review_date@,
                    now,
                ),
        ).map_values(|r: SweepRow| r.project_id@),
        lapsed_ids(rows, now) == rows.filter(
            |r: SweepRow|
                r.registered && r.stack_exception@.len() > 0 && (
                r.stack_exception_renewal_date@.len() == 0 || before(
                    r.stack_exception_renewal_date@,
                    now,
                )),
        ).map_values(|r: SweepRow| r.project_id@),
        with_deadline(rows) == rows.filter(
            |r: SweepRow| r.registered && r.review_date@.len() > 0,
        ).len(),
    decreases rows.len(),
{
    reveal(Seq::filter);
    let f = |r: SweepRow|
        r.registered && r.review_date@.len() > 0 && r.review_state@ == "ok"@ && before(
            r.review_date@,
            now,
        );
    let e = |r: SweepRow|
        r.registered && r.stack_exception@.len() > 0 && (r.stack_exception_renewal_date@.len() == 0
            || before(r.stack_exception_renewal_date@, now));
    let d = |r: SweepRow| r.registered && r.review_date@.len() > 0;
    let g = |r: SweepRow| r.project_id@;
    if rows.len() > 0 {
        let t = rows.drop_last();
        law_sweep_finds_what_is_past(t, now);
        let last = rows.last();
        assert(t.filter(f).push(last).map_values(g) =~= t.filter(f).map_values(g).push(g(last)));
        assert(t.filter(e).push(last).map_values(g) =~= t.filter(e).map_values(g).push(g(last)));
    }
    assert(overdue_ids(rows, now) =~= rows.filter(f).map_values(g));
    assert(lapsed_ids(rows, now) =~= rows.filter(e).map_values(g));
}

/// A sweep changes nothing of a project but the state of one whose deadline is past,
/// which goes from `ok` to `expired`.
pub proof fn law_sweep_only_expires(was: SweepRow, is: SweepRow, now: Seq<char>)
    requires
        swept(was, is, now),
    ensures
        is.project_id == was.project_id,
        is.registered == was.registered,
        is.review_date == was.review_date,
        is.stack_exception == was.stack_exception,
        is.stack_exception_renewal_date == was.stack_exception_renewal_date,
        was.registered && was.review_date@.len() > 0 && was.review_state@ == "ok"@ && before(
            was.review_date@,
            now,
        ) ==> is.review_state@ == "expired"@,
        !(was.registered && was.review_date@.len() > 0 && was.review_state@ == "ok"@ && before(
            was.review_date@,
            now,
        )) ==> is.review_state == was.review_state,
{
}

/// A proof of concept is due at the end of its window; any other project on the
/// recurring date that was entered for it, without the white space around it.
pub proof fn law_first_deadline(
    classification: Seq<char>,
    window_end: Seq<char>,
    recurring: Seq<char>,
)
    ensures
        first_deadline("poc"@, window_end, recurring) == window_end,
        classification != "poc"@ ==> first_deadline(classification, window_end, recurring)
            == trimmed(recurring),
{
}

} // verus!
