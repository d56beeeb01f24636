//! The classification evidence record: the machine-checkable fields beyond the
//! core registration. Every field is optional here; a tier's requirements are
//! for the promotion rules to enforce.
use vstd::prelude::*;

use crate::json::{
    items_view, json_read, json_text, json_view, lemma_items_view, strings_view, Json, JsonView,
};
use crate::registry::{RegistryError, RegistryFault};
use crate::text::{join, list_contains, texts};

verus! {

/// The evidence record of a project.
#[derive(Debug)]
pub struct Evidence {
    pub requested_classification: String,
    pub repo_or_source_url: String,
    pub business_owner: String,
    pub technical_owner: String,
    pub team_or_org_of_record: String,
    pub support_contact: String,
    pub runbook_url: String,
    pub monitoring_or_logs_url: String,
    pub ci_status_url: String,
    pub critical_flow_test_or_eval_url: String,
    pub state_loss_posture: String,
    pub stack_exception: String,
    pub security_review_status: String,
    pub architecture_summary_url: String,
    pub incident_path: String,
    pub slo_or_service_target: String,
    pub rpo_rto: String,
    pub decommission_path: String,
    pub executive_accountable_owner: String,
    pub risk_acceptance_url: String,
    pub dr_exercise_evidence_url: String,
    pub audit_retention_requirement: String,
    pub recurring_review_date: String,
    pub maintainers: Vec<String>,
    pub critical_dependencies: Vec<String>,
    pub primary_data_flows: Vec<String>,
}

/// The single-valued fields of a record, in column order.
pub open spec fn single_values(e: Evidence) -> Seq<Seq<char>> {
    seq![
        e.requested_classification@,
        e.repo_or_source_url@,
        e.business_owner@,
        e.technical_owner@,
        e.team_or_org_of_record@,
        e.support_contact@,
        e.runbook_url@,
        e.monitoring_or_logs_url@,
        e.ci_status_url@,
        e.critical_flow_test_or_eval_url@,
        e.state_loss_posture@,
        e.stack_exception@,
        e.security_review_status@,
        e.architecture_summary_url@,
        e.incident_path@,
        e.slo_or_service_target@,
        e.rpo_rto@,
        e.decommission_path@,
        e.executive_accountable_owner@,
        e.risk_acceptance_url@,
        e.dr_exercise_evidence_url@,
        e.audit_retention_requirement@,
        e.recurring_review_date@,
    ]
}

/// Two records that say the same.
pub open spec fn same_evidence(a: Evidence, b: Evidence) -> bool {
    &&& single_values(a) == single_values(b)
    &&& texts(a.maintainers@) == texts(b.maintainers@)
    &&& texts(a.critical_dependencies@) == texts(b.critical_dependencies@)
    &&& texts(a.primary_data_flows@) == texts(b.primary_data_flows@)
}

impl Default for Evidence {
    fn default() -> (r: Evidence)
        ensures
            single_values(r) == Seq::new(23, |i: int| Seq::<char>::empty()),
            r.maintainers@.len() == 0,
            r.critical_dependencies@.len() == 0,
            r.primary_data_flows@.len() == 0,
    {
        let r = Evidence {
            requested_classification: String::new(),
            repo_or_source_url: String::new(),
            business_owner: String::new(),
            technical_owner: String::new(),
            team_or_org_of_record: String::new(),
            support_contact: String::new(),
            runbook_url: String::new(),
            monitoring_or_logs_url: String::new(),
            ci_status_url: String::new(),
            critical_flow_test_or_eval_url: String::new(),
            state_loss_posture: String::new(),
            stack_exception: String::new(),
            security_review_status: String::new(),
            architecture_summary_url: String::new(),
            incident_path: String::new(),
            slo_or_service_target: String::new(),
            rpo_rto: String::new(),
            decommission_path: String::new(),
            executive_accountable_owner: String::new(),
            risk_acceptance_url: String::new(),
            dr_exercise_evidence_url: String::new(),
            audit_retention_requirement: String::new(),
            recurring_review_date: String::new(),
            maintainers: Vec::new(),
            critical_dependencies: Vec::new(),
            primary_data_flows: Vec::new(),
        };
        assert(single_values(r) =~= Seq::new(23, |i: int| Seq::<char>::empty()));
        r
    }
}

/// The values `security_review_status` may take.
pub open spec fn security_review_statuses_spec() -> Seq<Seq<char>> {
    seq!["not-started"@, "requested"@, "in-review"@, "approved"@, "waived"@]
}

/// The values `security_review_status` may take.
pub fn security_review_statuses() -> (r: Vec<String>)
    ensures
        texts(r@) == security_review_statuses_spec(),
{
    let v = vec![
        "not-started".to_owned(),
        "requested".to_owned(),
        "in-review".to_owned(),
        "approved".to_owned(),
        "waived".to_owned(),
    ];
    assert(texts(v@) =~= security_review_statuses_spec());
    v
}

/// The values `state_loss_posture` may take.
pub open spec fn state_loss_postures_spec() -> Seq<Seq<char>> {
    seq!["stateless"@, "recoverable"@, "durable-critical"@]
}

/// The values `state_loss_posture` may take.
pub fn state_loss_postures() -> (r: Vec<String>)
    ensures
        texts(r@) == state_loss_postures_spec(),
{
    let v = vec!["stateless".to_owned(), "recoverable".to_owned(), "durable-critical".to_owned()];
    assert(texts(v@) =~= state_loss_postures_spec());
    v
}

/// What is wrong with an enumerated field: nothing when it is empty or one of
/// the allowed values.
pub open spec fn enum_fault(
    field: Seq<char>,
    value: Seq<char>,
    allowed: Seq<Seq<char>>,
) -> Option<RegistryFault> {
    if value.len() == 0 || allowed.contains(value) {
        None
    } else {
        Some(
            RegistryFault::Validation(
                field + " must be one of: "@ + crate::text::joined(allowed, ", "@),
            ),
        )
    }
}

/// Checks an enumerated field.
pub fn check_enum(field: &str, value: &str, allowed: &Vec<String>) -> (r: Result<(), RegistryError>)
    ensures
        match r {
            Ok(_) => enum_fault(field@, value@, texts(allowed@)) is None,
            Err(e) => enum_fault(field@, value@, texts(allowed@)) == Some(e@),
        },
{
    if value.is_empty() || list_contains(allowed, value) {
        Ok(())
    } else {
        let mut m = field.to_owned();
        m.append(" must be one of: ");
        let list = join(allowed, ", ");
        m.append(list.as_str());
        Err(RegistryError::Validation(m))
    }
}

/// The first enumerated field of a record that holds a value of no meaning.
pub open spec fn evidence_fault(e: Evidence) -> Option<RegistryFault> {
    match enum_fault(
        "security_review_status"@,
        e.security_review_status@,
        security_review_statuses_spec(),
    ) {
        Some(f) => Some(f),
        None => enum_fault(
            "state_loss_posture"@,
            e.state_loss_posture@,
            state_loss_postures_spec(),
        ),
    }
}

// ---------------------------------------------------------------------------
// Lists as column text
// ---------------------------------------------------------------------------

/// The texts of an array of strings; none of any other value.
pub open spec fn strings_in(v: JsonView) -> Option<Seq<Seq<char>>> {
    match v {
        JsonView::Array(s) => if forall|i: int| 0 <= i < s.len() ==> (#[trigger] s[i]).text() is Some {
            Some(Seq::new(s.len(), |i: int| s[i].text()->0))
        } else {
            None
        },
        _ => None,
    }
}

/// The column text of a list: blank for an empty list, else its JSON.
pub open spec fn encoded(items: Seq<Seq<char>>) -> Seq<char> {
    if items.len() == 0 {
        Seq::empty()
    } else {
        json_text(JsonView::Array(strings_view(items)))
    }
}

/// The list behind a column text: empty for a blank column and for one that is no
/// JSON array of strings.
pub open spec fn decoded(raw: Seq<char>) -> Seq<Seq<char>> {
    if raw.len() == 0 {
        Seq::empty()
    } else {
        match json_read(raw) {
            Ok(v) => match strings_in(v) {
                Some(items) => items,
                None => Seq::empty(),
            },
            Err(_) => Seq::empty(),
        }
    }
}

/// The column text of a list. Decoding it gives the list back.
pub fn encode_list(items: &Vec<String>) -> (r: String)
    ensures
        r@ == encoded(texts(items@)),
        decoded(r@) == texts(items@),
{
    if items.is_empty() {
        assert(texts(items@) =~= Seq::empty());
        String::new()
    } else {
        let r = Json::strings(items).text();
        proof {
            let s = strings_view(texts(items@));
            assert forall|i: int| 0 <= i < s.len() implies (#[trigger] s[i]).plain(126) && s[i].text()
                == Some(texts(items@)[i]) by {}
            assert(JsonView::Array(s).plain(127));
            assert(strings_in(JsonView::Array(s)) is Some);
            assert(strings_in(JsonView::Array(s))->0 =~= texts(items@));
        }
        r
    }
}

fn all_texts(items: &Vec<Json>) -> (r: Option<Vec<String>>)
    ensures
        match r {
            Some(v) => strings_in(JsonView::Array(items_view(items@))) == Some(texts(v@)),
            None => strings_in(JsonView::Array(items_view(items@))) is None,
        },
{
    let ghost all = items_view(items@);
    let mut out: Vec<String> = Vec::new();
    let mut i: usize = 0;
    proof {
        lemma_items_view(items@);
    }
    while i < items.len()
        invariant
            i <= items@.len(),
            all == items_view(items@),
            all.len() == items@.len(),
            forall|k: int| 0 <= k < items@.len() ==> #[trigger] all[k] == json_view(items@[k]),
            out@.len() == i,
            forall|k: int| 0 <= k < i ==> (#[trigger] all[k]).text() == Some(out@[k]@),
        decreases items.len() - i,
    {
        assert(all[i as int] == json_view(items@[i as int]));
        match items[i].as_str() {
            Some(t) => {
                let t = t.to_owned();
                out.push(t);
            },
            None => {
                return None;
            },
        }
        i = i + 1;
    }
    assert(strings_in(JsonView::Array(all)) is Some);
    assert(strings_in(JsonView::Array(all))->0 =~= texts(out@));
    Some(out)
}

/// The list behind a column text.
pub fn decode_list(raw: &str) -> (r: Vec<String>)
    ensures
        texts(r@) == decoded(raw@),
{
    let empty: Vec<String> = Vec::new();
    assert(texts(empty@) =~= Seq::empty());
    if raw.is_empty() {
        return empty;
    }
    match Json::parse(raw) {
        Ok(Json::Array(items)) => match all_texts(&items) {
            Some(v) => v,
            None => empty,
        },
        _ => empty,
    }
}

// ---------------------------------------------------------------------------
// The record as columns
// ---------------------------------------------------------------------------

/// The columns the record is stored under, in order.
pub open spec fn column_names() -> Seq<Seq<char>> {
    seq![
        "requested_classification"@,
        "repo_or_source_url"@,
        "business_owner"@,
        "technical_owner"@,
        "team_or_org_of_record"@,
        "support_contact"@,
        "runbook_url"@,
        "monitoring_or_logs_url"@,
        "ci_status_url"@,
        "critical_flow_test_or_eval_url"@,
        "state_loss_posture"@,
        "stack_exception"@,
        "security_review_status"@,
        "architecture_summary_url"@,
        "incident_path"@,
        "slo_or_service_target"@,
        "rpo_rto"@,
        "decommission_path"@,
        "executive_accountable_owner"@,
        "risk_acceptance_url"@,
        "dr_exercise_evidence_url"@,
        "audit_retention_requirement"@,
        "recurring_review_date"@,
        "maintainers"@,
        "critical_dependencies"@,
        "primary_data_flows"@,
    ]
}

/// The values stored under the columns.
pub open spec fn column_values(e: Evidence) -> Seq<Seq<char>> {
    single_values(e) + seq![
        encoded(texts(e.maintainers@)),
        encoded(texts(e.critical_dependencies@)),
        encoded(texts(e.primary_data_flows@)),
    ]
}

/// The record that a row of column values stands for.
pub open spec fn row_means(values: Seq<Seq<char>>, e: Evidence) -> bool {
    &&& single_values(e) == values.take(23)
    &&& texts(e.maintainers@) == decoded(values[23])
    &&& texts(e.critical_dependencies@) == decoded(values[24])
    &&& texts(e.primary_data_flows@) == decoded(values[25])
}

impl Evidence {
    /// Rejects an enumerated field whose value is neither blank nor allowed.
    pub fn validate(&self) -> (r: Result<(), RegistryError>)
        ensures
            match r {
                Ok(_) => evidence_fault(*self) is None,
                Err(e) => evidence_fault(*self) == Some(e@),
            },
    {
        let statuses = security_review_statuses();
        match check_enum(
            "security_review_status",
            self.security_review_status.as_str(),
            &statuses,
        ) {
            Ok(_) => {},
            Err(e) => {
                return Err(e);
            },
        }
        let postures = state_loss_postures();
        check_enum("state_loss_posture", self.state_loss_posture.as_str(), &postures)
    }

    /// The columns and values to store, in order. The last three values read
    /// back as the lists they were made from.
    pub fn columns(&self) -> (r: Vec<(&'static str, String)>)
        ensures
            r@.len() == 26,
            forall|i: int|
                0 <= i < 26 ==> (#[trigger] r@[i]).0@ == column_names()[i] && r@[i].1@
                    == column_values(*self)[i],
            decoded(r@[23].1@) == texts(self.maintainers@),
            decoded(r@[24].1@) == texts(self.critical_dependencies@),
            decoded(r@[25].1@) == texts(self.primary_data_flows@),
    {
        vec![
            ("requested_classification", self.requested_classification.clone()),
            ("repo_or_source_url", self.repo_or_source_url.clone()),
            ("business_owner", self.business_owner.clone()),
            ("technical_owner", self.technical_owner.clone()),
            ("team_or_org_of_record", self.team_or_org_of_record.clone()),
            ("support_contact", self.support_contact.clone()),
            ("runbook_url", self.runbook_url.clone()),
            ("monitoring_or_logs_url", self.monitoring_or_logs_url.clone()),
            ("ci_status_url", self.ci_status_url.clone()),
            ("critical_flow_test_or_eval_url", self.critical_flow_test_or_eval_url.clone()),
            ("state_loss_posture", self.state_loss_posture.clone()),
            ("stack_exception", self.stack_exception.clone()),
            ("security_review_status", self.security_review_status.clone()),
            ("architecture_summary_url", self.architecture_summary_url.clone()),
            ("incident_path", self.incident_path.clone()),
            ("slo_or_service_target", self.slo_or_service_target.clone()),
            ("rpo_rto", self.rpo_rto.clone()),
            ("decommission_path", self.decommission_path.clone()),
            ("executive_accountable_owner", self.executive_accountable_owner.clone()),
            ("risk_acceptance_url", self.risk_acceptance_url.clone()),
            ("dr_exercise_evidence_url", self.dr_exercise_evidence_url.clone()),
            ("audit_retention_requirement", self.audit_retention_requirement.clone()),
            ("recurring_review_date", self.recurring_review_date.clone()),
            ("maintainers", encode_list(&self.maintainers)),
            ("critical_dependencies", encode_list(&self.critical_dependencies)),
            ("primary_data_flows", encode_list(&self.primary_data_flows)),
        ]
    }

    /// The record behind a row of column values, in column order.
    pub fn from_row(values: &Vec<String>) -> (r: Evidence)
        requires
            values@.len() == 26,
        ensures
            row_means(texts(values@), r),
    {
        let r = Evidence {
            requested_classification: values[0].clone(),
            repo_or_source_url: values[1].clone(),
            business_owner: values[2].clone(),
            technical_owner: values[3].clone(),
            team_or_org_of_record: values[4].clone(),
            support_contact: values[5].clone(),
            runbook_url: values[6].clone(),
            monitoring_or_logs_url: values[7].clone(),
            ci_status_url: values[8].clone(),
            critical_flow_test_or_eval_url: values[9].clone(),
            state_loss_posture: values[10].clone(),
            stack_exception: values[11].clone(),
            security_review_status: values[12].clone(),
            architecture_summary_url: values[13].clone(),
            incident_path: values[14].clone(),
            slo_or_service_target: values[15].clone(),
            rpo_rto: values[16].clone(),
            decommission_path: values[17].clone(),
            executive_accountable_owner: values[18].clone(),
            risk_acceptance_url: values[19].clone(),
            dr_exercise_evidence_url: values[20].clone(),
            audit_retention_requirement: values[21].clone(),
            recurring_review_date: values[22].clone(),
            maintainers: decode_list(values[23].as_str()),
            critical_dependencies: decode_list(values[24].as_str()),
            primary_data_flows: decode_list(values[25].as_str()),
        };
        assert(single_values(r) =~= texts(values@).take(23));
        r
    }
}

/// What `columns` writes, `from_row` reads back: a record that says the same.
/// `stored` is the row as written; its three list columns read back as the lists
/// they were made from.
pub proof fn law_evidence_round_trips(e: Evidence, stored: Seq<Seq<char>>, read: Evidence)
    requires
        stored == column_values(e),
        decoded(stored[23]) == texts(e.maintainers@),
        decoded(stored[24]) == texts(e.critical_dependencies@),
        decoded(stored[25]) == texts(e.primary_data_flows@),
        row_means(stored, read),
    ensures
        same_evidence(e, read),
{
    assert(stored.take(23) =~= single_values(e));
}

/// Evidence is valid exactly when its security review status, if there is one, and its
/// state loss posture, if there is one, are among the values that have a meaning.
pub proof fn law_which_evidence_is_valid(e: Evidence)
    ensures
        evidence_fault(e) is None <==> {
            let s = e.security_review_status@;
            let p = e.state_loss_posture@;
            &&& s.len() == 0 || s == "not-started"@ || s == "requested"@ || s == "in-review"@ || s
                == "approved"@ || s == "waived"@
            &&& p.len() == 0 || p == "stateless"@ || p == "recoverable"@ || p
                == "durable-critical"@
        },
{
    let a = security_review_statuses_spec();
    let b = state_loss_postures_spec();
    assert(a[0] == "not-started"@ && a[1] == "requested"@ && a[2] == "in-review"@ && a[3]
        == "approved"@ && a[4] == "waived"@);
    assert(b[0] == "stateless"@ && b[1] == "recoverable"@ && b[2] == "durable-critical"@);
    assert(a.contains(a[0]) && a.contains(a[1]) && a.contains(a[2]) && a.contains(a[3])
        && a.contains(a[4]));
    assert(b.contains(b[0]) && b.contains(b[1]) && b.contains(b[2]));
}

/// Each column holds the field of its own name, and each field is read from its own
/// column; the three lists are written as JSON.
pub proof fn law_columns_hold_their_fields(e: Evidence, values: Seq<Seq<char>>, f: Evidence)
    requires
        values.len() == 26,
        row_means(values, f),
    ensures
        column_names().len() == 26,
        column_values(e).len() == 26,
        column_names()[0] == "requested_classification"@ && column_values(e)[0] == e.requested_classification@,
        f.requested_classification@ == values[0],
        column_names()[1] == "repo_or_source_url"@ && column_values(e)[1] == e.repo_or_source_url@,
        f.repo_or_source_url@ == values[1],
        column_names()[2] == "business_owner"@ && column_values(e)[2] == e.business_owner@,
        f.business_owner@ == values[2],
        column_names()[3] == "technical_owner"@ && column_values(e)[3] == e.technical_owner@,
        f.technical_owner@ == values[3],
        column_names()[4] == "team_or_org_of_record"@ && column_values(e)[4] == e.team_or_org_of_record@,
        f.team_or_org_of_record@ == values[4],
        column_names()[5] == "support_contact"@ && column_values(e)[5] == e.support_contact@,
        f.support_contact@ == values[5],
        column_names()[6] == "runbook_url"@ && column_values(e)[6] == e.runbook_url@,
        f.runbook_url@ == values[6],
        column_names()[7] == "monitoring_or_logs_url"@ && column_values(e)[7] == e.monitoring_or_logs_url@,
        f.monitoring_or_logs_url@ == values[7],
        column_names()[8] == "ci_status_url"@ && column_values(e)[8] == e.ci_status_url@,
        f.ci_status_url@ == values[8],
        column_names()[9] == "critical_flow_test_or_eval_url"@ && column_values(e)[9] == e.critical_flow_test_or_eval_url@,
        f.critical_flow_test_or_eval_url@ == values[9],
        column_names()[10] == "state_loss_posture"@ && column_values(e)[10] == e.state_loss_posture@,
        f.state_loss_posture@ == values[10],
        column_names()[11] == "stack_exception"@ && column_values(e)[11] == e.stack_exception@,
        f.stack_exception@ == values[11],
        column_names()[12] == "security_review_status"@ && column_values(e)[12] == e.security_review_status@,
        f.security_review_status@ == values[12],
        column_names()[13] == "architecture_summary_url"@ && column_values(e)[13] == e.architecture_summary_url@,
        f.architecture_summary_url@ == values[13],
        column_names()[14] == "incident_path"@ && column_values(e)[14] == e.incident_path@,
        f.incident_path@ == values[14],
        column_names()[15] == "slo_or_service_target"@ && column_values(e)[15] == e.slo_or_service_target@,
        f.slo_or_service_target@ == values[15],
        column_names()[16] == "rpo_rto"@ && column_values(e)[16] == e.rpo_rto@,
        f.rpo_rto@ == values[16],
        column_names()[17] == "decommission_path"@ && column_values(e)[17] == e.decommission_path@,
        f.decommission_path@ == values[17],
        column_names()[18] == "executive_accountable_owner"@ && column_values(e)[18] == e.executive_accountable_owner@,
        f.executive_accountable_owner@ == values[18],
        column_names()[19] == "risk_acceptance_url"@ && column_values(e)[19] == e.risk_acceptance_url@,
        f.risk_acceptance_url@ == values[19],
        column_names()[20] == "dr_exercise_evidence_url"@ && column_values(e)[20] == e.dr_exercise_evidence_url@,
        f.dr_exercise_evidence_url@ == values[20],
        column_names()[21] == "audit_retention_requirement"@ && column_values(e)[21] == e.audit_retention_requirement@,
        f.audit_retention_requirement@ == values[21],
        column_names()[22] == "recurring_review_date"@ && column_values(e)[22] == e.recurring_review_date@,
        f.recurring_review_date@ == values[22],
        column_names()[23] == "maintainers"@ && column_values(e)[23] == encoded(texts(e.maintainers@)),
        texts(f.maintainers@) == decoded(values[23]),
        column_names()[24] == "critical_dependencies"@ && column_values(e)[24] == encoded(texts(e.critical_dependencies@)),
        texts(f.critical_dependencies@) == decoded(values[24]),
        column_names()[25] == "primary_data_flows"@ && column_values(e)[25] == encoded(texts(e.primary_data_flows@)),
        texts(f.primary_data_flows@) == decoded(values[25]),
{
    let s = single_values(f);
    let t = values.take(23);
    assert forall|i: int| 0 <= i < 23 implies s[i] == #[trigger] values[i] by {
        assert(t[i] == values[i]);
    }
}

/// A list is written as nothing where it is empty, else as a JSON list of its texts; and
/// what is no JSON list of texts is read as none.
pub proof fn law_how_lists_are_written(items: Seq<Seq<char>>, raw: Seq<char>)
    ensures
        items.len() == 0 ==> encoded(items).len() == 0,
        items.len() > 0 ==> encoded(items) == json_text(JsonView::Array(strings_view(items))),
        raw.len() == 0 || json_read(raw) is Err ==> decoded(raw).len() == 0,
        json_read(raw) matches Ok(v) && !(v is Array) ==> decoded(raw).len() == 0,
{
}

} // verus!
