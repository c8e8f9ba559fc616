//! Validation of Diagnostic Contexts, Assertions and evidence references.

use vstd::prelude::*;

use super::validation::{
    basis_error, byte_len, byte_len_exceeds, choice_error, id_error, list_error, or_else, revision_error,
    string_list_error, text_error, validate_basis, validate_choice, validate_id, validate_list, validate_revision,
    validate_string_list, validate_text, MAX_LIST_ITEMS,
};
use crate::model::diagnostic::{DiagnosticAssertion, DiagnosticContext, EvidenceReference, GraphBasis};
use crate::model::graph::GraphSnapshot;
use crate::model::{DIAGNOSTIC_ASSERTION_SCHEMA, DIAGNOSTIC_CONTEXT_SCHEMA};
use crate::text::{ascii_lower_seq, contains, contains_char, seq_contains, seq_starts_with, starts_with, str_eq, to_ascii_lowercase, views};

verus! {

broadcast use vstd::string::group_string_axioms;

/// The intents a Diagnostic Context may have.
pub open spec fn allowed_intents() -> Seq<Seq<char>> {
    seq!["diagnose"@, "audit"@, "verify-fix"@]
}

/// The statuses a Diagnostic Context may have.
pub open spec fn allowed_context_statuses() -> Seq<Seq<char>> {
    seq!["open"@, "reconciled"@, "resolved"@, "superseded"@]
}

/// The kinds a Diagnostic Assertion may have.
pub open spec fn allowed_assertion_kinds() -> Seq<Seq<char>> {
    seq!["observation"@, "hypothesis"@, "finding"@, "remediation"@, "verification"@]
}

/// The statuses a Diagnostic Assertion may have.
pub open spec fn allowed_assertion_statuses() -> Seq<Seq<char>> {
    seq!["proposed"@, "confirmed"@, "rejected"@, "superseded"@, "implemented"@, "verified"@]
}

/// The classes an evidence reference may have.
pub open spec fn allowed_evidence_classes() -> Seq<Seq<char>> {
    seq!["static"@, "observation"@, "hypothesis"@, "finding"@, "remediation"@, "verification"@]
}

/// Whether a focus Context Ref is not a bounded `fp://local` reference.
pub open spec fn bad_context_ref(r: Seq<char>) -> bool {
    !seq_starts_with(r, "fp://local/"@) || byte_len(r) > 512
}

/// Whether a focus Flow Ref is not a bounded `fp://local` flow reference.
pub open spec fn bad_flow_ref(r: Seq<char>) -> bool {
    !seq_starts_with(r, "fp://local/"@) || !seq_contains(r, "/flow/"@) || byte_len(r) > 768
}

/// The first error of a Diagnostic Context, if it has one.
pub open spec fn context_error(c: DiagnosticContext) -> Option<Seq<char>> {
    if c.schema_version@ != DIAGNOSTIC_CONTEXT_SCHEMA@ {
        Some("Diagnostic Context schema must be "@ + DIAGNOSTIC_CONTEXT_SCHEMA@ + "."@)
    } else {
        or_else(id_error("Diagnostic Context id"@, c.id@),
        or_else(id_error("Diagnostic Context project id"@, c.project_id@),
        or_else(choice_error("intent"@, c.intent@, allowed_intents()),
        or_else(choice_error("status"@, c.status@, allowed_context_statuses()),
        or_else(text_error("symptom"@, c.symptom@),
        or_else(text_error("expectedBehavior"@, c.expected_behavior@),
        or_else(text_error("actor"@, c.actor@),
        or_else(list_error("focusContextRefs"@, c.focus_context_refs@.len(), MAX_LIST_ITEMS as nat),
        or_else(if exists|i: int| 0 <= i < c.focus_context_refs@.len() && bad_context_ref(#[trigger] c.focus_context_refs@[i]@) {
            Some("focusContextRefs must contain bounded fp://local Context Refs."@)
        } else {
            None
        },
        or_else(list_error("focusFlowRefs"@, c.focus_flow_refs@.len(), MAX_LIST_ITEMS as nat),
        or_else(if exists|i: int| 0 <= i < c.focus_flow_refs@.len() && bad_flow_ref(#[trigger] c.focus_flow_refs@[i]@) {
            Some("focusFlowRefs must contain bounded fp://local Flow Refs."@)
        } else {
            None
        },
        or_else(basis_error(c.current_graph_basis),
        or_else(match c.last_known_good_basis {
            Some(b) => revision_error(b.revision@),
            None => None,
        },
        or_else(string_list_error("constraints"@, views(c.constraints@)),
        or_else(string_list_error("acceptanceCriteria"@, views(c.acceptance_criteria@)),
        or_else(string_list_error("unresolvedQuestions"@, views(c.unresolved_questions@)),
        match c.supersedes {
            Some(s) => or_else(id_error("supersedes"@, s@), if s@ == c.id@ {
                Some("A Diagnostic Context cannot supersede itself."@)
            } else {
                None
            }),
            None => None,
        }))))))))))))))))
    }
}

fn any_bad_ref(refs: &Vec<String>, flow: bool) -> (r: bool)
    ensures
        r == exists|i: int| 0 <= i < refs@.len() && (if flow {
            bad_flow_ref(#[trigger] refs@[i]@)
        } else {
            bad_context_ref(refs@[i]@)
        }),
{
    let mut i: usize = 0;
    while i < refs.len()
        invariant
            i <= refs@.len(),
            forall|k: int| 0 <= k < i ==> !(if flow {
                bad_flow_ref(#[trigger] refs@[k]@)
            } else {
                bad_context_ref(refs@[k]@)
            }),
        decreases refs@.len() - i,
    {
        let r = refs[i].as_str();
        let bad = if flow {
            !starts_with(r, "fp://local/") || !contains(r, "/flow/") || byte_len_exceeds(r, 768)
        } else {
            !starts_with(r, "fp://local/") || byte_len_exceeds(r, 512)
        };
        if bad {
            return true;
        }
        i = i + 1;
    }
    false
}

fn choices(items: &[&'static str]) -> (r: Vec<&'static str>)
    ensures
        r@ == items@,
{
    let mut v: Vec<&'static str> = Vec::new();
    let mut i: usize = 0;
    while i < items.len()
        invariant
            i <= items@.len(),
            v@ == items@.take(i as int),
        decreases items@.len() - i,
    {
        v.push(items[i]);
        assert(items@.take(i as int + 1) =~= items@.take(i as int).push(items@[i as int]));
        i = i + 1;
    }
    assert(items@.take(items@.len() as int) =~= items@);
    v
}

/// Checks a Diagnostic Context: its schema, ids, intent and status, its texts, its
/// bounded focus refs, its graph basis and last-known-good revision, its lists, and what
/// it supersedes.
#[verifier::rlimit(40)]
pub fn validate_context(context: &DiagnosticContext) -> (r: Result<(), String>)
    ensures
        match context_error(*context) {
            Some(e) => (r matches Err(x) && x@ == e),
            None => r is Ok,
        },
{
    if !str_eq(context.schema_version.as_str(), DIAGNOSTIC_CONTEXT_SCHEMA) {
        let mut e = "Diagnostic Context schema must be ".to_string();
        e.append(DIAGNOSTIC_CONTEXT_SCHEMA);
        e.append(".");
        return Err(e);
    }
    match validate_id("Diagnostic Context id", context.id.as_str()) { Ok(()) => {}, Err(e) => return Err(e) }
    match validate_id("Diagnostic Context project id", context.project_id.as_str()) { Ok(()) => {}, Err(e) => return Err(e) }
    let intents: [&'static str; 3] = ["diagnose", "audit", "verify-fix"];
    let intents = choices(&intents);
    assert(intents@.map_values(|a: &str| a@) =~= allowed_intents());
    match validate_choice("intent", context.intent.as_str(), intents.as_slice()) { Ok(()) => {}, Err(e) => return Err(e) }
    let statuses: [&'static str; 4] = ["open", "reconciled", "resolved", "superseded"];
    let statuses = choices(&statuses);
    assert(statuses@.map_values(|a: &str| a@) =~= allowed_context_statuses());
    match validate_choice("status", context.status.as_str(), statuses.as_slice()) { Ok(()) => {}, Err(e) => return Err(e) }
    match validate_text("symptom", context.symptom.as_str()) { Ok(()) => {}, Err(e) => return Err(e) }
    match validate_text("expectedBehavior", context.expected_behavior.as_str()) { Ok(()) => {}, Err(e) => return Err(e) }
    match validate_text("actor", context.actor.as_str()) { Ok(()) => {}, Err(e) => return Err(e) }
    match validate_list("focusContextRefs", context.focus_context_refs.as_slice(), MAX_LIST_ITEMS) { Ok(()) => {}, Err(e) => return Err(e) }
    if any_bad_ref(&context.focus_context_refs, false) {
        return Err("focusContextRefs must contain bounded fp://local Context Refs.".to_string());
    }
    match validate_list("focusFlowRefs", context.focus_flow_refs.as_slice(), MAX_LIST_ITEMS) { Ok(()) => {}, Err(e) => return Err(e) }
    if any_bad_ref(&context.focus_flow_refs, true) {
        return Err("focusFlowRefs must contain bounded fp://local Flow Refs.".to_string());
    }
    match validate_basis(&context.current_graph_basis) { Ok(()) => {}, Err(e) => return Err(e) }
    if let Some(last_known_good) = &context.last_known_good_basis {
        match validate_revision(last_known_good.revision.as_str()) { Ok(()) => {}, Err(e) => return Err(e) }
    }
    match validate_string_list("constraints", &context.constraints) { Ok(()) => {}, Err(e) => return Err(e) }
    match validate_string_list("acceptanceCriteria", &context.acceptance_criteria) { Ok(()) => {}, Err(e) => return Err(e) }
    match validate_string_list("unresolvedQuestions", &context.unresolved_questions) { Ok(()) => {}, Err(e) => return Err(e) }
    if let Some(supersedes) = &context.supersedes {
        match validate_id("supersedes", supersedes.as_str()) { Ok(()) => {}, Err(e) => return Err(e) }
        if str_eq(supersedes.as_str(), context.id.as_str()) {
            return Err("A Diagnostic Context cannot supersede itself.".to_string());
        }
    }
    Ok(())
}

/// The markers of credential material in an evidence reference.
pub open spec fn credential_markers() -> Seq<Seq<char>> {
    seq!["password="@, "token="@, "secret="@, "private_key"@, "authorization:"@]
}

/// The first error of an evidence reference, if it has one.
pub open spec fn evidence_error(e: EvidenceReference) -> Option<Seq<char>> {
    or_else(choice_error("evidenceClass"@, e.evidence_class@, allowed_evidence_classes()),
    or_else(text_error("evidence kind"@, e.kind@),
    if e.reference@.len() == 0 || byte_len(e.reference@) > 1024 || e.reference@.contains('\r') || e.reference@.contains('\n')
        || e.reference@.contains('\0') {
        Some("evidence reference must be bounded and single-line."@)
    } else if exists|i: int| 0 <= i < 5 && seq_contains(ascii_lower_seq(e.reference@), #[trigger] credential_markers()[i]) {
        Some("evidence reference cannot contain credential material."@)
    } else {
        None
    }))
}

/// Checks an evidence reference: its class, its kind, a bounded single-line reference
/// and the absence of credential material.
#[verifier::loop_isolation(false)]
pub fn validate_evidence(evidence: &EvidenceReference) -> (r: Result<(), String>)
    ensures
        match evidence_error(*evidence) {
            Some(e) => (r matches Err(x) && x@ == e),
            None => r is Ok,
        },
{
    let classes: [&'static str; 6] = ["static", "observation", "hypothesis", "finding", "remediation", "verification"];
    let classes = choices(&classes);
    assert(classes@.map_values(|a: &str| a@) =~= allowed_evidence_classes());
    match validate_choice("evidenceClass", evidence.evidence_class.as_str(), classes.as_slice()) { Ok(()) => {}, Err(e) => return Err(e) }
    match validate_text("evidence kind", evidence.kind.as_str()) { Ok(()) => {}, Err(e) => return Err(e) }
    let reference = evidence.reference.as_str();
    if reference.is_empty() || byte_len_exceeds(reference, 1024) || contains_char(reference, '\r') || contains_char(reference, '\n')
        || contains_char(reference, '\0') {
        return Err("evidence reference must be bounded and single-line.".to_string());
    }
    let lower = to_ascii_lowercase(reference);
    let markers: [&'static str; 5] = ["password=", "token=", "secret=", "private_key", "authorization:"];
    let markers = choices(&markers);
    assert(markers@.map_values(|a: &str| a@) =~= credential_markers());
    let mut i: usize = 0;
    while i < markers.len()
        invariant
            i <= markers@.len(),
            markers@.len() == 5,
            markers@.map_values(|a: &str| a@) == credential_markers(),
            lower@ == ascii_lower_seq(evidence.reference@),
            forall|k: int| 0 <= k < i ==> !seq_contains(lower@, #[trigger] credential_markers()[k]),
        decreases markers@.len() - i,
    {
        assert(markers@[i as int]@ == credential_markers()[i as int]);
        if contains(lower.as_str(), markers[i]) {
            return Err("evidence reference cannot contain credential material.".to_string());
        }
        i = i + 1;
    }
    Ok(())
}

/// The error of the first evidence reference that has one.
pub open spec fn first_evidence_error(es: Seq<EvidenceReference>) -> Option<Seq<char>>
    decreases es.len(),
{
    if es.len() == 0 {
        None
    } else {
        or_else(evidence_error(es[0]), first_evidence_error(es.drop_first()))
    }
}

/// The first error of a Diagnostic Assertion, if it has one.
pub open spec fn assertion_error(a: DiagnosticAssertion) -> Option<Seq<char>> {
    if a.schema_version@ != DIAGNOSTIC_ASSERTION_SCHEMA@ {
        Some("Diagnostic Assertion schema must be "@ + DIAGNOSTIC_ASSERTION_SCHEMA@ + "."@)
    } else {
        or_else(id_error("Diagnostic Assertion id"@, a.id@),
        or_else(id_error("contextId"@, a.context_id@),
        or_else(choice_error("kind"@, a.kind@, allowed_assertion_kinds()),
        or_else(choice_error("status"@, a.status@, allowed_assertion_statuses()),
        or_else(text_error("actor"@, a.actor@),
        or_else(text_error("statement"@, a.statement@),
        or_else(list_error("evidence"@, a.evidence@.len(), MAX_LIST_ITEMS as nat),
        or_else(first_evidence_error(a.evidence@),
        or_else(if a.status@ == "superseded"@ && a.supersedes is None {
            Some("A superseded assertion must declare supersedes."@)
        } else {
            None
        },
        match a.supersedes {
            Some(s) => or_else(id_error("supersedes"@, s@), if s@ == a.id@ {
                Some("A Diagnostic Assertion cannot supersede itself."@)
            } else {
                None
            }),
            None => None,
        })))))))))
    }
}

/// Checks a Diagnostic Assertion: its schema, ids, kind and status, its texts, its
/// bounded and valid evidence, and what it supersedes.
#[verifier::rlimit(40)]
#[verifier::loop_isolation(false)]
pub fn validate_assertion(assertion: &DiagnosticAssertion) -> (r: Result<(), String>)
    ensures
        match assertion_error(*assertion) {
            Some(e) => (r matches Err(x) && x@ == e),
            None => r is Ok,
        },
{
    if !str_eq(assertion.schema_version.as_str(), DIAGNOSTIC_ASSERTION_SCHEMA) {
        let mut e = "Diagnostic Assertion schema must be ".to_string();
        e.append(DIAGNOSTIC_ASSERTION_SCHEMA);
        e.append(".");
        return Err(e);
    }
    match validate_id("Diagnostic Assertion id", assertion.id.as_str()) { Ok(()) => {}, Err(e) => return Err(e) }
    match validate_id("contextId", assertion.context_id.as_str()) { Ok(()) => {}, Err(e) => return Err(e) }
    let kinds: [&'static str; 5] = ["observation", "hypothesis", "finding", "remediation", "verification"];
    let kinds = choices(&kinds);
    assert(kinds@.map_values(|a: &str| a@) =~= allowed_assertion_kinds());
    match validate_choice("kind", assertion.kind.as_str(), kinds.as_slice()) { Ok(()) => {}, Err(e) => return Err(e) }
    let statuses: [&'static str; 6] = ["proposed", "confirmed", "rejected", "superseded", "implemented", "verified"];
    let statuses = choices(&statuses);
    assert(statuses@.map_values(|a: &str| a@) =~= allowed_assertion_statuses());
    match validate_choice("status", assertion.status.as_str(), statuses.as_slice()) { Ok(()) => {}, Err(e) => return Err(e) }
    match validate_text("actor", assertion.actor.as_str()) { Ok(()) => {}, Err(e) => return Err(e) }
    match validate_text("statement", assertion.statement.as_str()) { Ok(()) => {}, Err(e) => return Err(e) }
    match validate_list("evidence", assertion.evidence.as_slice(), MAX_LIST_ITEMS) { Ok(()) => {}, Err(e) => return Err(e) }
    let mut i: usize = 0;
    let ghost es = assertion.evidence@;
    assert(es.skip(0) =~= es);
    while i < assertion.evidence.len()
        invariant
            i <= es.len(),
            es == assertion.evidence@,
            first_evidence_error(es) == first_evidence_error(es.skip(i as int)),
        decreases es.len() - i,
    {
        assert(es.skip(i as int)[0] == es[i as int]);
        assert(es.skip(i as int).drop_first() =~= es.skip(i as int + 1));
        match validate_evidence(&assertion.evidence[i]) { Ok(()) => {}, Err(e) => return Err(e) }
        i = i + 1;
    }
    if str_eq(assertion.status.as_str(), "superseded") && assertion.supersedes.is_none() {
        return Err("A superseded assertion must declare supersedes.".to_string());
    }
    if let Some(supersedes) = &assertion.supersedes {
        match validate_id("supersedes", supersedes.as_str()) { Ok(()) => {}, Err(e) => return Err(e) }
        if str_eq(supersedes.as_str(), assertion.id.as_str()) {
            return Err("A Diagnostic Assertion cannot supersede itself.".to_string());
        }
    }
    Ok(())
}

/// The graph basis of a snapshot: its project, graph, version, revision and observation.
pub fn graph_basis(graph_snapshot: &GraphSnapshot) -> (r: GraphBasis)
    ensures
        r.project_id == graph_snapshot.project_id,
        r.graph_id == graph_snapshot.graph_id,
        r.graph_version == graph_snapshot.graph_version,
        r.source_revision == graph_snapshot.source_revision,
        r.observation_id == graph_snapshot.observation_id,
{
    GraphBasis {
        project_id: graph_snapshot.project_id.clone(),
        graph_id: graph_snapshot.graph_id.clone(),
        graph_version: graph_snapshot.graph_version,
        source_revision: graph_snapshot.source_revision.clone(),
        observation_id: graph_snapshot.observation_id.clone(),
    }
}

} // verus!
