//! Last-known-good protocol records and the pure reducer of their event streams.
//!
//! A candidate is immutable; events are append-only and linked to their predecessor;
//! the lifecycle state is a function of the linked event chain alone.

use vstd::prelude::*;

use super::diagnostic::{DiagnosticContext, EvidenceReference, GraphBasis};
use crate::flow::package_json::JsonTree;
use super::temporal_delta::EvidenceContract;
use crate::hashing::{sha256_hex, sha256_hex_of};
use crate::text::{opt_str_eq, str_eq};

verus! {

pub const LKG_CANDIDATE_SCHEMA: &'static str = "flopeek-last-known-good-candidate/v1";
pub const LKG_EVENT_SCHEMA: &'static str = "flopeek-last-known-good-event/v1";
pub const LKG_STATE_SCHEMA: &'static str = "flopeek-last-known-good-state/v1";
pub const LKG_REVIEW_PACKET_SCHEMA: &'static str = "flopeek-last-known-good-review-packet/v1";
pub const LKG_PROTOCOL_SCHEMA: &'static str = "flopeek-lkg-protocol/v1";
/// The text an expected-behavior fingerprint is hashed from.
pub open spec fn expected_behavior_input(expected_behavior: Seq<char>) -> Seq<char> {
    "flopeek-lkg-expected-behavior/v1\0"@ + expected_behavior
}

/// The fingerprint of a context's expected behavior: the SHA-256 of its text under a
/// versioned label.
pub fn expected_behavior_fingerprint(expected_behavior: &str) -> (r: String)
    ensures
        r@ == "sha256:"@ + sha256_hex(vstd::utf8::encode_utf8(expected_behavior_input(expected_behavior@))),
{
    let mut input = "flopeek-lkg-expected-behavior/v1\0".to_string();
    input.append(expected_behavior);
    let digest = sha256_hex_of(input.as_str().as_bytes());
    let mut r = "sha256:".to_string();
    r.append(digest.as_str());
    r
}

pub const LKG_INTEGRITY_COMPLETE: &'static str = "complete";
pub const LKG_INTEGRITY_PARTIAL: &'static str = "partial";
pub const LKG_INTEGRITY_INVALID: &'static str = "invalid";

/// Which parts of a candidate's basis could be checked.
#[derive(Debug, Clone, PartialEq, Eq, Default)]
pub struct LastKnownGoodIntegrity {
    pub status: String,
    pub revision_available: bool,
    pub observation_available: bool,
    pub graph_basis_available: bool,
    pub evidence_contract_compatible: bool,
    pub limitations: Vec<String>,
}

/// An immutable proposal that a revision behaved as expected.
#[derive(Debug, Clone, PartialEq, Eq)]
pub struct LastKnownGoodCandidate {
    pub schema_version: String,
    pub candidate_id: String,
    pub repository_id: String,
    pub project_id: String,
    pub context_id: String,
    pub context_revision: u64,
    pub expected_behavior_fingerprint: String,
    pub git_revision: String,
    pub observation_id: Option<String>,
    pub graph_basis: Option<GraphBasis>,
    pub evidence_contract: Option<EvidenceContract>,
    pub proposed_by: String,
    pub proposed_at: u64,
    pub evidence: Vec<EvidenceReference>,
    pub reason: String,
    pub integrity: LastKnownGoodIntegrity,
}

/// One append-only lifecycle event of a candidate.
#[derive(Debug, PartialEq, Eq)]
pub struct LastKnownGoodEvent {
    pub schema_version: String,
    pub event_id: String,
    pub repository_id: String,
    pub project_id: String,
    pub context_id: String,
    pub event_type: String,
    pub candidate_id: String,
    pub replaces_candidate_id: Option<String>,
    pub predecessor_event_id: Option<String>,
    pub actor: String,
    pub actor_kind: String,
    pub actor_trust: String,
    pub reason: String,
    pub evidence: Vec<EvidenceReference>,
    pub created_at: u64,
    pub idempotency_key: String,
}

/// Whether two events carry the same fields.
pub open spec fn same_event(a: LastKnownGoodEvent, b: LastKnownGoodEvent) -> bool {
    &&& a.schema_version == b.schema_version
    &&& a.event_id == b.event_id
    &&& a.repository_id == b.repository_id
    &&& a.project_id == b.project_id
    &&& a.context_id == b.context_id
    &&& a.event_type == b.event_type
    &&& a.candidate_id == b.candidate_id
    &&& a.replaces_candidate_id == b.replaces_candidate_id
    &&& a.predecessor_event_id == b.predecessor_event_id
    &&& a.actor == b.actor
    &&& a.actor_kind == b.actor_kind
    &&& a.actor_trust == b.actor_trust
    &&& a.reason == b.reason
    &&& a.evidence@ == b.evidence@
    &&& a.created_at == b.created_at
    &&& a.idempotency_key == b.idempotency_key
}

impl Clone for LastKnownGoodEvent {
    fn clone(&self) -> (r: Self)
        ensures
            same_event(r, *self),
    {
        let evidence = self.evidence.clone();
        proof {
            assert(evidence@ =~= self.evidence@);
        }
        LastKnownGoodEvent {
            schema_version: self.schema_version.clone(),
            event_id: self.event_id.clone(),
            repository_id: self.repository_id.clone(),
            project_id: self.project_id.clone(),
            context_id: self.context_id.clone(),
            event_type: self.event_type.clone(),
            candidate_id: self.candidate_id.clone(),
            replaces_candidate_id: self.replaces_candidate_id.clone(),
            predecessor_event_id: self.predecessor_event_id.clone(),
            actor: self.actor.clone(),
            actor_kind: self.actor_kind.clone(),
            actor_trust: self.actor_trust.clone(),
            reason: self.reason.clone(),
            evidence,
            created_at: self.created_at,
            idempotency_key: self.idempotency_key.clone(),
        }
    }
}

/// The reduced lifecycle state of one context.
#[derive(Debug, Clone, PartialEq, Eq, Default)]
pub struct LastKnownGoodState {
    pub schema_version: String,
    pub context_id: String,
    pub tip_event_id: Option<String>,
    pub active_candidate_id: Option<String>,
    pub pending_candidate_id: Option<String>,
    pub lifecycle_status: String,
    pub applicability_status: String,
    pub limitations: Vec<String>,
}

/// Whether the active candidate applies to the current observation.
#[derive(Debug, Clone, PartialEq, Eq, Default)]
pub struct LastKnownGoodApplicability {
    pub status: String,
    pub limitations: Vec<String>,
}

/// What a person deciding on a candidate is shown before confirming it: the context, the
/// candidate, the reduced state, whether it applies, the structural delta where one was
/// computed, and whether it may be confirmed.
#[derive(Debug)]
pub struct LastKnownGoodReviewPacket {
    pub schema_version: String,
    pub context_id: String,
    pub context: DiagnosticContext,
    pub candidate: LastKnownGoodCandidate,
    pub state: LastKnownGoodState,
    pub applicability: LastKnownGoodApplicability,
    pub structural_delta: Option<JsonTree>,
    pub confirmable: bool,
    pub limitations: Vec<String>,
}

/// A request to propose a revision as last known good.
#[derive(Debug, Clone, PartialEq, Eq)]
pub struct LastKnownGoodProposalRequest {
    pub context_id: String,
    pub git_revision: String,
    pub actor: String,
    pub reason: String,
    pub evidence: Vec<EvidenceReference>,
    pub expected_tip_event_id: Option<String>,
    pub idempotency_key: String,
    pub max_paths: Option<usize>,
    pub max_snapshot_bytes: Option<usize>,
}

/// A request to confirm, reject or revoke a candidate.
#[derive(Debug, Clone, PartialEq, Eq)]
pub struct LastKnownGoodTransitionRequest {
    pub context_id: String,
    pub actor: String,
    pub reason: String,
    pub evidence: Vec<EvidenceReference>,
    pub expected_tip_event_id: Option<String>,
    pub idempotency_key: String,
    pub candidate_id: Option<String>,
}

/// An event stream in chain order together with the state it reduces to.
#[derive(Debug, Clone, PartialEq, Eq)]
pub struct ReducedLkg {
    pub events: Vec<LastKnownGoodEvent>,
    pub state: LastKnownGoodState,
}

// ---------------------------------------------------------------------------
// Specification of the reducer.
// ---------------------------------------------------------------------------

/// The first fault among the first `n` items, in item order.
pub open spec fn first_fault(faults: spec_fn(int) -> Option<Seq<char>>, n: int) -> Option<Seq<char>>
    decreases n,
{
    if n <= 0 {
        None
    } else {
        match first_fault(faults, n - 1) {
            Some(m) => Some(m),
            None => faults(n - 1),
        }
    }
}

/// Why candidate `i` is refused, the candidates before it having been accepted.
pub open spec fn candidate_fault(
    context_id: Seq<char>,
    candidates: Seq<LastKnownGoodCandidate>,
    i: int,
) -> Option<Seq<char>> {
    let c = candidates[i];
    if c.context_id@ != context_id || exists|j: int|
        0 <= j < i && #[trigger] candidates[j].candidate_id@ == c.candidate_id@ {
        Some("lkg-candidate-context-or-identity-corrupt"@)
    } else if c.schema_version@ != LKG_CANDIDATE_SCHEMA@ || c.repository_id@.len() == 0
        || c.project_id@.len() == 0 || c.git_revision@.len() == 0 {
        Some("lkg-candidate-contract-invalid"@)
    } else if c.repository_id@ != candidates[0].repository_id@ || c.project_id@
        != candidates[0].project_id@ {
        Some("lkg-candidate-provenance-inconsistent"@)
    } else {
        None
    }
}

pub open spec fn candidate_faults(
    context_id: Seq<char>,
    candidates: Seq<LastKnownGoodCandidate>,
) -> spec_fn(int) -> Option<Seq<char>> {
    |i: int| candidate_fault(context_id, candidates, i)
}

/// Whether some candidate carries the identifier `id`.
pub open spec fn has_candidate(candidates: Seq<LastKnownGoodCandidate>, id: Seq<char>) -> bool {
    exists|k: int| 0 <= k < candidates.len() && #[trigger] candidates[k].candidate_id@ == id
}

pub open spec fn is_supported_event_type(t: Seq<char>) -> bool {
    t == "PROPOSE"@ || t == "CONFIRM"@ || t == "REJECT"@ || t == "REVOKE"@
}

/// Why event `i` is refused, the events before it having been accepted.
pub open spec fn event_fault(
    context_id: Seq<char>,
    candidates: Seq<LastKnownGoodCandidate>,
    events: Seq<LastKnownGoodEvent>,
    i: int,
) -> Option<Seq<char>> {
    let e = events[i];
    if e.context_id@ != context_id || e.schema_version@ != LKG_EVENT_SCHEMA@ || e.event_id@.len()
        == 0 || e.repository_id@.len() == 0 || e.project_id@.len() == 0 || (exists|j: int|
        0 <= j < i && #[trigger] events[j].event_id@ == e.event_id@) || !has_candidate(
        candidates,
        e.candidate_id@,
    ) {
        Some("lkg-event-context-or-identity-corrupt"@)
    } else if exists|k: int|
        0 <= k < candidates.len() && #[trigger] candidates[k].candidate_id@ == e.candidate_id@ && (
        candidates[k].repository_id@ != e.repository_id@ || candidates[k].project_id@
            != e.project_id@) {
        Some("lkg-event-candidate-provenance-mismatch"@)
    } else if !is_supported_event_type(e.event_type@) {
        Some("lkg-event-type-unsupported"@)
    } else if e.event_type@ != "CONFIRM"@ && e.replaces_candidate_id is Some {
        Some("lkg-event-replacement-on-non-confirm-invalid"@)
    } else {
        None
    }
}

pub open spec fn event_faults(
    context_id: Seq<char>,
    candidates: Seq<LastKnownGoodCandidate>,
    events: Seq<LastKnownGoodEvent>,
) -> spec_fn(int) -> Option<Seq<char>> {
    |i: int| event_fault(context_id, candidates, events, i)
}


/// Whether an event names `id` as its predecessor.
pub open spec fn follows(e: LastKnownGoodEvent, id: Seq<char>) -> bool {
    e.predecessor_event_id matches Some(p) && p@ == id
}

/// Whether some event carries the identifier `id`.
pub open spec fn has_event(events: Seq<LastKnownGoodEvent>, id: Seq<char>) -> bool {
    exists|j: int| 0 <= j < events.len() && #[trigger] events[j].event_id@ == id
}

/// The number of events among the first `n` that have no predecessor.
pub open spec fn root_count(events: Seq<LastKnownGoodEvent>, n: int) -> nat
    decreases n,
{
    if n <= 0 {
        0
    } else {
        root_count(events, n - 1) + if events[n - 1].predecessor_event_id is None {
            1nat
        } else {
            0nat
        }
    }
}

/// Whether event `i` names itself, an unknown event, or an already-followed event as predecessor.
pub open spec fn predecessor_fault(events: Seq<LastKnownGoodEvent>, i: int) -> bool {
    match events[i].predecessor_event_id {
        Some(p) => p@ == events[i].event_id@ || !has_event(events, p@) || exists|j: int|
            0 <= j < i && #[trigger] follows(events[j], p@),
        None => false,
    }
}

/// `order` lists the indices of all events so that each event follows the one before it.
pub open spec fn is_chain_order(order: Seq<int>, events: Seq<LastKnownGoodEvent>) -> bool {
    &&& order.len() == events.len()
    &&& forall|k: int| 0 <= k < order.len() ==> 0 <= #[trigger] order[k] < events.len()
    &&& order.len() > 0 ==> events[order[0]].predecessor_event_id is None
    &&& forall|k: int|
        0 <= k < order.len() - 1 ==> follows(
            #[trigger] events[order[k + 1]],
            events[order[k]].event_id@,
        )
}

/// The error that the structure of the candidates and events alone leads to, if any.
pub open spec fn structural_error(
    context_id: Seq<char>,
    candidates: Seq<LastKnownGoodCandidate>,
    events: Seq<LastKnownGoodEvent>,
) -> Option<Seq<char>> {
    match first_fault(candidate_faults(context_id, candidates), candidates.len() as int) {
        Some(m) => Some(m),
        None => match first_fault(
            event_faults(context_id, candidates, events),
            events.len() as int,
        ) {
            Some(m) => Some(m),
            None => if events.len() == 0 {
                None
            } else if root_count(events, events.len() as int) != 1 {
                Some("lkg-event-chain-root-invalid"@)
            } else if exists|i: int| 0 <= i < events.len() && #[trigger] predecessor_fault(events, i) {
                Some("lkg-event-chain-predecessor-invalid"@)
            } else if !exists|order: Seq<int>| #[trigger] is_chain_order(order, events) {
                Some("lkg-event-chain-disconnected"@)
            } else {
                None
            },
        },
    }
}

/// The chain order of a structurally valid event stream.
pub open spec fn chain_order(events: Seq<LastKnownGoodEvent>) -> Seq<int> {
    choose|order: Seq<int>| is_chain_order(order, events)
}

/// The active candidate, the pending candidate and every candidate an event has named.
pub type LkgPhase = (Option<Seq<char>>, Option<Seq<char>>, Set<Seq<char>>);

/// The effect of one event on the lifecycle.
pub open spec fn lkg_step(st: LkgPhase, e: LastKnownGoodEvent) -> Result<LkgPhase, Seq<char>> {
    let active = st.0;
    let pending = st.1;
    let seen = st.2;
    let c = e.candidate_id@;
    if e.event_type@ == "PROPOSE"@ {
        if seen.contains(c) {
            Err("lkg-candidate-proposed-more-than-once"@)
        } else if pending is Some {
            Err("lkg-multiple-pending-candidates"@)
        } else {
            Ok((active, Some(c), seen.insert(c)))
        }
    } else if e.event_type@ == "CONFIRM"@ {
        if pending != Some(c) {
            Err("lkg-confirm-target-not-pending"@)
        } else {
            match active {
                Some(a) => if !(e.replaces_candidate_id matches Some(x) && x@ == a) {
                    Err("lkg-confirm-replacement-target-invalid"@)
                } else {
                    Ok((Some(c), None, seen.insert(c)))
                },
                None => if e.replaces_candidate_id is Some {
                    Err("lkg-confirm-replacement-without-active"@)
                } else {
                    Ok((Some(c), None, seen.insert(c)))
                },
            }
        }
    } else if e.event_type@ == "REJECT"@ {
        if pending != Some(c) {
            Err("lkg-reject-target-not-pending"@)
        } else {
            Ok((active, None, seen.insert(c)))
        }
    } else {
        if active != Some(c) {
            Err("lkg-revoke-target-not-active"@)
        } else {
            Ok((None, pending, seen.insert(c)))
        }
    }
}

/// The lifecycle after the first `n` events of `order`.
pub open spec fn lkg_fold(events: Seq<LastKnownGoodEvent>, order: Seq<int>, n: int) -> Result<
    LkgPhase,
    Seq<char>,
>
    decreases n,
{
    if n <= 0 {
        Ok((None, None, Set::empty()))
    } else {
        match lkg_fold(events, order, n - 1) {
            Err(m) => Err(m),
            Ok(st) => lkg_step(st, events[order[n - 1]]),
        }
    }
}

/// The lifecycle status named by the active and pending candidates.
pub open spec fn lifecycle_of(active: Option<Seq<char>>, pending: Option<Seq<char>>) -> Seq<char> {
    if active is Some {
        "active"@
    } else if pending is Some {
        "pending"@
    } else {
        "inactive"@
    }
}

pub open spec fn opt_view(o: Option<String>) -> Option<Seq<char>> {
    match o {
        Some(s) => Some(s@),
        None => None,
    }
}

/// `state` is the reduced state of context `context_id` for phase `st` and tip `tip`.
pub open spec fn state_matches(
    state: LastKnownGoodState,
    context_id: Seq<char>,
    st: LkgPhase,
    tip: Option<Seq<char>>,
) -> bool {
    &&& state.schema_version@ == LKG_STATE_SCHEMA@
    &&& state.context_id@ == context_id
    &&& opt_view(state.tip_event_id) == tip
    &&& opt_view(state.active_candidate_id) == st.0
    &&& opt_view(state.pending_candidate_id) == st.1
    &&& state.lifecycle_status@ == (if tip is None { "none"@ } else { lifecycle_of(st.0, st.1) })
    &&& state.applicability_status@ == "unavailable"@
    &&& state.limitations@.len() == 0
}

/// What reducing the stream yields: the error, or the events in chain order and the state.
pub open spec fn reduction_matches(
    r: Result<ReducedLkg, String>,
    context_id: Seq<char>,
    candidates: Seq<LastKnownGoodCandidate>,
    events: Seq<LastKnownGoodEvent>,
) -> bool {
    match structural_error(context_id, candidates, events) {
        Some(m) => r matches Err(e) && e@ == m,
        None => if events.len() == 0 {
            r matches Ok(out) && out.events@.len() == 0 && state_matches(
                out.state,
                context_id,
                (None, None, Set::empty()),
                None,
            )
        } else {
            let order = chain_order(events);
            match lkg_fold(events, order, events.len() as int) {
                Err(m) => r matches Err(e) && e@ == m,
                Ok(st) => r matches Ok(out) && out.events@.len() == events.len() && (forall|k: int|
                    0 <= k < events.len() ==> same_event(
                        #[trigger] out.events@[k],
                        events[order[k]],
                    )) && state_matches(
                    out.state,
                    context_id,
                    st,
                    Some(events[order[events.len() - 1]].event_id@),
                ),
            }
        },
    }
}


// ---------------------------------------------------------------------------
// Lemmas about the specification.
// ---------------------------------------------------------------------------

proof fn lemma_first_fault_extends(faults: spec_fn(int) -> Option<Seq<char>>, i: int, n: int)
    requires
        0 <= i < n,
        first_fault(faults, i) is None,
        faults(i) is Some,
    ensures
        first_fault(faults, n) == faults(i),
    decreases n - i,
{
    if n > i + 1 {
        lemma_first_fault_extends(faults, i, n - 1);
    }
}

proof fn lemma_first_fault_none(faults: spec_fn(int) -> Option<Seq<char>>, n: int, i: int)
    requires
        0 <= i < n,
        first_fault(faults, n) is None,
    ensures
        faults(i) is None,
    decreases n - i,
{
    if n > i + 1 {
        lemma_first_fault_none(faults, n - 1, i);
    }
}

proof fn lemma_root_count_bounds(events: Seq<LastKnownGoodEvent>, n: int, i: int, j: int)
    requires
        0 <= i < n <= events.len(),
        0 <= j < n,
        events[i].predecessor_event_id is None,
        events[j].predecessor_event_id is None,
    ensures
        root_count(events, n) >= 1,
        i != j ==> root_count(events, n) >= 2,
    decreases n,
{
    if i < n - 1 && j < n - 1 {
        lemma_root_count_bounds(events, n - 1, i, j);
    } else if i < n - 1 {
        lemma_root_count_bounds(events, n - 1, i, i);
    } else if j < n - 1 {
        lemma_root_count_bounds(events, n - 1, j, j);
    }
}

pub open spec fn as_ints(v: Seq<usize>) -> Seq<int> {
    v.map_values(|x: usize| x as int)
}

/// Distinct indices below `n` number at most `n`, and exactly `n` of them cover every index.
proof fn lemma_distinct_indices(s: Seq<int>, n: int)
    requires
        n >= 0,
        s.no_duplicates(),
        forall|k: int| 0 <= k < s.len() ==> 0 <= #[trigger] s[k] < n,
    ensures
        s.len() <= n,
        s.len() == n ==> forall|i: int| 0 <= i < n ==> s.contains(i),
{
    vstd::set_lib::lemma_int_range(0, n);
    s.unique_seq_to_set();
    let range = vstd::set_lib::set_int_range(0, n);
    assert(s.to_set().subset_of(range)) by {
        assert forall|x: int| s.to_set().contains(x) implies range.contains(x) by {
            let k = choose|k: int| 0 <= k < s.len() && s[k] == x;
            assert(0 <= s[k] < n);
        }
    }
    vstd::set_lib::lemma_len_subset(s.to_set(), range);
    if s.len() == n {
        vstd::set_lib::lemma_subset_equality(s.to_set(), range);
        assert forall|i: int| 0 <= i < n implies s.contains(i) by {
            assert(range.contains(i));
            assert(s.to_set().contains(i));
        }
    }
}

/// Facts that hold of an event stream without candidate or event faults.
pub open spec fn well_identified(events: Seq<LastKnownGoodEvent>) -> bool {
    forall|i: int, j: int|
        0 <= i < events.len() && 0 <= j < events.len() && i != j ==> events[i].event_id@
            != events[j].event_id@
}

/// Facts that hold of an event stream that has exactly one root and no predecessor fault.
pub open spec fn well_linked(events: Seq<LastKnownGoodEvent>) -> bool {
    &&& forall|i: int, j: int|
        0 <= i < events.len() && 0 <= j < events.len() && events[i].predecessor_event_id is None
            && events[j].predecessor_event_id is None ==> i == j
    &&& forall|i: int, j: int, id: Seq<char>|
        0 <= i < events.len() && 0 <= j < events.len() && #[trigger] follows(events[i], id)
            && #[trigger] follows(events[j], id) ==> i == j
}

proof fn lemma_well_linked(events: Seq<LastKnownGoodEvent>)
    requires
        root_count(events, events.len() as int) == 1,
        forall|i: int| 0 <= i < events.len() ==> !#[trigger] predecessor_fault(events, i),
    ensures
        well_linked(events),
{
    assert forall|i: int, j: int|
        0 <= i < events.len() && 0 <= j < events.len() && events[i].predecessor_event_id is None
            && events[j].predecessor_event_id is None implies i == j by {
        lemma_root_count_bounds(events, events.len() as int, i, j);
    }
    assert forall|i: int, j: int, id: Seq<char>|
        0 <= i < events.len() && 0 <= j < events.len() && #[trigger] follows(events[i], id)
            && #[trigger] follows(events[j], id) implies i == j by {
        if i < j {
            assert(!predecessor_fault(events, j));
        } else if j < i {
            assert(!predecessor_fault(events, i));
        }
    }
}

/// In a well-linked stream, a chain order agrees with any linked walk from the root.
proof fn lemma_chain_prefix(events: Seq<LastKnownGoodEvent>, order: Seq<int>, walk: Seq<int>, k: int)
    requires
        well_linked(events),
        is_chain_order(order, events),
        walk.len() > 0,
        forall|m: int| 0 <= m < walk.len() ==> 0 <= #[trigger] walk[m] < events.len(),
        events[walk[0]].predecessor_event_id is None,
        forall|m: int|
            0 <= m < walk.len() - 1 ==> follows(
                #[trigger] events[walk[m + 1]],
                events[walk[m]].event_id@,
            ),
        0 <= k < walk.len(),
        k < order.len(),
    ensures
        order[k] == walk[k],
    decreases k,
{
    if k > 0 {
        lemma_chain_prefix(events, order, walk, k - 1);
        let m = k - 1;
        assert(follows(events[order[m + 1]], events[order[m]].event_id@));
        assert(follows(events[walk[m + 1]], events[walk[m]].event_id@));
    }
}


// ---------------------------------------------------------------------------
// The reducer.
// ---------------------------------------------------------------------------

fn find_candidate(candidates: &[LastKnownGoodCandidate], id: &str) -> (r: Option<usize>)
    ensures
        r matches Some(k) ==> k < candidates@.len() && candidates@[k as int].candidate_id@ == id@,
        r is None ==> !has_candidate(candidates@, id@),
{
    let mut k: usize = 0;
    while k < candidates.len()
        invariant
            k <= candidates@.len(),
            forall|m: int| 0 <= m < k ==> #[trigger] candidates@[m].candidate_id@ != id@,
        decreases candidates@.len() - k,
    {
        if str_eq(candidates[k].candidate_id.as_str(), id) {
            return Some(k);
        }
        k = k + 1;
    }
    None
}

fn candidate_check(context_id: &str, candidates: &[LastKnownGoodCandidate], i: usize) -> (r: Option<
    String,
>)
    requires
        i < candidates@.len(),
    ensures
        opt_view(r) == candidate_fault(context_id@, candidates@, i as int),
{
    let c = &candidates[i];
    let mut duplicate = false;
    let mut j: usize = 0;
    while j < i
        invariant
            i < candidates@.len(),
            j <= i,
            c == candidates@[i as int],
            duplicate == exists|m: int|
                0 <= m < j && #[trigger] candidates@[m].candidate_id@ == c.candidate_id@,
        decreases i - j,
    {
        if str_eq(candidates[j].candidate_id.as_str(), c.candidate_id.as_str()) {
            duplicate = true;
        }
        j = j + 1;
    }
    if !str_eq(c.context_id.as_str(), context_id) || duplicate {
        return Some("lkg-candidate-context-or-identity-corrupt".to_string());
    }
    if !str_eq(c.schema_version.as_str(), LKG_CANDIDATE_SCHEMA) || c.repository_id.as_str().is_empty()
        || c.project_id.as_str().is_empty() || c.git_revision.as_str().is_empty() {
        return Some("lkg-candidate-contract-invalid".to_string());
    }
    if !str_eq(c.repository_id.as_str(), candidates[0].repository_id.as_str()) || !str_eq(
        c.project_id.as_str(),
        candidates[0].project_id.as_str(),
    ) {
        return Some("lkg-candidate-provenance-inconsistent".to_string());
    }
    None
}

/// Candidate identifiers are unique once every candidate is accepted.
proof fn lemma_candidates_unique(
    context_id: Seq<char>,
    candidates: Seq<LastKnownGoodCandidate>,
    a: int,
    b: int,
)
    requires
        first_fault(candidate_faults(context_id, candidates), candidates.len() as int) is None,
        0 <= a < b < candidates.len(),
    ensures
        candidates[a].candidate_id@ != candidates[b].candidate_id@,
{
    lemma_first_fault_none(candidate_faults(context_id, candidates), candidates.len() as int, b);
    assert(candidate_fault(context_id, candidates, b) is None);
}

fn event_check(
    context_id: &str,
    candidates: &[LastKnownGoodCandidate],
    events: &[LastKnownGoodEvent],
    i: usize,
) -> (r: Option<String>)
    requires
        i < events@.len(),
        first_fault(candidate_faults(context_id@, candidates@), candidates@.len() as int) is None,
    ensures
        opt_view(r) == event_fault(context_id@, candidates@, events@, i as int),
{
    let e = &events[i];
    let mut duplicate = false;
    let mut j: usize = 0;
    while j < i
        invariant
            i < events@.len(),
            j <= i,
            e == events@[i as int],
            duplicate == exists|m: int| 0 <= m < j && #[trigger] events@[m].event_id@ == e.event_id@,
        decreases i - j,
    {
        if str_eq(events[j].event_id.as_str(), e.event_id.as_str()) {
            duplicate = true;
        }
        j = j + 1;
    }
    let found = find_candidate(candidates, e.candidate_id.as_str());
    if !str_eq(e.context_id.as_str(), context_id) || !str_eq(e.schema_version.as_str(), LKG_EVENT_SCHEMA)
        || e.event_id.as_str().is_empty() || e.repository_id.as_str().is_empty()
        || e.project_id.as_str().is_empty() || duplicate || found.is_none() {
        return Some("lkg-event-context-or-identity-corrupt".to_string());
    }
    let k = found.unwrap();
    let c = &candidates[k];
    let mismatch = !str_eq(e.repository_id.as_str(), c.repository_id.as_str()) || !str_eq(
        e.project_id.as_str(),
        c.project_id.as_str(),
    );
    proof {
        assert forall|m: int|
            0 <= m < candidates@.len() && #[trigger] candidates@[m].candidate_id@
                == e.candidate_id@ implies m == k as int by {
            if m < k as int {
                lemma_candidates_unique(context_id@, candidates@, m, k as int);
            } else if m > k as int {
                lemma_candidates_unique(context_id@, candidates@, k as int, m);
            }
        }
    }
    if mismatch {
        return Some("lkg-event-candidate-provenance-mismatch".to_string());
    }
    let t = e.event_type.as_str();
    if !(str_eq(t, "PROPOSE") || str_eq(t, "CONFIRM") || str_eq(t, "REJECT") || str_eq(t, "REVOKE")) {
        return Some("lkg-event-type-unsupported".to_string());
    }
    if !str_eq(t, "CONFIRM") && e.replaces_candidate_id.is_some() {
        return Some("lkg-event-replacement-on-non-confirm-invalid".to_string());
    }
    None
}

/// Event identifiers are unique once every event is accepted.
proof fn lemma_events_unique(
    context_id: Seq<char>,
    candidates: Seq<LastKnownGoodCandidate>,
    events: Seq<LastKnownGoodEvent>,
)
    requires
        first_fault(event_faults(context_id, candidates, events), events.len() as int) is None,
    ensures
        well_identified(events),
        forall|i: int|
            0 <= i < events.len() ==> is_supported_event_type(#[trigger] events[i].event_type@),
{
    assert forall|i: int, j: int|
        0 <= i < events.len() && 0 <= j < events.len() && i != j implies events[i].event_id@
        != events[j].event_id@ by {
        if i < j {
            lemma_first_fault_none(event_faults(context_id, candidates, events), events.len() as int, j);
            assert(event_fault(context_id, candidates, events, j) is None);
        } else {
            lemma_first_fault_none(event_faults(context_id, candidates, events), events.len() as int, i);
            assert(event_fault(context_id, candidates, events, i) is None);
        }
    }
    assert forall|i: int| 0 <= i < events.len() implies is_supported_event_type(
        #[trigger] events[i].event_type@,
    ) by {
        lemma_first_fault_none(event_faults(context_id, candidates, events), events.len() as int, i);
        assert(event_fault(context_id, candidates, events, i) is None);
    }
}

fn find_event(events: &[LastKnownGoodEvent], id: &str) -> (r: bool)
    ensures
        r == has_event(events@, id@),
{
    let mut k: usize = 0;
    while k < events.len()
        invariant
            k <= events@.len(),
            forall|m: int| 0 <= m < k ==> #[trigger] events@[m].event_id@ != id@,
        decreases events@.len() - k,
    {
        if str_eq(events[k].event_id.as_str(), id) {
            return true;
        }
        k = k + 1;
    }
    false
}

fn find_follower(events: &[LastKnownGoodEvent], id: &str, below: usize) -> (r: Option<usize>)
    requires
        below <= events@.len(),
    ensures
        r matches Some(k) ==> k < below && follows(events@[k as int], id@),
        r is None ==> forall|m: int| 0 <= m < below ==> !#[trigger] follows(events@[m], id@),
{
    let mut k: usize = 0;
    while k < below
        invariant
            below <= events@.len(),
            k <= below,
            forall|m: int| 0 <= m < k ==> !#[trigger] follows(events@[m], id@),
        decreases below - k,
    {
        if opt_str_eq(&events[k].predecessor_event_id, id) {
            return Some(k);
        }
        k = k + 1;
    }
    None
}

fn predecessor_check(events: &[LastKnownGoodEvent], i: usize) -> (r: bool)
    requires
        i < events@.len(),
    ensures
        r == predecessor_fault(events@, i as int),
{
    match &events[i].predecessor_event_id {
        None => false,
        Some(p) => {
            let own = str_eq(p.as_str(), events[i].event_id.as_str());
            let known = find_event(events, p.as_str());
            let earlier = find_follower(events, p.as_str(), i);
            proof {
                if earlier is None {
                    assert forall|j: int| 0 <= j < i implies !#[trigger] follows(events@[j], p@) by {}
                } else {
                    let k = earlier.unwrap();
                    assert(follows(events@[k as int], p@));
                }
            }
            own || !known || earlier.is_some()
        },
    }
}


pub open spec fn seen_set(v: Seq<String>) -> Set<Seq<char>> {
    Set::new(|x: Seq<char>| exists|k: int| 0 <= k < v.len() && #[trigger] v[k]@ == x)
}

fn seen_contains(seen: &Vec<String>, c: &str) -> (r: bool)
    ensures
        r == seen_set(seen@).contains(c@),
{
    let mut k: usize = 0;
    while k < seen.len()
        invariant
            k <= seen@.len(),
            forall|m: int| 0 <= m < k ==> #[trigger] seen@[m]@ != c@,
        decreases seen@.len() - k,
    {
        if str_eq(seen[k].as_str(), c) {
            assert(seen@[k as int]@ == c@);
            return true;
        }
        k = k + 1;
    }
    false
}

fn seen_insert(seen: &mut Vec<String>, c: &String)
    ensures
        seen_set(final(seen)@) == seen_set(old(seen)@).insert(c@),
{
    seen.push(c.clone());
    assert(seen_set(seen@) =~= seen_set(old(seen)@).insert(c@)) by {
        assert forall|x: Seq<char>| seen_set(old(seen)@).contains(x) implies seen_set(seen@).contains(
            x,
        ) by {
            let k = choose|k: int| 0 <= k < old(seen)@.len() && #[trigger] old(seen)@[k]@ == x;
            assert(seen@[k]@ == x);
        }
        let n = old(seen)@.len() as int;
        assert(seen@[n]@ == c@);
    }
}

/// Applies one event to the lifecycle, or names the protocol violation it commits.
fn apply_event(
    active: &mut Option<String>,
    pending: &mut Option<String>,
    seen: &mut Vec<String>,
    e: &LastKnownGoodEvent,
) -> (r: Option<String>)
    requires
        is_supported_event_type(e.event_type@),
    ensures
        match lkg_step((opt_view(*old(active)), opt_view(*old(pending)), seen_set(old(seen)@)), *e) {
            Err(m) => r matches Some(x) && x@ == m,
            Ok(st) => r is None && st == (opt_view(*final(active)), opt_view(*final(pending)), seen_set(final(seen)@)),
        },
{
    let t = e.event_type.as_str();
    let c = &e.candidate_id;
    if str_eq(t, "PROPOSE") {
        if seen_contains(seen, c.as_str()) {
            return Some("lkg-candidate-proposed-more-than-once".to_string());
        }
        if pending.is_some() {
            return Some("lkg-multiple-pending-candidates".to_string());
        }
        *pending = Some(c.clone());
        seen_insert(seen, c);
        None
    } else if str_eq(t, "CONFIRM") {
        if !opt_str_eq(pending, c.as_str()) {
            return Some("lkg-confirm-target-not-pending".to_string());
        }
        match active {
            Some(a) => {
                if !opt_str_eq(&e.replaces_candidate_id, a.as_str()) {
                    return Some("lkg-confirm-replacement-target-invalid".to_string());
                }
            },
            None => {
                if e.replaces_candidate_id.is_some() {
                    return Some("lkg-confirm-replacement-without-active".to_string());
                }
            },
        }
        *active = Some(c.clone());
        *pending = None;
        seen_insert(seen, c);
        None
    } else if str_eq(t, "REJECT") {
        if !opt_str_eq(pending, c.as_str()) {
            return Some("lkg-reject-target-not-pending".to_string());
        }
        *pending = None;
        seen_insert(seen, c);
        None
    } else {
        if !opt_str_eq(active, c.as_str()) {
            return Some("lkg-revoke-target-not-active".to_string());
        }
        *active = None;
        seen_insert(seen, c);
        None
    }
}

proof fn lemma_fold_error_stays(events: Seq<LastKnownGoodEvent>, order: Seq<int>, k: int, n: int)
    requires
        0 <= k <= n,
        lkg_fold(events, order, k) is Err,
    ensures
        lkg_fold(events, order, n) == lkg_fold(events, order, k),
    decreases n - k,
{
    if n > k {
        lemma_fold_error_stays(events, order, k, n - 1);
    }
}

/// Reduces a complete append-only event stream of one context to its lifecycle state.
///
/// Candidates must belong to the context and share one provenance; events must belong
/// to the context, name a known candidate of the same provenance and form a single
/// chain from one root.  The lifecycle is then replayed in chain order: a candidate is
/// proposed once, at most one candidate is pending, a confirmation replaces exactly the
/// active candidate, and only the pending candidate can be rejected and only the active
/// one revoked.  Malformed streams fail closed with the first violation.
#[verifier::loop_isolation(false)]
pub fn reduce_last_known_good(
    context_id: &str,
    candidates: &[LastKnownGoodCandidate],
    events: &[LastKnownGoodEvent],
) -> (r: Result<ReducedLkg, String>)
    ensures
        reduction_matches(r, context_id@, candidates@, events@),
{
    let ghost cf = candidate_faults(context_id@, candidates@);
    let ghost ef = event_faults(context_id@, candidates@, events@);
    let mut i: usize = 0;
    while i < candidates.len()
        invariant
            i <= candidates@.len(),
            cf == candidate_faults(context_id@, candidates@),
            first_fault(cf, i as int) is None,
        decreases candidates@.len() - i,
    {
        match candidate_check(context_id, candidates, i) {
            Some(m) => {
                proof {
                    lemma_first_fault_extends(cf, i as int, candidates@.len() as int);
                }
                return Err(m);
            },
            None => {},
        }
        i = i + 1;
    }
    let mut i: usize = 0;
    while i < events.len()
        invariant
            i <= events@.len(),
            first_fault(cf, candidates@.len() as int) is None,
            cf == candidate_faults(context_id@, candidates@),
            ef == event_faults(context_id@, candidates@, events@),
            first_fault(ef, i as int) is None,
        decreases events@.len() - i,
    {
        match event_check(context_id, candidates, events, i) {
            Some(m) => {
                proof {
                    lemma_first_fault_extends(ef, i as int, events@.len() as int);
                }
                return Err(m);
            },
            None => {},
        }
        i = i + 1;
    }
    let n = events.len();
    if n == 0 {
        let state = LastKnownGoodState {
            schema_version: LKG_STATE_SCHEMA.to_string(),
            context_id: context_id.to_string(),
            tip_event_id: None,
            active_candidate_id: None,
            pending_candidate_id: None,
            lifecycle_status: "none".to_string(),
            applicability_status: "unavailable".to_string(),
            limitations: Vec::new(),
        };
        return Ok(ReducedLkg { events: Vec::new(), state });
    }
    proof {
        lemma_events_unique(context_id@, candidates@, events@);
    }
    let mut roots: usize = 0;
    let mut root: usize = 0;
    let mut k: usize = 0;
    while k < n
        invariant
            n == events@.len(),
            k <= n,
            roots <= k,
            roots as nat == root_count(events@, k as int),
            roots > 0 ==> root < k && events@[root as int].predecessor_event_id is None,
        decreases n - k,
    {
        if events[k].predecessor_event_id.is_none() {
            if roots == 0 {
                root = k;
            }
            roots = roots + 1;
        }
        k = k + 1;
    }
    if roots != 1 {
        return Err("lkg-event-chain-root-invalid".to_string());
    }
    let mut k: usize = 0;
    while k < n
        invariant
            n == events@.len(),
            k <= n,
            forall|m: int| 0 <= m < k ==> !#[trigger] predecessor_fault(events@, m),
        decreases n - k,
    {
        if predecessor_check(events, k) {
            proof {
                assert(predecessor_fault(events@, k as int));
            }
            return Err("lkg-event-chain-predecessor-invalid".to_string());
        }
        k = k + 1;
    }
    proof {
        lemma_well_linked(events@);
    }
    let mut order: Vec<usize> = Vec::new();
    order.push(root);
    loop
        invariant
            n == events@.len(),
            well_linked(events@),
            well_identified(events@),
            1 <= order@.len() <= n,
            as_ints(order@).no_duplicates(),
            forall|m: int| 0 <= m < order@.len() ==> #[trigger] order@[m] < n,
            events@[order@[0] as int].predecessor_event_id is None,
            forall|m: int|
                0 <= m < order@.len() - 1 ==> follows(
                    #[trigger] events@[order@[m + 1] as int],
                    events@[order@[m] as int].event_id@,
                ),
        decreases n - order@.len(),
    {
        let last = order[order.len() - 1];
        match find_follower(events, events[last].event_id.as_str(), n) {
            None => {
                break ;
            },
            Some(j) => {
                let ghost old_order = order@;
                proof {
                    assert forall|p: int| 0 <= p < old_order.len() implies old_order[p] != j by {
                        if old_order[p] == j {
                            if p == 0 {
                                assert(events@[j as int].predecessor_event_id is None);
                            } else {
                                let q = p - 1;
                                assert(follows(
                                    events@[old_order[q + 1] as int],
                                    events@[old_order[q] as int].event_id@,
                                ));
                                assert(events@[old_order[q] as int].event_id@ == events@[last as int].event_id@);
                                assert(as_ints(old_order)[q] == as_ints(old_order)[old_order.len() - 1]);
                            }
                        }
                    }
                    let grown = as_ints(old_order.push(j));
                    assert(grown.no_duplicates()) by {
                        assert forall|a: int, b: int|
                            0 <= a < grown.len() && 0 <= b < grown.len() && a != b implies grown[a]
                            != grown[b] by {
                            if a < old_order.len() && b < old_order.len() {
                                assert(as_ints(old_order)[a] != as_ints(old_order)[b]);
                            }
                        }
                    }
                    lemma_distinct_indices(grown, n as int);
                }
                order.push(j);
                proof {
                    assert(as_ints(order@) == as_ints(old_order.push(j)));
                    assert forall|m: int| 0 <= m < order@.len() - 1 implies follows(
                        #[trigger] events@[order@[m + 1] as int],
                        events@[order@[m] as int].event_id@,
                    ) by {
                        if m < old_order.len() - 1 {
                            assert(order@[m + 1] == old_order[m + 1]);
                        }
                    }
                }
            },
        }
    }
    let ghost walk = as_ints(order@);
    if order.len() != n {
        proof {
            if exists|o: Seq<int>| is_chain_order(o, events@) {
                let o = choose|o: Seq<int>| is_chain_order(o, events@);
                let l = order@.len() as int;
                lemma_chain_prefix(events@, o, walk, l - 1);
                let q = l - 1;
                assert(follows(events@[o[q + 1]], events@[o[q]].event_id@));
                assert(false);
            }
        }
        return Err("lkg-event-chain-disconnected".to_string());
    }
    proof {
        assert(is_chain_order(walk, events@));
        let chosen = chain_order(events@);
        assert forall|m: int| 0 <= m < n implies chosen[m] == walk[m] by {
            lemma_chain_prefix(events@, chosen, walk, m);
        }
        assert(chosen =~= walk);
    }
    let mut active: Option<String> = None;
    let mut pending: Option<String> = None;
    let mut seen: Vec<String> = Vec::new();
    let mut ordered: Vec<LastKnownGoodEvent> = Vec::new();
    proof {
        assert(seen_set(seen@) =~= Set::<Seq<char>>::empty());
    }
    let mut k: usize = 0;
    while k < n
        invariant
            n == events@.len(),
            order@.len() == n,
            walk == as_ints(order@),
            walk == chain_order(events@),
            forall|m: int| 0 <= m < n ==> #[trigger] order@[m] < n,
            forall|m: int| 0 <= m < n ==> is_supported_event_type(#[trigger] events@[m].event_type@),
            k <= n,
            ordered@.len() == k,
            forall|m: int| 0 <= m < k ==> same_event(#[trigger] ordered@[m], events@[walk[m]]),
            lkg_fold(events@, walk, k as int) == Ok::<LkgPhase, Seq<char>>(
                (opt_view(active), opt_view(pending), seen_set(seen@)),
            ),
        decreases n - k,
    {
        let e = &events[order[k]];
        let ghost before = (opt_view(active), opt_view(pending), seen_set(seen@));
        assert(*e == events@[walk[k as int]]);
        match apply_event(&mut active, &mut pending, &mut seen, e) {
            Some(m) => {
                proof {
                    assert(lkg_fold(events@, walk, k as int + 1) == lkg_step(before, *e));
                    lemma_fold_error_stays(events@, walk, k as int + 1, n as int);
                }
                return Err(m);
            },
            None => {},
        }
        ordered.push(e.clone());
        k = k + 1;
    }
    let tip = events[order[n - 1]].event_id.clone();
    let lifecycle = if active.is_some() {
        "active"
    } else if pending.is_some() {
        "pending"
    } else {
        "inactive"
    };
    let state = LastKnownGoodState {
        schema_version: LKG_STATE_SCHEMA.to_string(),
        context_id: context_id.to_string(),
        tip_event_id: Some(tip),
        active_candidate_id: active,
        pending_candidate_id: pending,
        lifecycle_status: lifecycle.to_string(),
        applicability_status: "unavailable".to_string(),
        limitations: Vec::new(),
    };
    Ok(ReducedLkg { events: ordered, state })
}


// ---------------------------------------------------------------------------
// Laws of the reducer.
// ---------------------------------------------------------------------------

proof fn lemma_structurally_valid(
    context_id: Seq<char>,
    candidates: Seq<LastKnownGoodCandidate>,
    events: Seq<LastKnownGoodEvent>,
)
    requires
        structural_error(context_id, candidates, events) is None,
        events.len() > 0,
    ensures
        well_identified(events),
        well_linked(events),
        is_chain_order(chain_order(events), events),
        forall|i: int| 0 <= i < events.len() ==> is_supported_event_type(#[trigger] events[i].event_type@),
{
    lemma_events_unique(context_id, candidates, events);
    lemma_well_linked(events);
}

proof fn lemma_chain_order_distinct(events: Seq<LastKnownGoodEvent>, order: Seq<int>, a: int, b: int)
    requires
        well_identified(events),
        well_linked(events),
        is_chain_order(order, events),
        0 <= a < b < order.len(),
    ensures
        order[a] != order[b],
    decreases a,
{
    if order[a] == order[b] {
        let q = b - 1;
        assert(follows(events[order[q + 1]], events[order[q]].event_id@));
        if a > 0 {
            let p = a - 1;
            assert(follows(events[order[p + 1]], events[order[p]].event_id@));
            lemma_chain_order_distinct(events, order, a - 1, b - 1);
        }
    }
}

/// A successful reduction lists every event of the stream exactly once, in chain order.
pub proof fn law_reduction_keeps_every_event(
    r: Result<ReducedLkg, String>,
    context_id: Seq<char>,
    candidates: Seq<LastKnownGoodCandidate>,
    events: Seq<LastKnownGoodEvent>,
)
    requires
        reduction_matches(r, context_id, candidates, events),
        r is Ok,
    ensures
        r->Ok_0.events@.len() == events.len(),
        forall|i: int|
            0 <= i < events.len() ==> exists|k: int|
                0 <= k < events.len() && same_event(r->Ok_0.events@[k], #[trigger] events[i]),
        forall|k: int|
            0 < k < events.len() ==> follows(
                #[trigger] r->Ok_0.events@[k],
                r->Ok_0.events@[k - 1].event_id@,
            ),
{
    if events.len() > 0 {
        lemma_structurally_valid(context_id, candidates, events);
        let order = chain_order(events);
        assert(order.no_duplicates()) by {
            assert forall|a: int, b: int|
                0 <= a < order.len() && 0 <= b < order.len() && a != b implies order[a]
                != order[b] by {
                if a < b {
                    lemma_chain_order_distinct(events, order, a, b);
                } else {
                    lemma_chain_order_distinct(events, order, b, a);
                }
            }
        }
        lemma_distinct_indices(order, events.len() as int);
        let out = r->Ok_0.events@;
        assert forall|i: int| 0 <= i < events.len() implies exists|k: int|
            0 <= k < events.len() && same_event(out[k], #[trigger] events[i]) by {
            assert(order.contains(i));
            let k = choose|k: int| 0 <= k < order.len() && order[k] == i;
            assert(same_event(out[k], events[order[k]]));
        }
        assert forall|k: int| 0 < k < events.len() implies follows(
            #[trigger] out[k],
            out[k - 1].event_id@,
        ) by {
            let q = k - 1;
            assert(same_event(out[q + 1], events[order[q + 1]]));
            assert(same_event(out[q], events[order[q]]));
            assert(follows(events[order[q + 1]], events[order[q]].event_id@));
        }
    }
}

/// What holds of the lifecycle after any prefix of a replay.
pub open spec fn lifecycle_consistent(st: LkgPhase) -> bool {
    &&& st.0 matches Some(a) ==> st.2.contains(a)
    &&& st.1 matches Some(p) ==> st.2.contains(p)
    &&& !(st.0 is Some && st.0 == st.1)
}

proof fn lemma_fold_consistent(events: Seq<LastKnownGoodEvent>, order: Seq<int>, n: int)
    requires
        lkg_fold(events, order, n) is Ok,
    ensures
        lifecycle_consistent(lkg_fold(events, order, n)->Ok_0),
    decreases n,
{
    if n > 0 {
        lemma_fold_consistent(events, order, n - 1);
    }
}

/// In every reduced state the active and the pending candidate differ, both were named
/// by an event, and the lifecycle status names which of them is present.
pub proof fn law_active_and_pending_are_distinct(
    r: Result<ReducedLkg, String>,
    context_id: Seq<char>,
    candidates: Seq<LastKnownGoodCandidate>,
    events: Seq<LastKnownGoodEvent>,
)
    requires
        reduction_matches(r, context_id, candidates, events),
        r is Ok,
    ensures
        ({
            let state = r->Ok_0.state;
            &&& !(state.active_candidate_id is Some && opt_view(state.active_candidate_id)
                == opt_view(state.pending_candidate_id))
            &&& state.active_candidate_id matches Some(a) ==> exists|i: int|
                0 <= i < events.len() && #[trigger] events[i].candidate_id@ == a@
            &&& state.pending_candidate_id matches Some(p) ==> exists|i: int|
                0 <= i < events.len() && #[trigger] events[i].candidate_id@ == p@
            &&& (state.lifecycle_status@ == "active"@) == (state.active_candidate_id is Some)
        }),
{
    reveal_strlit("active");
    reveal_strlit("pending");
    reveal_strlit("inactive");
    reveal_strlit("none");
    assert("pending"@.len() == 7);
    assert("inactive"@.len() == 8);
    assert("none"@.len() == 4);
    assert("active"@.len() == 6);
    if events.len() > 0 {
        let order = chain_order(events);
        lemma_structurally_valid(context_id, candidates, events);
        lemma_fold_consistent(events, order, events.len() as int);
        lemma_fold_names(events, order, events.len() as int);
        let st = lkg_fold(events, order, events.len() as int)->Ok_0;
        let state = r->Ok_0.state;
        assert(opt_view(state.active_candidate_id) == st.0);
        assert(opt_view(state.pending_candidate_id) == st.1);
        if let Some(a) = state.active_candidate_id {
            assert(st.2.contains(a@));
        }
        if let Some(p) = state.pending_candidate_id {
            assert(st.2.contains(p@));
        }
    }
}

/// In every reduced state the lifecycle status is "active" exactly when a candidate is
/// active, "pending" exactly when none is active and one is pending, "inactive" exactly
/// when events were replayed and neither is present, and "none" exactly when there were no
/// events; the active and pending candidates are candidates of the input, and
/// applicability is left unavailable.
pub proof fn law_lifecycle_status_names_the_state(
    r: Result<ReducedLkg, String>,
    context_id: Seq<char>,
    candidates: Seq<LastKnownGoodCandidate>,
    events: Seq<LastKnownGoodEvent>,
)
    requires
        reduction_matches(r, context_id, candidates, events),
        r is Ok,
    ensures
        ({
            let state = r->Ok_0.state;
            &&& (state.lifecycle_status@ == "active"@) == (state.active_candidate_id is Some)
            &&& (state.lifecycle_status@ == "pending"@) == (state.active_candidate_id is None
                && state.pending_candidate_id is Some)
            &&& (state.lifecycle_status@ == "inactive"@) == (state.active_candidate_id is None
                && state.pending_candidate_id is None && events.len() > 0)
            &&& (state.lifecycle_status@ == "none"@) == (events.len() == 0)
            &&& state.active_candidate_id matches Some(a) ==> has_candidate(candidates, a@)
            &&& state.pending_candidate_id matches Some(p) ==> has_candidate(candidates, p@)
            &&& state.applicability_status@ == "unavailable"@
        }),
{
    reveal_strlit("active");
    reveal_strlit("pending");
    reveal_strlit("inactive");
    reveal_strlit("none");
    assert("pending"@.len() == 7);
    assert("inactive"@.len() == 8);
    assert("none"@.len() == 4);
    assert("active"@.len() == 6);
    assert("active"@ != "inactive"@);
    law_active_and_pending_are_distinct(r, context_id, candidates, events);
    if events.len() > 0 {
        lemma_structurally_valid(context_id, candidates, events);
        lemma_no_fault(event_faults(context_id, candidates, events), events.len() as int);
        let state = r->Ok_0.state;
        if let Some(a) = state.active_candidate_id {
            let i = choose|i: int| 0 <= i < events.len() && #[trigger] events[i].candidate_id@ == a@;
            assert(event_faults(context_id, candidates, events)(i) is None);
        }
        if let Some(p) = state.pending_candidate_id {
            let i = choose|i: int| 0 <= i < events.len() && #[trigger] events[i].candidate_id@ == p@;
            assert(event_faults(context_id, candidates, events)(i) is None);
        }
    }
}

/// No item before `n` has a fault when the first fault before `n` is none.
proof fn lemma_no_fault(faults: spec_fn(int) -> Option<Seq<char>>, n: int)
    requires
        first_fault(faults, n) is None,
    ensures
        forall|i: int| 0 <= i < n ==> #[trigger] faults(i) is None,
    decreases n,
{
    if n > 0 {
        lemma_no_fault(faults, n - 1);
    }
}

/// Every candidate a replay has seen is named by one of the replayed events.
proof fn lemma_fold_names(events: Seq<LastKnownGoodEvent>, order: Seq<int>, n: int)
    requires
        lkg_fold(events, order, n) is Ok,
        0 <= n <= order.len(),
        forall|k: int| 0 <= k < order.len() ==> 0 <= #[trigger] order[k] < events.len(),
    ensures
        forall|c: Seq<char>|
            #[trigger] lkg_fold(events, order, n)->Ok_0.2.contains(c) ==> exists|i: int|
                0 <= i < events.len() && #[trigger] events[i].candidate_id@ == c,
    decreases n,
{
    if n > 0 {
        lemma_fold_names(events, order, n - 1);
        let e = events[order[n - 1]];
        assert forall|c: Seq<char>| #[trigger]
            lkg_fold(events, order, n)->Ok_0.2.contains(c) implies exists|i: int|
            0 <= i < events.len() && #[trigger] events[i].candidate_id@ == c by {
            if c == e.candidate_id@ {
                assert(events[order[n - 1]].candidate_id@ == c);
            } else {
                assert(lkg_fold(events, order, n - 1)->Ok_0.2.contains(c));
            }
        }
    }
}


// ---------------------------------------------------------------------------
// Reordering the input.
// ---------------------------------------------------------------------------

/// `q` is the inverse of the permutation `p` of `0..n`.
pub open spec fn is_permutation(p: Seq<int>, q: Seq<int>, n: nat) -> bool {
    &&& p.len() == n
    &&& q.len() == n
    &&& forall|i: int| 0 <= i < n ==> 0 <= #[trigger] p[i] < n && q[p[i]] == i
    &&& forall|i: int| 0 <= i < n ==> 0 <= #[trigger] q[i] < n && p[q[i]] == i
}

/// `b` lists the items of `a` in the order `p`.
pub open spec fn reordered<A>(b: Seq<A>, a: Seq<A>, p: Seq<int>, q: Seq<int>) -> bool {
    &&& is_permutation(p, q, a.len())
    &&& b.len() == a.len()
    &&& forall|i: int| 0 <= i < b.len() ==> #[trigger] b[i] == a[p[i]]
}

proof fn lemma_first_fault_all_none(faults: spec_fn(int) -> Option<Seq<char>>, n: int)
    requires
        forall|i: int| 0 <= i < n ==> (#[trigger] faults(i)) is None,
    ensures
        first_fault(faults, n) is None,
    decreases n,
{
    if n > 0 {
        lemma_first_fault_all_none(faults, n - 1);
    }
}

proof fn lemma_candidates_reordered(
    context_id: Seq<char>,
    cs: Seq<LastKnownGoodCandidate>,
    cs2: Seq<LastKnownGoodCandidate>,
    p: Seq<int>,
    q: Seq<int>,
)
    requires
        reordered(cs2, cs, p, q),
        first_fault(candidate_faults(context_id, cs), cs.len() as int) is None,
    ensures
        first_fault(candidate_faults(context_id, cs2), cs2.len() as int) is None,
        forall|id: Seq<char>| has_candidate(cs2, id) == has_candidate(cs, id),
{
    assert forall|i: int| 0 <= i < cs.len() implies #[trigger] candidate_fault(context_id, cs, i) is None by {
        lemma_first_fault_none(candidate_faults(context_id, cs), cs.len() as int, i);
    }
    assert forall|a: int, b: int| 0 <= a < cs.len() && 0 <= b < cs.len() && a != b implies cs[a].candidate_id@
        != cs[b].candidate_id@ by {
        if a < b {
            assert(candidate_fault(context_id, cs, b) is None);
        } else {
            assert(candidate_fault(context_id, cs, a) is None);
        }
    }
    assert forall|i: int| 0 <= i < cs2.len() implies (#[trigger] candidate_faults(context_id, cs2)(i)) is None by {
        let c = cs2[i];
        assert(c == cs[p[i]]);
        assert(candidate_fault(context_id, cs, p[i]) is None);
        assert(candidate_fault(context_id, cs, 0) is None);
        assert(cs2[0] == cs[p[0]]);
        assert(candidate_fault(context_id, cs, p[0]) is None);
        assert(!exists|j: int| 0 <= j < i && #[trigger] cs2[j].candidate_id@ == c.candidate_id@) by {
            if exists|j: int| 0 <= j < i && #[trigger] cs2[j].candidate_id@ == c.candidate_id@ {
                let j = choose|j: int| 0 <= j < i && #[trigger] cs2[j].candidate_id@ == c.candidate_id@;
                assert(cs2[j] == cs[p[j]]);
                assert(q[p[j]] == j && q[p[i]] == i);
            }
        }
    }
    lemma_first_fault_all_none(candidate_faults(context_id, cs2), cs2.len() as int);
    assert forall|id: Seq<char>| has_candidate(cs2, id) == has_candidate(cs, id) by {
        if has_candidate(cs, id) {
            let k = choose|k: int| 0 <= k < cs.len() && #[trigger] cs[k].candidate_id@ == id;
            assert(cs2[q[k]] == cs[p[q[k]]]);
        }
        if has_candidate(cs2, id) {
            let k = choose|k: int| 0 <= k < cs2.len() && #[trigger] cs2[k].candidate_id@ == id;
            assert(cs2[k] == cs[p[k]]);
        }
    }
}

proof fn lemma_events_reordered(
    context_id: Seq<char>,
    cs: Seq<LastKnownGoodCandidate>,
    cs2: Seq<LastKnownGoodCandidate>,
    es: Seq<LastKnownGoodEvent>,
    es2: Seq<LastKnownGoodEvent>,
    pc: Seq<int>,
    qc: Seq<int>,
    p: Seq<int>,
    q: Seq<int>,
)
    requires
        reordered(cs2, cs, pc, qc),
        reordered(es2, es, p, q),
        forall|id: Seq<char>| has_candidate(cs2, id) == has_candidate(cs, id),
        first_fault(event_faults(context_id, cs, es), es.len() as int) is None,
    ensures
        first_fault(event_faults(context_id, cs2, es2), es2.len() as int) is None,
{
    assert forall|i: int| 0 <= i < es.len() implies #[trigger] event_fault(context_id, cs, es, i) is None by {
        lemma_first_fault_none(event_faults(context_id, cs, es), es.len() as int, i);
    }
    assert forall|a: int, b: int| 0 <= a < es.len() && 0 <= b < es.len() && a != b implies es[a].event_id@
        != es[b].event_id@ by {
        if a < b {
            assert(event_fault(context_id, cs, es, b) is None);
        } else {
            assert(event_fault(context_id, cs, es, a) is None);
        }
    }
    assert forall|i: int| 0 <= i < es2.len() implies (#[trigger] event_faults(context_id, cs2, es2)(i)) is None by {
        let e = es2[i];
        assert(e == es[p[i]]);
        assert(event_fault(context_id, cs, es, p[i]) is None);
        assert(has_candidate(cs2, e.candidate_id@) == has_candidate(cs, e.candidate_id@));
        assert(!exists|j: int| 0 <= j < i && #[trigger] es2[j].event_id@ == e.event_id@) by {
            if exists|j: int| 0 <= j < i && #[trigger] es2[j].event_id@ == e.event_id@ {
                let j = choose|j: int| 0 <= j < i && #[trigger] es2[j].event_id@ == e.event_id@;
                assert(es2[j] == es[p[j]]);
                assert(q[p[j]] == j && q[p[i]] == i);
            }
        }
        assert(!exists|k: int|
            0 <= k < cs2.len() && #[trigger] cs2[k].candidate_id@ == e.candidate_id@ && (cs2[k].repository_id@
                != e.repository_id@ || cs2[k].project_id@ != e.project_id@)) by {
            if exists|k: int|
                0 <= k < cs2.len() && #[trigger] cs2[k].candidate_id@ == e.candidate_id@ && (cs2[k].repository_id@
                    != e.repository_id@ || cs2[k].project_id@ != e.project_id@) {
                let k = choose|k: int|
                    0 <= k < cs2.len() && #[trigger] cs2[k].candidate_id@ == e.candidate_id@ && (cs2[k].repository_id@
                        != e.repository_id@ || cs2[k].project_id@ != e.project_id@);
                assert(cs2[k] == cs[pc[k]]);
            }
        }
    }
    lemma_first_fault_all_none(event_faults(context_id, cs2, es2), es2.len() as int);
}

proof fn lemma_root_count_none(events: Seq<LastKnownGoodEvent>, n: int)
    requires
        0 <= n <= events.len(),
        forall|j: int| 0 <= j < n ==> (#[trigger] events[j]).predecessor_event_id is Some,
    ensures
        root_count(events, n) == 0,
    decreases n,
{
    if n > 0 {
        lemma_root_count_none(events, n - 1);
    }
}

proof fn lemma_root_count_one(events: Seq<LastKnownGoodEvent>, n: int, r: int)
    requires
        0 <= r < n <= events.len(),
        events[r].predecessor_event_id is None,
        forall|j: int| 0 <= j < n && j != r ==> (#[trigger] events[j]).predecessor_event_id is Some,
    ensures
        root_count(events, n) == 1,
    decreases n,
{
    if n - 1 > r {
        lemma_root_count_one(events, n - 1, r);
    } else {
        lemma_root_count_none(events, r);
    }
}

/// Two chain orders of a well-linked stream list the same events.
proof fn lemma_chain_unique(events: Seq<LastKnownGoodEvent>, o1: Seq<int>, o2: Seq<int>, k: int)
    requires
        well_identified(events),
        well_linked(events),
        is_chain_order(o1, events),
        is_chain_order(o2, events),
        0 <= k < o1.len(),
    ensures
        o1[k] == o2[k],
    decreases k,
{
    if k > 0 {
        lemma_chain_unique(events, o1, o2, k - 1);
        let j = k - 1;
        assert(follows(events[o1[j + 1]], events[o1[j]].event_id@));
        assert(follows(events[o2[j + 1]], events[o2[j]].event_id@));
    }
}

proof fn lemma_fold_congruent(e1: Seq<LastKnownGoodEvent>, o1: Seq<int>, e2: Seq<LastKnownGoodEvent>, o2: Seq<int>, n: int)
    requires
        forall|k: int| 0 <= k < n ==> #[trigger] e1[o1[k]] == e2[o2[k]],
    ensures
        lkg_fold(e1, o1, n) == lkg_fold(e2, o2, n),
    decreases n,
{
    if n > 0 {
        lemma_fold_congruent(e1, o1, e2, o2, n - 1);
        assert(e1[o1[n - 1]] == e2[o2[n - 1]]);
    }
}

/// Two reductions that list the same events and reach the same state.
pub open spec fn same_reduction(a: ReducedLkg, b: ReducedLkg) -> bool {
    &&& a.events@.len() == b.events@.len()
    &&& forall|k: int| 0 <= k < a.events@.len() ==> same_event(#[trigger] a.events@[k], b.events@[k])
    &&& a.state.schema_version@ == b.state.schema_version@
    &&& a.state.context_id@ == b.state.context_id@
    &&& opt_view(a.state.tip_event_id) == opt_view(b.state.tip_event_id)
    &&& opt_view(a.state.active_candidate_id) == opt_view(b.state.active_candidate_id)
    &&& opt_view(a.state.pending_candidate_id) == opt_view(b.state.pending_candidate_id)
    &&& a.state.lifecycle_status@ == b.state.lifecycle_status@
    &&& a.state.applicability_status@ == b.state.applicability_status@
    &&& a.state.limitations@.len() == b.state.limitations@.len()
}

/// Reordering the candidates and the events does not change a successful reduction: only
/// the predecessor chain, never the order of the input, decides the reduced events and the
/// state.
pub proof fn law_reduction_ignores_input_order(
    r: Result<ReducedLkg, String>,
    r2: Result<ReducedLkg, String>,
    context_id: Seq<char>,
    candidates: Seq<LastKnownGoodCandidate>,
    events: Seq<LastKnownGoodEvent>,
    candidates2: Seq<LastKnownGoodCandidate>,
    events2: Seq<LastKnownGoodEvent>,
    pc: Seq<int>,
    qc: Seq<int>,
    pe: Seq<int>,
    qe: Seq<int>,
)
    requires
        reordered(candidates2, candidates, pc, qc),
        reordered(events2, events, pe, qe),
        reduction_matches(r, context_id, candidates, events),
        reduction_matches(r2, context_id, candidates2, events2),
        r is Ok,
    ensures
        r2 is Ok,
        same_reduction(r2->Ok_0, r->Ok_0),
{
    let es = events;
    let es2 = events2;
    assert(structural_error(context_id, candidates, es) is None);
    lemma_candidates_reordered(context_id, candidates, candidates2, pc, qc);
    lemma_events_reordered(context_id, candidates, candidates2, es, es2, pc, qc, pe, qe);
    if es.len() == 0 {
        assert(structural_error(context_id, candidates2, es2) is None);
        return;
    }
    lemma_structurally_valid(context_id, candidates, es);
    let order = chain_order(es);
    let root = order[0];
    assert(es[root].predecessor_event_id is None);
    // exactly one root in the reordered stream
    assert forall|j: int| 0 <= j < es2.len() && j != qe[root] implies (#[trigger] es2[j]).predecessor_event_id is Some by {
        assert(es2[j] == es[pe[j]]);
        if es[pe[j]].predecessor_event_id is None {
            assert(pe[j] == root);
            assert(qe[pe[j]] == j);
        }
    }
    assert(es2[qe[root]] == es[pe[qe[root]]]);
    lemma_root_count_one(es2, es2.len() as int, qe[root]);
    // no predecessor fault in the reordered stream
    assert forall|i: int| 0 <= i < es2.len() implies !#[trigger] predecessor_fault(es2, i) by {
        assert(es2[i] == es[pe[i]]);
        assert(!predecessor_fault(es, pe[i]));
        match es2[i].predecessor_event_id {
            Some(p) => {
                let m = choose|m: int| 0 <= m < es.len() && #[trigger] es[m].event_id@ == p@;
                assert(es2[qe[m]] == es[pe[qe[m]]]);
                assert(has_event(es2, p@));
                if exists|j: int| 0 <= j < i && #[trigger] follows(es2[j], p@) {
                    let j = choose|j: int| 0 <= j < i && #[trigger] follows(es2[j], p@);
                    assert(es2[j] == es[pe[j]]);
                    assert(follows(es[pe[j]], p@) && follows(es[pe[i]], p@));
                    assert(pe[j] == pe[i]);
                    assert(qe[pe[j]] == j && qe[pe[i]] == i);
                }
            },
            None => {},
        }
    }
    // a chain order of the reordered stream
    let order2 = Seq::new(order.len(), |k: int| qe[order[k]]);
    assert(is_chain_order(order2, es2)) by {
        assert forall|k: int| 0 <= k < order2.len() implies 0 <= #[trigger] order2[k] < es2.len() by {
            assert(0 <= order[k] < es.len());
        }
        assert(es2[order2[0]] == es[pe[qe[order[0]]]]);
        assert forall|k: int| 0 <= k < order2.len() - 1 implies follows(
            #[trigger] es2[order2[k + 1]],
            es2[order2[k]].event_id@,
        ) by {
            assert(0 <= order[k] < es.len() && 0 <= order[k + 1] < es.len());
            assert(es2[order2[k + 1]] == es[pe[qe[order[k + 1]]]]);
            assert(es2[order2[k]] == es[pe[qe[order[k]]]]);
            assert(follows(es[order[k + 1]], es[order[k]].event_id@));
        }
    }
    assert(structural_error(context_id, candidates2, es2) is None);
    lemma_structurally_valid(context_id, candidates2, es2);
    let chosen = chain_order(es2);
    assert forall|k: int| 0 <= k < es.len() implies #[trigger] es2[chosen[k]] == es[order[k]] by {
        lemma_chain_unique(es2, chosen, order2, k);
        assert(0 <= order[k] < es.len());
        assert(es2[order2[k]] == es[pe[qe[order[k]]]]);
    }
    lemma_fold_congruent(es2, chosen, es, order, es.len() as int);
    let out = r->Ok_0;
    let out2 = r2->Ok_0;
    assert forall|k: int| 0 <= k < out2.events@.len() implies same_event(#[trigger] out2.events@[k], out.events@[k]) by {
        assert(same_event(out2.events@[k], es2[chosen[k]]));
        assert(same_event(out.events@[k], es[order[k]]));
    }
    assert(es2[chosen[es.len() - 1]] == es[order[es.len() - 1]]);
}

} // verus!
