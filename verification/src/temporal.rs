//! Temporal identities: fingerprint contracts and observation events.

use vstd::prelude::*;

use crate::graph::fingerprints::{labelled_hash, nul_join_seq, nul_joined};
use crate::hashing::blake3_hex;

verus! {

broadcast use vstd::string::group_string_axioms;

/// The fingerprint contract of a node fingerprint scope.
pub open spec fn spec_fingerprint_contract(scope: Seq<char>) -> Seq<char> {
    "node-"@ + scope + "/v1"@
}

/// The fingerprint contract of the current node fingerprints.
pub const NODE_FINGERPRINT_CONTRACT: &'static str = "node-ast-and-direct-edges/v1";

/// The versioned contract name of a node fingerprint scope.
pub fn fingerprint_contract(scope: &str) -> (r: String)
    ensures
        r@ == spec_fingerprint_contract(scope@),
{
    let mut r = "node-".to_string();
    r.append(scope);
    r.append("/v1");
    r
}

/// How the previous observation enters an event id.
pub open spec fn previous_marker(previous: Option<Seq<char>>) -> Seq<char> {
    match previous {
        Some(p) => "some:"@ + p,
        None => "none"@,
    }
}

/// The text whose hash identifies an observation event.
pub open spec fn event_input(project: Seq<char>, previous: Option<Seq<char>>, observation: Seq<char>) -> Seq<char> {
    nul_join_seq("flopeek-observation-event-v1"@, seq![project, previous_marker(previous), observation])
}

/// The id of the event that records `observation` of `project` after `previous`.
pub fn observation_event_id(project: &str, previous: Option<&str>, observation: &str) -> (r: String)
    ensures
        r@ == "event_"@ + blake3_hex(vstd::utf8::encode_utf8(event_input(project@, match previous {
            Some(p) => Some(p@),
            None => None,
        }, observation@))),
{
    let marker = match previous {
        Some(p) => {
            let mut m = "some:".to_string();
            m.append(p);
            m
        },
        None => "none".to_string(),
    };
    let ghost prev_view: Option<Seq<char>> = match previous {
        Some(p) => Some(p@),
        None => None,
    };
    assert(marker@ == previous_marker(prev_view));
    let mut parts: Vec<&str> = Vec::new();
    parts.push(project);
    parts.push(marker.as_str());
    parts.push(observation);
    let input = nul_joined("flopeek-observation-event-v1", &parts);
    let ghost ps = parts@.map_values(|p: &str| p@);
    assert(ps =~= seq![project@, previous_marker(prev_view), observation@]);
    assert(input@ == nul_join_seq("flopeek-observation-event-v1"@, ps));
    labelled_hash("event_", input.as_str())
}

} // verus!
