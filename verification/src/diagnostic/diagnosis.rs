//! The decisions of historical diagnosis: which changed paths of a commit are evidence,
//! why a commit is a candidate, and how candidates are ranked and bounded.

use vstd::prelude::*;

use super::validation::is_typescript_path;
use crate::hashing::{blake3_hex, blake3_hex_of};
use crate::json::{json_uint, push_json_uint};
use crate::model::context_basis::canonical_set;
use crate::model::diagnostic::{
    DiagnosticContext, DiagnosticLimits, EvidenceReference, GitBasis, GraphBasis, HistoricalCandidate,
    HistoricalDiagnosis,
};
use crate::model::last_known_good::{LastKnownGoodBinding, LastKnownGoodValidation};
use crate::model::lkg_protocol::{LastKnownGoodApplicability, LastKnownGoodCandidate, LastKnownGoodState};
use crate::model::schemas::{HISTORICAL_CANDIDATE_SCHEMA, HISTORICAL_DIAGNOSIS_SCHEMA, LAST_KNOWN_GOOD_SCHEMA};
use crate::model::schemas::SourceFile;
use crate::order::{contains_str, lemma_strictly_sorted_unique, sorted_unique, str_less, str_lt, strictly_sorted};
use crate::text::{seq_ends_with, str_eq, views};

verus! {

broadcast use vstd::string::group_string_axioms;

/// Whether a changed path is candidate evidence: a TypeScript source, or the package
/// manifest when the context focuses flows.
pub open spec fn is_evidence_path(p: Seq<char>, focus_flows: bool) -> bool {
    seq_ends_with(p, ".ts"@) || seq_ends_with(p, ".tsx"@) || (p == "package.json"@ && focus_flows)
}

/// The changed paths of a commit that are candidate evidence, each once, in ascending
/// order.
pub open spec fn evidence_paths(changed: Seq<String>, focus_flows: bool) -> Seq<Seq<char>> {
    canonical_set(views(changed)).filter(evidence_filter(focus_flows))
}

/// The test a path passes to be evidence.
pub open spec fn evidence_filter(focus_flows: bool) -> spec_fn(Seq<char>) -> bool {
    |p: Seq<char>| is_evidence_path(p, focus_flows)
}

/// The evidence paths among the paths a commit changed, and how many distinct paths it
/// changed.
pub fn commit_evidence_paths(changed: Vec<String>, focus_flows: bool) -> (r: (Vec<String>, usize))
    ensures
        views(r.0@) == evidence_paths(changed@, focus_flows),
        r.1 == canonical_set(views(changed@)).len(),
{
    let ghost all = views(changed@);
    let distinct = sorted_unique(changed);
    proof {
        let t = canonical_set(all);
        let u = choose|u: Seq<Seq<char>>| strictly_sorted(u) && u.to_set() == all.to_set();
        assert(strictly_sorted(views(distinct@)) && views(distinct@).to_set() == all.to_set());
        lemma_strictly_sorted_unique(views(distinct@), u);
    }
    let ghost d = views(distinct@);
    let mut kept: Vec<String> = Vec::new();
    let mut i: usize = 0;
    assert(d.take(0).filter(evidence_filter(focus_flows)) =~= Seq::<Seq<char>>::empty()) by {
        reveal(Seq::filter);
    }
    while i < distinct.len()
        invariant
            i <= d.len(),
            d == views(distinct@),
            views(kept@) == d.take(i as int).filter(evidence_filter(focus_flows)),
        decreases d.len() - i,
    {
        let p = distinct[i].as_str();
        let keep = is_typescript_path(p) || (focus_flows && str_eq(p, "package.json"));
        let ghost before = views(kept@);
        assert(keep == evidence_filter(focus_flows)(d[i as int]));
        if keep {
            kept.push(distinct[i].clone());
            assert(views(kept@) =~= before.push(d[i as int]));
        }
        proof {
            reveal(Seq::filter);
            let f = evidence_filter(focus_flows);
            assert(d.take(i as int + 1).drop_last() =~= d.take(i as int));
            assert(d.take(i as int + 1).last() == d[i as int]);
            assert(views(kept@) =~= d.take(i as int + 1).filter(f));
        }
        i = i + 1;
    }
    assert(d.take(d.len() as int) =~= d);
    let n = distinct.len();
    (kept, n)
}

/// `rs` with each of `ds` appended, in order, unless it is already there.
pub open spec fn append_new(rs: Seq<Seq<char>>, ds: Seq<Seq<char>>) -> Seq<Seq<char>>
    decreases ds.len(),
{
    if ds.len() == 0 {
        rs
    } else {
        let prev = append_new(rs, ds.drop_last());
        if prev.contains(ds.last()) {
            prev
        } else {
            prev.push(ds.last())
        }
    }
}

/// Whether some of the paths is among `list`.
pub open spec fn any_in(paths: Seq<Seq<char>>, list: Seq<Seq<char>>) -> bool {
    exists|k: int| 0 <= k < paths.len() && list.contains(#[trigger] paths[k])
}

/// The path reasons of a commit: a changed path in focus, then one in the dependency
/// cone.
pub open spec fn path_reasons(paths: Seq<Seq<char>>, focus: Seq<Seq<char>>, cone: Seq<Seq<char>>) -> Seq<Seq<char>> {
    (if any_in(paths, focus) {
        seq!["changed-path-in-focus-context"@]
    } else {
        Seq::empty()
    }) + (if any_in(paths, cone) {
        seq!["changed-path-in-dependency-cone"@]
    } else {
        Seq::empty()
    })
}

/// The score of the path reasons, over the base score of 10.
pub open spec fn path_score(paths: Seq<Seq<char>>, focus: Seq<Seq<char>>, cone: Seq<Seq<char>>) -> nat {
    10 + (if any_in(paths, focus) { 100nat } else { 0nat }) + (if any_in(paths, cone) { 60nat } else { 0nat })
}

fn any_listed(paths: &Vec<String>, list: &Vec<String>) -> (r: bool)
    ensures
        r == any_in(views(paths@), views(list@)),
{
    let mut k: usize = 0;
    while k < paths.len()
        invariant
            k <= paths@.len(),
            forall|m: int| 0 <= m < k ==> !views(list@).contains(#[trigger] views(paths@)[m]),
        decreases paths@.len() - k,
    {
        if contains_str(list, paths[k].as_str()) {
            assert(views(list@).contains(views(paths@)[k as int]));
            return true;
        }
        k = k + 1;
    }
    false
}

/// The relevance reasons of a commit and its score: its path reasons with base score 10,
/// then the structural reasons of its snapshots, each once, with their score. `None`
/// for `delta` when no snapshot comparison was made.
pub fn commit_relevance(
    paths: &Vec<String>,
    focus_paths: &Vec<String>,
    cone_paths: &Vec<String>,
    delta: Option<(Vec<String>, u32)>,
) -> (r: (Vec<String>, u32))
    requires
        delta matches Some(d) ==> d.1 <= 1000000000,
    ensures
        views(r.0@) == match delta {
            Some(d) => append_new(path_reasons(views(paths@), views(focus_paths@), views(cone_paths@)), views(d.0@)),
            None => path_reasons(views(paths@), views(focus_paths@), views(cone_paths@)),
        },
        r.1 == path_score(views(paths@), views(focus_paths@), views(cone_paths@)) + match delta {
            Some(d) => d.1 as nat,
            None => 0nat,
        },
{
    let mut reasons: Vec<String> = Vec::new();
    let mut score: u32 = 10;
    let in_focus = any_listed(paths, focus_paths);
    let in_cone = any_listed(paths, cone_paths);
    if in_focus {
        reasons.push("changed-path-in-focus-context".to_string());
        score = score + 100;
    }
    if in_cone {
        reasons.push("changed-path-in-dependency-cone".to_string());
        score = score + 60;
    }
    let ghost base = path_reasons(views(paths@), views(focus_paths@), views(cone_paths@));
    assert(views(reasons@) =~= base);
    match delta {
        None => (reasons, score),
        Some((delta_reasons, delta_score)) => {
            let ghost ds = views(delta_reasons@);
            let mut i: usize = 0;
            assert(ds.take(0) =~= Seq::<Seq<char>>::empty());
            while i < delta_reasons.len()
                invariant
                    i <= ds.len(),
                    ds == views(delta_reasons@),
                    views(reasons@) == append_new(base, ds.take(i as int)),
                decreases ds.len() - i,
            {
                assert(ds.take(i as int + 1).drop_last() =~= ds.take(i as int));
                if !contains_str(&reasons, delta_reasons[i].as_str()) {
                    let ghost before = views(reasons@);
                    reasons.push(delta_reasons[i].clone());
                    assert(views(reasons@) =~= before.push(ds[i as int]));
                }
                i = i + 1;
            }
            assert(ds.take(ds.len() as int) =~= ds);
            (reasons, score + delta_score)
        },
    }
}

/// What became of a commit's evidence paths at the current revision: `removed` when none
/// is still there, `changed` when one changed or was removed, else `retained`.
pub fn retention_status(retained: bool, changed: bool, removed: bool) -> (r: &'static str)
    ensures
        r@ == if !retained {
            "removed"@
        } else if changed || removed {
            "changed"@
        } else {
            "retained"@
        },
{
    if !retained {
        "removed"
    } else if changed || removed {
        "changed"
    } else {
        "retained"
    }
}

/// The hash recorded for `path` among the current files: the last file of that path.
pub open spec fn current_hash_of(files: Seq<SourceFile>, path: Seq<char>) -> Option<Seq<char>>
    decreases files.len(),
{
    if files.len() == 0 {
        None
    } else if files.last().path@ == path {
        Some(files.last().hash@)
    } else {
        current_hash_of(files.drop_last(), path)
    }
}

/// Whether content was shown and hashes to `hash`.
pub open spec fn shown_matches(shown: Option<Vec<u8>>, hash: Seq<char>) -> bool {
    shown matches Some(b) && blake3_hex(b@) == hash
}

/// Whether some evidence path is still there, whether one changed, and whether one was
/// removed, after the first `n` paths: `shown[i]` is the content of `changed[i]` at the
/// commit, where it could be read.
pub open spec fn retention_flags(
    changed: Seq<String>,
    files: Seq<SourceFile>,
    manifest_hash: Option<Seq<char>>,
    shown: Seq<Option<Vec<u8>>>,
    n: nat,
) -> (bool, bool, bool)
    decreases n,
{
    if n == 0 {
        (false, false, false)
    } else {
        let prev = retention_flags(changed, files, manifest_hash, shown, (n - 1) as nat);
        let path = changed[n - 1]@;
        let content = shown[n - 1];
        if path == "package.json"@ {
            match manifest_hash {
                Some(h) if content is Some => if shown_matches(content, h) {
                    (true, prev.1, prev.2)
                } else {
                    (true, true, prev.2)
                },
                _ => (prev.0, prev.1, true),
            }
        } else {
            match current_hash_of(files, path) {
                None => (prev.0, prev.1, true),
                Some(h) => (true, prev.1 || !shown_matches(content, h), prev.2),
            }
        }
    }
}

/// The retention status of a commit's evidence paths, `shown` holding the content of
/// each at the commit where it could be read.
pub open spec fn spec_retention_of(
    changed: Seq<String>,
    files: Seq<SourceFile>,
    manifest_hash: Option<Seq<char>>,
    shown: Seq<Option<Vec<u8>>>,
) -> Seq<char> {
    let f = retention_flags(changed, files, manifest_hash, shown, changed.len());
    if !f.0 {
        "removed"@
    } else if f.1 || f.2 {
        "changed"@
    } else {
        "retained"@
    }
}

fn current_hash(files: &[SourceFile], path: &str) -> (r: Option<String>)
    ensures
        match r {
            Some(h) => current_hash_of(files@, path@) == Some(h@),
            None => current_hash_of(files@, path@) is None,
        },
{
    let mut i: usize = files.len();
    assert(files@.take(i as int) =~= files@);
    while i > 0
        invariant
            i <= files@.len(),
            current_hash_of(files@, path@) == current_hash_of(files@.take(i as int), path@),
        decreases i,
    {
        assert(files@.take(i as int).drop_last() =~= files@.take(i as int - 1));
        assert(files@.take(i as int).last() == files@[i as int - 1]);
        if str_eq(files[i - 1].path.as_str(), path) {
            return Some(files[i - 1].hash.clone());
        }
        i = i - 1;
    }
    assert(files@.take(0) =~= Seq::<SourceFile>::empty());
    None
}

fn content_matches(shown: &Option<Vec<u8>>, hash: &str) -> (r: bool)
    ensures
        r == shown_matches(*shown, hash@),
{
    match shown {
        Some(bytes) => {
            let h = blake3_hex_of(bytes.as_slice());
            str_eq(h.as_str(), hash)
        },
        None => false,
    }
}

/// What became of a commit's evidence paths at the current revision, by the hash of each
/// path's content at the commit (`shown`, where it could be read) against the current
/// file hashes and the current manifest hash.
pub fn retention_of(
    changed: &[String],
    current_files: &[SourceFile],
    manifest_hash: Option<&str>,
    shown: &[Option<Vec<u8>>],
) -> (r: &'static str)
    requires
        changed@.len() <= shown@.len(),
    ensures
        r@ == spec_retention_of(
            changed@,
            current_files@,
            match manifest_hash {
                Some(h) => Some(h@),
                None => None,
            },
            shown@,
        ),
{
    let ghost mh = match manifest_hash {
        Some(h) => Some(h@),
        None => None::<Seq<char>>,
    };
    let mut retained = false;
    let mut changed_path = false;
    let mut removed = false;
    let mut i: usize = 0;
    proof {
        reveal_strlit("package.json");
    }
    while i < changed.len()
        invariant
            i <= changed@.len(),
            changed@.len() <= shown@.len(),
            mh == match manifest_hash {
                Some(h) => Some(h@),
                None => None::<Seq<char>>,
            },
            (retained, changed_path, removed) == retention_flags(changed@, current_files@, mh, shown@, i as nat),
        decreases changed@.len() - i,
    {
        let path = changed[i].as_str();
        if str_eq(path, "package.json") {
            match manifest_hash {
                Some(h) if shown[i].is_some() => {
                    retained = true;
                    if !content_matches(&shown[i], h) {
                        changed_path = true;
                    }
                },
                _ => {
                    removed = true;
                },
            }
        } else {
            match current_hash(current_files, path) {
                None => {
                    removed = true;
                },
                Some(h) => {
                    retained = true;
                    if !content_matches(&shown[i], h.as_str()) {
                        changed_path = true;
                    }
                },
            }
        }
        i = i + 1;
    }
    retention_status(retained, changed_path, removed)
}

/// The text a candidate id is hashed from.
pub open spec fn candidate_id_input(context_id: Seq<char>, graph_id: Seq<char>, commit: Seq<char>) -> Seq<char> {
    "flopeek-historical-candidate-v1\0"@ + context_id + "\0"@ + graph_id + "\0"@ + commit
}

/// The id of the candidate for a commit, in a context, against a graph.
pub fn candidate_id(context_id: &str, graph_id: &str, commit: &str) -> (r: String)
    ensures
        r@ == "candidate_"@ + blake3_hex(vstd::utf8::encode_utf8(candidate_id_input(context_id@, graph_id@, commit@))),
{
    let mut input = "flopeek-historical-candidate-v1\0".to_string();
    input.append(context_id);
    input.append("\0");
    input.append(graph_id);
    input.append("\0");
    input.append(commit);
    let digest = blake3_hex_of(input.as_str().as_bytes());
    let mut r = "candidate_".to_string();
    r.append(digest.as_str());
    r
}

/// Whether candidate `a` ranks before candidate `b`: a higher score, then the smaller
/// commit.
pub open spec fn ranks_before(a: HistoricalCandidate, b: HistoricalCandidate) -> bool {
    a.score > b.score || (a.score == b.score && str_lt(a.commit@, b.commit@))
}

/// Whether candidates are in rank order.
pub open spec fn ranked(s: Seq<HistoricalCandidate>) -> bool {
    forall|i: int, j: int| 0 <= i < j < s.len() ==> !ranks_before(#[trigger] s[j], #[trigger] s[i])
}

/// Rank order is asymmetric, and ranking no earlier is transitive.
proof fn lemma_rank_order(a: HistoricalCandidate, b: HistoricalCandidate, c: HistoricalCandidate)
    ensures
        ranks_before(a, b) ==> !ranks_before(b, a),
        !ranks_before(a, b) && !ranks_before(b, c) ==> !ranks_before(a, c),
{
    broadcast use crate::order::lemma_str_lt_order;
    crate::order::lemma_str_lt_total(a.commit@, b.commit@);
    crate::order::lemma_str_lt_total(b.commit@, c.commit@);
    crate::order::lemma_str_lt_total(a.commit@, c.commit@);
}

fn ranks_before_exec(a: &HistoricalCandidate, b: &HistoricalCandidate) -> (r: bool)
    ensures
        r == ranks_before(*a, *b),
{
    a.score > b.score || (a.score == b.score && str_less(a.commit.as_str(), b.commit.as_str()))
}

/// The candidates in rank order: by score, highest first, then by commit; candidates
/// that rank alike keep their order.
pub fn rank_candidates(candidates: Vec<HistoricalCandidate>) -> (r: Vec<HistoricalCandidate>)
    ensures
        ranked(r@),
        r@.to_multiset() == candidates@.to_multiset(),
{
    broadcast use {
        vstd::multiset::group_multiset_axioms,
        vstd::seq_lib::group_to_multiset_ensures,
        crate::order::lemma_str_lt_order,
    };
    let mut input = candidates;
    let ghost original = input@;
    let mut out: Vec<HistoricalCandidate> = Vec::new();
    while input.len() > 0
        invariant
            ranked(out@),
            out@.to_multiset().add(input@.to_multiset()) == original.to_multiset(),
        decreases input@.len(),
    {
        let ghost in_before = input@;
        let c = input.remove(0);
        proof {
            assert(input@ == in_before.remove(0));
            vstd::seq_lib::to_multiset_remove(in_before, 0);
            vstd::seq_lib::to_multiset_contains(in_before, c);
            assert(in_before.remove(0).to_multiset() == in_before.to_multiset().remove(in_before[0]));
            assert(in_before[0] == c);
            assert(in_before.contains(c));
            assert(in_before.to_multiset().count(c) > 0);
        }
        let mut pos: usize = out.len();
        while pos > 0 && ranks_before_exec(&c, &out[pos - 1])
            invariant
                pos <= out@.len(),
                forall|k: int| pos <= k < out@.len() ==> ranks_before(c, #[trigger] out@[k]),
            decreases pos,
        {
            pos = pos - 1;
        }
        let ghost out_before = out@;
        proof {
            assert forall|k: int| 0 <= k < pos implies !ranks_before(c, #[trigger] out@[k]) by {
                assert(!ranks_before(c, out@[pos - 1]));
                if k < pos - 1 {
                    assert(!ranks_before(out@[pos - 1], out@[k]));
                    lemma_rank_order(c, out@[pos - 1], out@[k]);
                }
            }
        }
        out.insert(pos, c);
        proof {
            assert(out@ == out_before.insert(pos as int, c));
            vstd::seq_lib::to_multiset_insert(out_before, pos as int, c);
            assert(out_before.insert(pos as int, c).to_multiset() == out_before.to_multiset().insert(c));
            assert forall|i: int, j: int| 0 <= i < j < out@.len() implies !ranks_before(
                #[trigger] out@[j],
                #[trigger] out@[i],
            ) by {
                if i < pos && j == pos {
                    assert(out@[i] == out_before[i]);
                    assert(!ranks_before(c, out_before[i]));
                } else if i == pos && j > pos {
                    assert(out@[j] == out_before[j - 1]);
                    assert(ranks_before(c, out_before[j - 1]));
                    lemma_rank_order(c, out_before[j - 1], c);
                } else if i < pos && j > pos {
                    assert(out@[i] == out_before[i]);
                    assert(out@[j] == out_before[j - 1]);
                } else if i > pos {
                    assert(out@[i] == out_before[i - 1]);
                    assert(out@[j] == out_before[j - 1]);
                } else {
                    assert(out@[i] == out_before[i]);
                    assert(out@[j] == out_before[j]);
                }
            }
            assert(out@.to_multiset().add(input@.to_multiset()) =~= original.to_multiset());
        }
    }
    out
}

/// The first `max` ranked candidates, with the omission recorded when some were dropped.
pub fn cap_candidates(candidates: Vec<HistoricalCandidate>, max: usize) -> (r: (Vec<HistoricalCandidate>, Option<String>))
    ensures
        candidates@.len() > max ==> r.0@ == candidates@.take(max as int) && (r.1 matches Some(o)
            && o@ == "historical candidates capped at "@ + json_uint(max as nat)),
        candidates@.len() <= max ==> r.0@ == candidates@ && r.1 is None,
{
    let mut kept = candidates;
    if kept.len() > max {
        kept.truncate(max);
        let mut o = "historical candidates capped at ".to_string();
        push_json_uint(&mut o, max as u64);
        (kept, Some(o))
    } else {
        (kept, None)
    }
}

/// The omissions of a diagnosis, at most `max_paths` of them (at least one), and whether
/// some were dropped.
pub fn cap_omissions(omissions: Vec<String>, max_paths: usize) -> (r: (Vec<String>, bool))
    ensures
        ({
            let limit = if max_paths == 0 { 1 } else { max_paths as int };
            &&& omissions@.len() > limit ==> r.0@ == omissions@.take(limit) && r.1
            &&& omissions@.len() <= limit ==> r.0@ == omissions@ && !r.1
        }),
{
    let limit = if max_paths == 0 { 1 } else { max_paths };
    let mut kept = omissions;
    if kept.len() > limit {
        kept.truncate(limit);
        (kept, true)
    } else {
        (kept, false)
    }
}

/// What every historical diagnosis states about its candidates.
pub const RELEVANCE_LIMITATION: &'static str = "Historical candidates are deterministic path/topology relevance signals, not runtime causes or root-cause findings.";

/// What every historical diagnosis states it cannot see.
pub const RUNTIME_LIMITATION: &'static str = "Runtime execution, dynamic dispatch, reflection, generated code and business intent remain unavailable.";

/// The limitation of a context whose last-known-good basis predates bindings.
pub const LEGACY_UNBOUND_LIMITATION: &'static str = "legacy last-known-good basis is legacy-unbound; no historical range was inspected.";

/// The limitation of a context without a last-known-good basis.
pub const UNAVAILABLE_LIMITATION: &'static str = "last-known-good basis is unavailable; no historical range was inspected.";

/// The limitation when the graph does not match a clean current source state.
pub const SOURCE_STATE_LIMITATION: &'static str = "historical diagnosis is unavailable because the persisted graph does not match a clean current Git source state.";

/// The limitation of a dirty working tree.
pub const DIRTY_LIMITATION: &'static str = "Git working tree is dirty; historical candidates were not computed.";

/// The omission when the source state rules candidates out.
pub const SOURCE_STATE_OMISSION: &'static str = "historical candidates unavailable for dirty or mismatched source state";

/// The omission when no commit may be inspected.
pub const ZERO_COMMITS_OMISSION: &'static str = "history commits omitted because max_commits is zero";

/// The limitation of an empty range.
pub const IDENTICAL_REVISIONS_LIMITATION: &'static str = "last-known-good and current revisions are identical; the inspected range is empty.";

/// The limitation when no commit may be inspected.
pub const ZERO_COMMITS_LIMITATION: &'static str = "history limit max_commits is zero; no commits were inspected.";

/// The confirmed binding a candidate stands for, as a diagnosis reports it.
pub open spec fn binding_from(b: LastKnownGoodBinding, c: LastKnownGoodCandidate) -> bool {
    &&& b.schema_version@ == LAST_KNOWN_GOOD_SCHEMA@
    &&& b.binding_id@ == c.candidate_id@
    &&& b.repository_id@ == c.repository_id@
    &&& b.project_id@ == c.project_id@
    &&& b.context_id@ == c.context_id@
    &&& b.git_revision@ == c.git_revision@
    &&& b.observation_id == c.observation_id
    &&& b.event_id is None
    &&& b.graph_basis == c.graph_basis
    &&& b.actor@ == c.proposed_by@
    &&& b.actor_kind@ == "human"@
    &&& b.evidence@ == c.evidence@
    &&& b.status@ == "confirmed"@
    &&& b.predecessor_binding_id is None
    &&& b.superseded_binding_id is None
    &&& b.created_at == c.proposed_at
    &&& b.validation.status@.len() == 0
    &&& !b.validation.revision_available
    &&& !b.validation.repository_match
    &&& !b.validation.first_parent_range_available
    &&& !b.validation.evidence_contract_compatible
    &&& b.validation.limitations@.len() == 0
}

/// The fields every outcome of the prelude shares: schema, context, graph basis, no
/// commits and no candidates, and the candidate and state as given.
pub open spec fn prelude_common(
    d: HistoricalDiagnosis,
    context: DiagnosticContext,
    basis: GraphBasis,
    candidate: Option<LastKnownGoodCandidate>,
    state: Option<LastKnownGoodState>,
) -> bool {
    &&& d.schema_version@ == HISTORICAL_DIAGNOSIS_SCHEMA@
    &&& d.context_id@ == context.id@
    &&& d.current_graph_basis == basis
    &&& d.last_known_good_candidate == candidate
    &&& d.last_known_good_state == state
    &&& d.commits_inspected == 0
    &&& d.candidates@.len() == 0
}

/// The limitations after the two standing ones.
pub open spec fn with_base(extra: Seq<Seq<char>>) -> Seq<Seq<char>> {
    seq![RELEVANCE_LIMITATION@, RUNTIME_LIMITATION@] + extra
}

/// The limitations of a dirty or mismatched source state.
pub open spec fn source_state_limitations(graph_revision: Seq<char>, current_revision: Seq<char>, dirty: bool) -> Seq<Seq<char>> {
    seq![SOURCE_STATE_LIMITATION@] + (if graph_revision != current_revision {
        seq!["source revision mismatch: graph="@ + graph_revision + " current="@ + current_revision]
    } else {
        Seq::empty()
    }) + (if dirty {
        seq![DIRTY_LIMITATION@]
    } else {
        Seq::empty()
    })
}

fn copy_evidence(v: &Vec<EvidenceReference>) -> (r: Vec<EvidenceReference>)
    ensures
        r@ == v@,
{
    let mut r: Vec<EvidenceReference> = Vec::new();
    let mut i: usize = 0;
    while i < v.len()
        invariant
            i <= v@.len(),
            r@ == v@.take(i as int),
        decreases v@.len() - i,
    {
        r.push(v[i].clone());
        assert(r@ =~= v@.take(i as int + 1));
        i = i + 1;
    }
    assert(v@.take(v@.len() as int) =~= v@);
    r
}

fn confirmed_binding(c: &LastKnownGoodCandidate) -> (b: LastKnownGoodBinding)
    ensures
        binding_from(b, *c),
{
    proof {
        reveal_strlit("");
    }
    let graph_basis = match &c.graph_basis {
        Some(g) => Some(g.clone()),
        None => None,
    };
    let observation_id = match &c.observation_id {
        Some(o) => Some(o.clone()),
        None => None,
    };
    LastKnownGoodBinding {
        schema_version: LAST_KNOWN_GOOD_SCHEMA.to_string(),
        binding_id: c.candidate_id.clone(),
        repository_id: c.repository_id.clone(),
        project_id: c.project_id.clone(),
        context_id: c.context_id.clone(),
        git_revision: c.git_revision.clone(),
        observation_id,
        event_id: None,
        graph_basis,
        actor: c.proposed_by.clone(),
        actor_kind: "human".to_string(),
        evidence: copy_evidence(&c.evidence),
        status: "confirmed".to_string(),
        predecessor_binding_id: None,
        superseded_binding_id: None,
        created_at: c.proposed_at,
        validation: LastKnownGoodValidation {
            status: String::new(),
            revision_available: false,
            repository_match: false,
            first_parent_range_available: false,
            evidence_contract_compatible: false,
            limitations: Vec::new(),
        },
    }
}

/// The outcome of a historical diagnosis that inspects no commit, decided from the
/// context, the current graph basis, the confirmed candidate and the lifecycle state,
/// the resolved last-known-good and current revisions, the graph's revision, whether the
/// working tree is dirty, and the limits: no candidate (unavailable or legacy-unbound),
/// a dirty or mismatched source state, identical revisions, or a zero commit limit.
/// `None` where commits must be inspected.
pub fn diagnosis_prelude(
    context: &DiagnosticContext,
    basis: GraphBasis,
    candidate: Option<LastKnownGoodCandidate>,
    state: Option<LastKnownGoodState>,
    last_revision: &str,
    current_revision: &str,
    graph_revision: &str,
    dirty: bool,
    limits: &DiagnosticLimits,
) -> (r: Option<HistoricalDiagnosis>)
    ensures
        match candidate {
            None => r matches Some(d) && {
                let legacy = context.last_known_good_basis is Some;
                &&& prelude_common(d, *context, basis, candidate, state)
                &&& d.last_known_good_basis is None
                &&& d.last_known_good_binding is None
                &&& d.last_known_good_applicability is None
                &&& d.last_known_good_status@ == if legacy { "legacy-unbound"@ } else { "unavailable"@ }
                &&& d.range is None
                &&& !d.truncated
                &&& d.omissions@.len() == 0
                &&& views(d.limitations@) == with_base(
                    seq![if legacy { LEGACY_UNBOUND_LIMITATION@ } else { UNAVAILABLE_LIMITATION@ }],
                )
            },
            Some(c) => {
                let mismatch = graph_revision@ != current_revision@;
                let stops = mismatch || dirty || last_revision@ == current_revision@ || limits.max_commits == 0;
                &&& (r is Some <==> stops)
                &&& r matches Some(d) ==> {
                    &&& prelude_common(d, *context, basis, candidate, state)
                    &&& d.last_known_good_basis matches Some(g) && g.revision@ == last_revision@
                    &&& d.last_known_good_binding matches Some(b) && binding_from(b, c)
                    &&& d.last_known_good_applicability matches Some(a) && a.status@ == "applicable"@ && a.limitations@.len() == 0
                    &&& d.last_known_good_status@ == "confirmed"@
                    &&& d.range matches Some(rg) && rg@ == last_revision@ + ".."@ + current_revision@
                    &&& if mismatch || dirty {
                        &&& d.truncated == (limits.max_commits == 0)
                        &&& views(d.omissions@) == seq![SOURCE_STATE_OMISSION@] + (if limits.max_commits == 0 {
                            seq![ZERO_COMMITS_OMISSION@]
                        } else {
                            Seq::empty()
                        })
                        &&& views(d.limitations@) == with_base(source_state_limitations(graph_revision@, current_revision@, dirty))
                    } else if last_revision@ == current_revision@ {
                        &&& !d.truncated
                        &&& d.omissions@.len() == 0
                        &&& views(d.limitations@) == with_base(seq![IDENTICAL_REVISIONS_LIMITATION@])
                    } else {
                        &&& d.truncated
                        &&& views(d.omissions@) == seq![ZERO_COMMITS_OMISSION@]
                        &&& views(d.limitations@) == with_base(seq![ZERO_COMMITS_LIMITATION@])
                    }
                }
            },
        },
{
    let mut limitations: Vec<String> = Vec::new();
    limitations.push(RELEVANCE_LIMITATION.to_string());
    limitations.push(RUNTIME_LIMITATION.to_string());
    let ghost base = views(limitations@);
    assert(base =~= with_base(Seq::empty()));
    let c = match &candidate {
        None => {
            let legacy = context.last_known_good_basis.is_some();
            limitations.push(
                if legacy {
                    LEGACY_UNBOUND_LIMITATION.to_string()
                } else {
                    UNAVAILABLE_LIMITATION.to_string()
                },
            );
            assert(views(limitations@) =~= with_base(
                seq![if legacy { LEGACY_UNBOUND_LIMITATION@ } else { UNAVAILABLE_LIMITATION@ }],
            ));
            return Some(HistoricalDiagnosis {
                schema_version: HISTORICAL_DIAGNOSIS_SCHEMA.to_string(),
                context_id: context.id.clone(),
                current_graph_basis: basis,
                last_known_good_basis: None,
                last_known_good_binding: None,
                last_known_good_candidate: candidate,
                last_known_good_state: state,
                last_known_good_applicability: None,
                last_known_good_status: if legacy {
                    "legacy-unbound".to_string()
                } else {
                    "unavailable".to_string()
                },
                range: None,
                commits_inspected: 0,
                candidates: Vec::new(),
                truncated: false,
                omissions: Vec::new(),
                limitations,
            });
        },
        Some(c) => c,
    };
    let mismatch = !str_eq(graph_revision, current_revision);
    let same = str_eq(last_revision, current_revision);
    if !(mismatch || dirty || same || limits.max_commits == 0) {
        return None;
    }
    let binding = confirmed_binding(c);
    let mut range = last_revision.to_string();
    range.append("..");
    range.append(current_revision);
    let mut omissions: Vec<String> = Vec::new();
    let truncated;
    if mismatch || dirty {
        limitations.push(SOURCE_STATE_LIMITATION.to_string());
        if mismatch {
            let mut m = "source revision mismatch: graph=".to_string();
            m.append(graph_revision);
            m.append(" current=");
            m.append(current_revision);
            limitations.push(m);
        }
        if dirty {
            limitations.push(DIRTY_LIMITATION.to_string());
        }
        omissions.push(SOURCE_STATE_OMISSION.to_string());
        if limits.max_commits == 0 {
            omissions.push(ZERO_COMMITS_OMISSION.to_string());
        }
        truncated = limits.max_commits == 0;
        proof {
            assert(views(limitations@) =~= with_base(source_state_limitations(graph_revision@, current_revision@, dirty)));
            assert(views(omissions@) =~= seq![SOURCE_STATE_OMISSION@] + (if limits.max_commits == 0 {
                seq![ZERO_COMMITS_OMISSION@]
            } else {
                Seq::empty()
            }));
        }
    } else if same {
        limitations.push(IDENTICAL_REVISIONS_LIMITATION.to_string());
        truncated = false;
        assert(views(limitations@) =~= with_base(seq![IDENTICAL_REVISIONS_LIMITATION@]));
    } else {
        limitations.push(ZERO_COMMITS_LIMITATION.to_string());
        omissions.push(ZERO_COMMITS_OMISSION.to_string());
        truncated = true;
        assert(views(limitations@) =~= with_base(seq![ZERO_COMMITS_LIMITATION@]));
        assert(views(omissions@) =~= seq![ZERO_COMMITS_OMISSION@]);
    }
    Some(HistoricalDiagnosis {
        schema_version: HISTORICAL_DIAGNOSIS_SCHEMA.to_string(),
        context_id: context.id.clone(),
        current_graph_basis: basis,
        last_known_good_basis: Some(GitBasis { revision: last_revision.to_string() }),
        last_known_good_binding: Some(binding),
        last_known_good_candidate: candidate,
        last_known_good_state: state,
        last_known_good_applicability: Some(LastKnownGoodApplicability { status: "applicable".to_string(), limitations: Vec::new() }),
        last_known_good_status: "confirmed".to_string(),
        range: Some(range),
        commits_inspected: 0,
        candidates: Vec::new(),
        truncated,
        omissions,
        limitations,
    })
}

/// The omissions of a concluded diagnosis before they are capped: those found while
/// inspecting commits, then the commit cap and the candidate cap where they cut something.
pub open spec fn concluded_notes(
    found: Seq<Seq<char>>,
    commits_found: nat,
    candidate_total: nat,
    limits: DiagnosticLimits,
) -> Seq<Seq<char>> {
    found + (if commits_found > limits.max_commits {
        seq!["history commits capped at "@ + json_uint(limits.max_commits as nat)]
    } else {
        Seq::empty()
    }) + (if candidate_total > limits.max_candidates {
        seq!["historical candidates capped at "@ + json_uint(limits.max_candidates as nat)]
    } else {
        Seq::empty()
    })
}

/// The diagnosis that inspected commits: the found candidates ranked by score, then
/// commit, and capped; the notes found, then the commit and candidate caps, capped at the
/// path bound (at least one); truncated when the log held more commits than inspected, a
/// path, snapshot or focus bound was zero or exceeded, or a cap cut something.
pub fn conclude_diagnosis(
    context: &DiagnosticContext,
    basis: GraphBasis,
    candidate: LastKnownGoodCandidate,
    state: Option<LastKnownGoodState>,
    last_revision: &str,
    current_revision: &str,
    commits_found: usize,
    candidates: Vec<HistoricalCandidate>,
    omissions: Vec<String>,
    limitations: Vec<String>,
    limits: &DiagnosticLimits,
) -> (r: HistoricalDiagnosis)
    ensures
        r.schema_version@ == HISTORICAL_DIAGNOSIS_SCHEMA@,
        r.context_id@ == context.id@,
        r.current_graph_basis == basis,
        r.last_known_good_basis matches Some(g) && g.revision@ == last_revision@,
        r.last_known_good_binding matches Some(b) && binding_from(b, candidate),
        r.last_known_good_candidate == Some(candidate),
        r.last_known_good_state == state,
        r.last_known_good_applicability matches Some(a) && a.status@ == "applicable"@ && a.limitations@.len() == 0,
        r.last_known_good_status@ == "confirmed"@,
        r.range matches Some(rg) && rg@ == last_revision@ + ".."@ + current_revision@,
        r.commits_inspected == if commits_found > limits.max_commits { limits.max_commits } else { commits_found },
        exists|sorted: Seq<HistoricalCandidate>|
            {
                &&& #[trigger] ranked(sorted)
                &&& sorted.to_multiset() == candidates@.to_multiset()
                &&& r.candidates@ == if sorted.len() > limits.max_candidates {
                    sorted.take(limits.max_candidates as int)
                } else {
                    sorted
                }
            },
        ({
            let notes = concluded_notes(views(omissions@), commits_found as nat, candidates@.len(), *limits);
            let limit = if limits.max_paths == 0 { 1 } else { limits.max_paths as int };
            &&& views(r.omissions@) == if notes.len() > limit { notes.take(limit) } else { notes }
            &&& r.truncated == (commits_found > limits.max_commits || limits.max_paths == 0 || limits.max_snapshot_bytes == 0
                || context.focus_context_refs@.len() > limits.max_context_refs || candidates@.len() > limits.max_candidates
                || notes.len() > limit)
        }),
        r.limitations@ == limitations@,
{
    let candidate_total = candidates.len();
    let ranked_candidates = rank_candidates(candidates);
    let ghost sorted = ranked_candidates@;
    proof {
        broadcast use vstd::seq_lib::group_to_multiset_ensures;
        assert(sorted.to_multiset().len() == sorted.len());
        assert(candidates@.to_multiset().len() == candidates@.len());
    }
    let (kept, candidate_note) = cap_candidates(ranked_candidates, limits.max_candidates);
    let mut notes = omissions;
    let ghost n0 = views(notes@);
    if commits_found > limits.max_commits {
        let mut o = "history commits capped at ".to_string();
        push_json_uint(&mut o, limits.max_commits as u64);
        notes.push(o);
        assert(views(notes@) =~= n0.push("history commits capped at "@ + json_uint(limits.max_commits as nat)));
    }
    let ghost n1 = views(notes@);
    match candidate_note {
        Some(o) => {
            notes.push(o);
            assert(views(notes@) =~= n1.push("historical candidates capped at "@ + json_uint(limits.max_candidates as nat)));
        },
        None => {},
    }
    assert(views(notes@) =~= concluded_notes(n0, commits_found as nat, candidate_total as nat, *limits));
    let ghost all_notes = views(notes@);
    let (capped_notes, notes_cut) = cap_omissions(notes, limits.max_paths);
    proof {
        let limit = if limits.max_paths == 0 { 1 } else { limits.max_paths as int };
        if all_notes.len() > limit {
            assert(views(capped_notes@) =~= all_notes.take(limit));
        }
    }
    let truncated = commits_found > limits.max_commits || limits.max_paths == 0 || limits.max_snapshot_bytes == 0
        || context.focus_context_refs.len() > limits.max_context_refs || candidate_total > limits.max_candidates
        || notes_cut;
    let binding = confirmed_binding(&candidate);
    let mut range = last_revision.to_string();
    range.append("..");
    range.append(current_revision);
    let r = HistoricalDiagnosis {
        schema_version: HISTORICAL_DIAGNOSIS_SCHEMA.to_string(),
        context_id: context.id.clone(),
        current_graph_basis: basis,
        last_known_good_basis: Some(GitBasis { revision: last_revision.to_string() }),
        last_known_good_binding: Some(binding),
        last_known_good_candidate: Some(candidate),
        last_known_good_state: state,
        last_known_good_applicability: Some(LastKnownGoodApplicability { status: "applicable".to_string(), limitations: Vec::new() }),
        last_known_good_status: "confirmed".to_string(),
        range: Some(range),
        commits_inspected: if commits_found > limits.max_commits { limits.max_commits } else { commits_found },
        candidates: kept,
        truncated,
        omissions: capped_notes,
        limitations,
    };
    assert(ranked(sorted));
    r
}

/// The relevance reasons of a commit's evidence paths, with the snapshot delta's reasons
/// where its snapshots were compared.
pub open spec fn commit_reasons(paths: Seq<Seq<char>>, focus: Seq<Seq<char>>, cone: Seq<Seq<char>>, delta: Option<(Seq<Seq<char>>, nat)>) -> Seq<Seq<char>> {
    match delta {
        Some(d) => append_new(path_reasons(paths, focus, cone), d.0),
        None => path_reasons(paths, focus, cone),
    }
}

/// A snapshot delta by its plain values.
pub open spec fn delta_view(delta: Option<(Vec<String>, u32)>) -> Option<(Seq<Seq<char>>, nat)> {
    match delta {
        Some(d) => Some((views(d.0@), d.1 as nat)),
        None => None,
    }
}

/// The candidate one inspected commit gives, with the notes it adds: none when it has no
/// evidence path, the path bound is zero, or nothing makes it relevant.
pub open spec fn candidate_outcome(
    r: Option<(HistoricalCandidate, Vec<String>)>,
    context_id: Seq<char>,
    basis: GraphBasis,
    project_id: Seq<char>,
    last_revision: Seq<char>,
    commit: Seq<char>,
    parents: Seq<String>,
    summary: Seq<char>,
    paths: Seq<String>,
    distinct_count: nat,
    focus: Seq<Seq<char>>,
    cone: Seq<Seq<char>>,
    delta: Option<(Seq<Seq<char>>, nat)>,
    files: Seq<SourceFile>,
    manifest_hash: Option<Seq<char>>,
    shown: Seq<Option<Vec<u8>>>,
    max_paths: usize,
) -> bool {
    let ps = views(paths);
    let reasons = commit_reasons(ps, focus, cone, delta);
    let cut = ps.len() > max_paths;
    let kept = if cut { paths.take(max_paths as int) } else { paths };
    if ps.len() == 0 || max_paths == 0 || reasons.len() == 0 {
        r is None
    } else {
        r matches Some((c, notes)) && {
            &&& c.schema_version@ == HISTORICAL_CANDIDATE_SCHEMA@
            &&& c.id@ == "candidate_"@ + blake3_hex(vstd::utf8::encode_utf8(candidate_id_input(context_id, basis.graph_id@, commit)))
            &&& c.project_id@ == project_id
            &&& c.context_id@ == context_id
            &&& c.current_graph_basis == basis
            &&& c.last_known_good_revision@ == last_revision
            &&& c.commit@ == commit
            &&& c.parents@ == parents
            &&& c.summary@ == summary
            &&& c.changed_paths@ == kept
            &&& c.changed_paths_truncated == cut
            &&& views(c.relevance_reasons@) == reasons.push("introduced-after-last-known-good"@)
            &&& c.score == path_score(ps, focus, cone) + match delta {
                Some(d) => d.1,
                None => 0nat,
            }
            &&& c.retention_status@ == spec_retention_of(kept, files, manifest_hash, shown)
            &&& views(notes@) == if cut {
                seq!["commit "@ + commit + " paths capped at "@ + json_uint(max_paths as nat)]
            } else if distinct_count > ps.len() {
                seq!["commit "@ + commit + " contained non-TypeScript paths omitted from candidate evidence"@]
            } else {
                Seq::empty()
            }
        }
    }
}

/// The candidate one inspected commit gives, with the notes it adds to the diagnosis; none
/// when it has no evidence path, the path bound is zero, or nothing makes it relevant. Its
/// paths are capped at the path bound, and its retention compares the shown content of its
/// kept paths (`shown` holds one entry per evidence path) with the current files.
pub fn commit_candidate(
    context_id: &str,
    basis: &GraphBasis,
    project_id: &str,
    last_revision: &str,
    commit: &str,
    parents: Vec<String>,
    summary: String,
    paths: Vec<String>,
    distinct_count: usize,
    focus_paths: &Vec<String>,
    cone_paths: &Vec<String>,
    delta: Option<(Vec<String>, u32)>,
    current_files: &[SourceFile],
    manifest_hash: Option<&str>,
    shown: &[Option<Vec<u8>>],
    max_paths: usize,
) -> (r: Option<(HistoricalCandidate, Vec<String>)>)
    requires
        shown@.len() == paths@.len(),
        delta matches Some(d) ==> d.1 <= 1000000000,
    ensures
        candidate_outcome(
            r,
            context_id@,
            *basis,
            project_id@,
            last_revision@,
            commit@,
            parents@,
            summary@,
            paths@,
            distinct_count as nat,
            views(focus_paths@),
            views(cone_paths@),
            delta_view(delta),
            current_files@,
            match manifest_hash {
                Some(h) => Some(h@),
                None => None,
            },
            shown@,
            max_paths,
        ),
{
    if paths.len() == 0 || max_paths == 0 {
        return None;
    }
    let (mut reasons, score) = commit_relevance(&paths, focus_paths, cone_paths, delta);
    if reasons.len() == 0 {
        return None;
    }
    let ghost r0 = views(reasons@);
    reasons.push("introduced-after-last-known-good".to_string());
    assert(views(reasons@) =~= r0.push("introduced-after-last-known-good"@));
    let total = paths.len();
    let cut = total > max_paths;
    let mut kept = paths;
    if cut {
        kept.truncate(max_paths);
    }
    let mut notes: Vec<String> = Vec::new();
    if cut {
        let mut o = "commit ".to_string();
        o.append(commit);
        o.append(" paths capped at ");
        push_json_uint(&mut o, max_paths as u64);
        notes.push(o);
        assert(views(notes@) =~= seq!["commit "@ + commit@ + " paths capped at "@ + json_uint(max_paths as nat)]);
    } else if distinct_count > total {
        let mut o = "commit ".to_string();
        o.append(commit);
        o.append(" contained non-TypeScript paths omitted from candidate evidence");
        notes.push(o);
        assert(views(notes@) =~= seq!["commit "@ + commit@ + " contained non-TypeScript paths omitted from candidate evidence"@]);
    }
    assert(views(notes@) =~= if cut {
        seq!["commit "@ + commit@ + " paths capped at "@ + json_uint(max_paths as nat)]
    } else if distinct_count > total {
        seq!["commit "@ + commit@ + " contained non-TypeScript paths omitted from candidate evidence"@]
    } else {
        Seq::<Seq<char>>::empty()
    });
    let retention = retention_of(kept.as_slice(), current_files, manifest_hash, shown);
    let candidate = HistoricalCandidate {
        schema_version: HISTORICAL_CANDIDATE_SCHEMA.to_string(),
        id: candidate_id(context_id, basis.graph_id.as_str(), commit),
        project_id: project_id.to_string(),
        context_id: context_id.to_string(),
        current_graph_basis: basis.clone(),
        last_known_good_revision: last_revision.to_string(),
        commit: commit.to_string(),
        parents,
        summary,
        changed_paths: kept,
        changed_paths_truncated: cut,
        relevance_reasons: reasons,
        score,
        retention_status: retention.to_string(),
    };
    Some((candidate, notes))
}

} // verus!
