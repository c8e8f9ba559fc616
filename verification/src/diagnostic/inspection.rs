//! The walk over the commits of a historical range: each commit's evidence, as read from
//! the repository, decides its candidate, its notes and its snapshot limitations.

use vstd::prelude::*;

use super::diagnosis::{candidate_outcome, commit_candidate, commit_evidence_paths, evidence_paths};
use super::ranking::{delta_reasons, delta_score, historical_delta_reasons, truncation_notes};
use crate::model::context_basis::canonical_set;
use crate::model::diagnostic::{DiagnosticLimits, GraphBasis, HistoricalCandidate, HistoricalSnapshot};
use crate::model::schemas::SourceFile;
use crate::text::views;

verus! {

broadcast use vstd::string::group_string_axioms;

/// What the repository shows of one inspected commit: its identity, the paths it changed
/// against its first parent, the content at that commit of each evidence path (in the
/// order of the evidence paths; `None` where it could not be read), and the structural
/// snapshots of the commit and its first parent, or why they could not be had.
pub struct CommitEvidence {
    pub sha: String,
    pub parents: Vec<String>,
    pub summary: String,
    pub changed: Vec<String>,
    pub shown: Vec<Option<Vec<u8>>>,
    pub snapshots: Result<(HistoricalSnapshot, HistoricalSnapshot), String>,
}

/// A manifest hash by its plain value.
pub open spec fn hash_view(h: Option<&str>) -> Option<Seq<char>> {
    match h {
        Some(x) => Some(x@),
        None => None,
    }
}

/// Whether a commit's snapshots are compared: snapshot bytes are allowed and it has a parent.
pub open spec fn compares_snapshots(e: CommitEvidence, limits: DiagnosticLimits) -> bool {
    limits.max_snapshot_bytes > 0 && e.parents@.len() > 0
}

/// Whether a commit is weighed at all: it has an evidence path and paths are allowed.
pub open spec fn weighed(e: CommitEvidence, focus_flows: bool, limits: DiagnosticLimits) -> bool {
    evidence_paths(e.changed@, focus_flows).len() > 0 && limits.max_paths > 0
}

/// The snapshot delta of a weighed commit, where its snapshots were compared and could be had.
pub open spec fn commit_delta(
    e: CommitEvidence,
    focus: Seq<Seq<char>>,
    cone: Seq<Seq<char>>,
    ids: Seq<String>,
    limits: DiagnosticLimits,
) -> Option<(Seq<Seq<char>>, nat)> {
    if compares_snapshots(e, limits) {
        match e.snapshots {
            Ok(s) => Some((delta_reasons(s.0, s.1, focus, cone, ids), delta_score(s.0, s.1, focus, cone, ids))),
            Err(_) => None,
        }
    } else {
        None
    }
}

/// The limitations one commit adds: the snapshot truncation notes of a compared commit, or
/// why its snapshots were unavailable.
pub open spec fn commit_limitations(e: CommitEvidence, focus_flows: bool, limits: DiagnosticLimits) -> Seq<Seq<char>> {
    if weighed(e, focus_flows, limits) && compares_snapshots(e, limits) {
        match e.snapshots {
            Ok(s) => truncation_notes(s.0, s.1).map_values(|n: Seq<char>| "commit "@ + e.sha@ + ": "@ + n),
            Err(m) => seq!["historical graph snapshot unavailable for "@ + e.sha@ + ": "@ + m@],
        }
    } else {
        Seq::empty()
    }
}

/// The limitations of a run of commits, in order.
pub open spec fn found_limitations(ev: Seq<CommitEvidence>, focus_flows: bool, limits: DiagnosticLimits) -> Seq<Seq<char>>
    decreases ev.len(),
{
    if ev.len() == 0 {
        Seq::empty()
    } else {
        found_limitations(ev.drop_last(), focus_flows, limits) + commit_limitations(ev.last(), focus_flows, limits)
    }
}

/// The candidates of a run of commit outcomes, in order.
pub open spec fn found_candidates(outs: Seq<Option<(HistoricalCandidate, Vec<String>)>>) -> Seq<HistoricalCandidate>
    decreases outs.len(),
{
    if outs.len() == 0 {
        Seq::empty()
    } else {
        match outs.last() {
            Some(o) => found_candidates(outs.drop_last()).push(o.0),
            None => found_candidates(outs.drop_last()),
        }
    }
}

/// The notes of a run of commit outcomes, in order.
pub open spec fn found_notes(outs: Seq<Option<(HistoricalCandidate, Vec<String>)>>) -> Seq<Seq<char>>
    decreases outs.len(),
{
    if outs.len() == 0 {
        Seq::empty()
    } else {
        match outs.last() {
            Some(o) => found_notes(outs.drop_last()) + views(o.1@),
            None => found_notes(outs.drop_last()),
        }
    }
}

/// The notes a walk starts with: a zero path bound and a zero snapshot bound.
pub open spec fn initial_notes(limits: DiagnosticLimits) -> Seq<Seq<char>> {
    (if limits.max_paths == 0 {
        seq!["historical candidate paths capped at zero"@]
    } else {
        Seq::empty()
    }) + (if limits.max_snapshot_bytes == 0 {
        seq!["historical snapshot bytes capped at zero"@]
    } else {
        Seq::empty()
    })
}

/// That `outs` are the outcomes of the commits `ev`, each decided from its evidence paths
/// `paths[i]`, and its snapshot delta where one was computed.
pub open spec fn walked(
    outs: Seq<Option<(HistoricalCandidate, Vec<String>)>>,
    paths: Seq<Seq<String>>,
    ev: Seq<CommitEvidence>,
    context_id: Seq<char>,
    basis: GraphBasis,
    project_id: Seq<char>,
    last_revision: Seq<char>,
    focus: Seq<Seq<char>>,
    cone: Seq<Seq<char>>,
    ids: Seq<String>,
    focus_flows: bool,
    files: Seq<SourceFile>,
    manifest_hash: Option<Seq<char>>,
    limits: DiagnosticLimits,
) -> bool {
    &&& outs.len() == ev.len()
    &&& paths.len() == ev.len()
    &&& forall|i: int| 0 <= i < ev.len() ==> {
        &&& views(#[trigger] paths[i]) == evidence_paths(ev[i].changed@, focus_flows)
        &&& candidate_outcome(
            outs[i],
            context_id,
            basis,
            project_id,
            last_revision,
            ev[i].sha@,
            ev[i].parents@,
            ev[i].summary@,
            paths[i],
            canonical_set(views(ev[i].changed@)).len(),
            focus,
            cone,
            commit_delta(ev[i], focus, cone, ids, limits),
            files,
            manifest_hash,
            ev[i].shown@,
            limits.max_paths,
        )
    }
}

/// `lims` with each note of a commit's snapshots appended, prefixed by the commit.
fn push_commit_notes(lims: &mut Vec<String>, sha: &str, notes: &Vec<String>)
    ensures
        views(final(lims)@) == views(old(lims)@) + views(notes@).map_values(|n: Seq<char>| "commit "@ + sha@ + ": "@ + n),
{
    let ghost base = views(lims@);
    let ghost f = |n: Seq<char>| "commit "@ + sha@ + ": "@ + n;
    let mut j: usize = 0;
    while j < notes.len()
        invariant
            j <= notes@.len(),
            views(lims@) == base + views(notes@).take(j as int).map_values(f),
            f == (|n: Seq<char>| "commit "@ + sha@ + ": "@ + n),
        decreases notes@.len() - j,
    {
        let mut o = "commit ".to_string();
        o.append(sha);
        o.append(": ");
        o.append(notes[j].as_str());
        let ghost before = views(lims@);
        lims.push(o);
        assert(views(lims@) =~= before.push(f(notes@[j as int]@)));
        assert(views(notes@).take(j as int + 1).map_values(f) =~= views(notes@).take(j as int).map_values(f).push(f(notes@[j as int]@)));
        j = j + 1;
    }
    assert(views(notes@).take(notes@.len() as int) =~= views(notes@));
}

/// The snapshot delta of a weighed commit whose snapshots are compared, with the
/// limitations it adds: its truncation notes, or why its snapshots were unavailable.
fn snapshot_delta(
    sha: &str,
    snapshots: Result<(HistoricalSnapshot, HistoricalSnapshot), String>,
    focus_paths: &Vec<String>,
    cone_paths: &Vec<String>,
    focus_flow_ids: &Vec<String>,
    lims: &mut Vec<String>,
) -> (d: Option<(Vec<String>, u32)>)
    requires
        snapshots matches Ok(s) ==> 3 * focus_flow_ids@.len() + s.0.files@.len() + s.1.files@.len() <= 13000000,
    ensures
        match snapshots {
            Ok(s) => {
                &&& d matches Some(x) && views(x.0@) == delta_reasons(s.0, s.1, views(focus_paths@), views(cone_paths@), focus_flow_ids@)
                    && x.1 == delta_score(s.0, s.1, views(focus_paths@), views(cone_paths@), focus_flow_ids@)
                    && x.1 <= 1000000000
                &&& views(final(lims)@) == views(old(lims)@) + truncation_notes(s.0, s.1).map_values(|n: Seq<char>| "commit "@ + sha@ + ": "@ + n)
            },
            Err(m) => d is None && views(final(lims)@) == views(old(lims)@).push("historical graph snapshot unavailable for "@ + sha@ + ": "@ + m@),
        },
{
    match snapshots {
        Ok(s) => {
            let (reasons, score, notes) = historical_delta_reasons(&s.0, &s.1, focus_paths, cone_paths, focus_flow_ids);
            push_commit_notes(lims, sha, &notes);
            Some((reasons, score))
        },
        Err(m) => {
            let mut o = "historical graph snapshot unavailable for ".to_string();
            o.append(sha);
            o.append(": ");
            o.append(m.as_str());
            let ghost before = views(lims@);
            lims.push(o);
            assert(views(lims@) =~= before.push("historical graph snapshot unavailable for "@ + sha@ + ": "@ + m@));
            None
        },
    }
}

/// Walks the inspected commits in log order. A commit with no evidence path, or under a
/// zero path bound, is passed over; otherwise its snapshots are compared where snapshot
/// bytes are allowed and it has a parent, and its candidate and notes are decided by
/// `commit_candidate`. Returns the candidates in commit order, the omissions (the zero
/// bounds first, then each commit's notes) and the limitations the snapshots added.
pub fn inspect_commits(
    context_id: &str,
    basis: &GraphBasis,
    project_id: &str,
    last_revision: &str,
    evidence: Vec<CommitEvidence>,
    focus_paths: &Vec<String>,
    cone_paths: &Vec<String>,
    focus_flow_ids: &Vec<String>,
    focus_flows: bool,
    current_files: &[SourceFile],
    manifest_hash: Option<&str>,
    limits: &DiagnosticLimits,
) -> (r: (Vec<HistoricalCandidate>, Vec<String>, Vec<String>))
    requires
        forall|i: int| 0 <= i < evidence@.len() ==>
            (#[trigger] evidence@[i]).shown@.len() == evidence_paths(evidence@[i].changed@, focus_flows).len(),
        forall|i: int| 0 <= i < evidence@.len() ==>
            ((#[trigger] evidence@[i]).snapshots matches Ok(s) ==> 3 * focus_flow_ids@.len() + s.0.files@.len() + s.1.files@.len() <= 13000000),
    ensures
        exists|outs: Seq<Option<(HistoricalCandidate, Vec<String>)>>, paths: Seq<Seq<String>>|
            {
                &&& #[trigger] walked(outs, paths, evidence@, context_id@, *basis, project_id@, last_revision@,
                    views(focus_paths@), views(cone_paths@), focus_flow_ids@, focus_flows, current_files@,
                    hash_view(manifest_hash), *limits)
                &&& r.0@ == found_candidates(outs)
                &&& views(r.1@) == initial_notes(*limits) + found_notes(outs)
            },
        views(r.2@) == found_limitations(evidence@, focus_flows, *limits),
{
    let ghost ev = evidence@;
    let ghost mh = hash_view(manifest_hash);
    let ghost focus = views(focus_paths@);
    let ghost cone = views(cone_paths@);
    let ghost mut outs: Seq<Option<(HistoricalCandidate, Vec<String>)>> = Seq::empty();
    let ghost mut pathss: Seq<Seq<String>> = Seq::empty();
    let mut candidates: Vec<HistoricalCandidate> = Vec::new();
    let mut notes: Vec<String> = Vec::new();
    let mut lims: Vec<String> = Vec::new();
    if limits.max_paths == 0 {
        notes.push("historical candidate paths capped at zero".to_string());
    }
    if limits.max_snapshot_bytes == 0 {
        notes.push("historical snapshot bytes capped at zero".to_string());
    }
    assert(views(notes@) =~= initial_notes(*limits));
    let mut rest = evidence;
    let n = rest.len();
    let mut i: usize = 0;
    assert(ev.take(0) =~= Seq::<CommitEvidence>::empty());
    assert(ev.skip(0) =~= ev);
    while i < n
        invariant
            i <= n,
            n == ev.len(),
            rest@ == ev.skip(i as int),
            forall|k: int| 0 <= k < ev.len() ==>
                (#[trigger] ev[k]).shown@.len() == evidence_paths(ev[k].changed@, focus_flows).len(),
            forall|k: int| 0 <= k < ev.len() ==>
                ((#[trigger] ev[k]).snapshots matches Ok(s) ==> 3 * focus_flow_ids@.len() + s.0.files@.len() + s.1.files@.len() <= 13000000),
            mh == hash_view(manifest_hash),
            focus == views(focus_paths@),
            cone == views(cone_paths@),
            walked(outs, pathss, ev.take(i as int), context_id@, *basis, project_id@, last_revision@,
                focus, cone, focus_flow_ids@, focus_flows, current_files@, mh, *limits),
            candidates@ == found_candidates(outs),
            views(notes@) == initial_notes(*limits) + found_notes(outs),
            views(lims@) == found_limitations(ev.take(i as int), focus_flows, *limits),
        decreases n - i,
    {
        let e = rest.remove(0);
        assert(e == ev[i as int]);
        let ghost eg = e;
        let ghost lims_before = views(lims@);
        let CommitEvidence { sha, parents, summary, changed, shown, snapshots } = e;
        let (paths, distinct) = commit_evidence_paths(changed, focus_flows);
        let ghost pg = paths@;
        let mut delta: Option<(Vec<String>, u32)> = None;
        if paths.len() > 0 && limits.max_paths > 0 && limits.max_snapshot_bytes > 0 && parents.len() > 0 {
            delta = snapshot_delta(sha.as_str(), snapshots, focus_paths, cone_paths, focus_flow_ids, &mut lims);
        }
        assert(views(lims@) =~= lims_before + commit_limitations(eg, focus_flows, *limits));
        let out = commit_candidate(
            context_id,
            basis,
            project_id,
            last_revision,
            sha.as_str(),
            parents,
            summary,
            paths,
            distinct,
            focus_paths,
            cone_paths,
            delta,
            current_files,
            manifest_hash,
            shown.as_slice(),
            limits.max_paths,
        );
        let ghost o = out;
        let ghost notes_before = views(notes@);
        match out {
            Some((c, more)) => {
                candidates.push(c);
                let mut more = more;
                let ghost m0 = more@;
                notes.append(&mut more);
                assert(views(notes@) =~= notes_before + views(m0));
            },
            None => {},
        }
        proof {
            let t = ev.take(i as int + 1);
            assert(t.drop_last() =~= ev.take(i as int));
            assert(t.last() == eg);
            let outs1 = outs.push(o);
            assert(outs1.drop_last() =~= outs);
            assert(found_candidates(outs1) == match o { Some(x) => found_candidates(outs).push(x.0), None => found_candidates(outs) });
            let pathss1 = pathss.push(pg);
            outs = outs1;
            pathss = pathss1;
        }
        i = i + 1;
        proof {
            assert(ev.skip(i as int) =~= ev.skip(i as int - 1).drop_first());
        }
    }
    assert(ev.take(n as int) =~= ev);
    (candidates, notes, lims)
}

} // verus!
