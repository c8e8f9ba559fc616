//! Structural reasons a commit is relevant to a diagnostic context, from the graph
//! snapshots of the commit and of its first parent.

use vstd::prelude::*;

use crate::flow::manifest::{opt_view, record_view};
use crate::flow::related_tests::{related_view, related_views};
use crate::model::context_basis::canonical_set;
use crate::model::diagnostic::HistoricalSnapshot;
use crate::model::flow::{ContextFlow, EntryRecord, RelatedTestRecord};
use crate::model::graph::{GraphEdge, GraphNode};
use crate::model::schemas::SourceFile;
use crate::order::{contains_str, sorted_unique, str_less, str_lt, strictly_sorted};
use crate::text::{str_eq, views};

verus! {

broadcast use vstd::string::group_string_axioms;

/// The fingerprint of the last flow with the given id.
pub open spec fn flow_fingerprint(flows: Seq<ContextFlow>, id: Seq<char>) -> Option<Seq<char>>
    decreases flows.len(),
{
    if flows.len() == 0 {
        None
    } else if flows.last().flow_id@ == id {
        Some(flows.last().fingerprint@)
    } else {
        flow_fingerprint(flows.drop_last(), id)
    }
}

/// The first flow with the given id.
pub open spec fn first_flow(flows: Seq<ContextFlow>, id: Seq<char>) -> Option<ContextFlow>
    decreases flows.len(),
{
    if flows.len() == 0 {
        None
    } else if flows[0].flow_id@ == id {
        Some(flows[0])
    } else {
        first_flow(flows.drop_first(), id)
    }
}

/// The entry kind and key of a flow, if there is one.
pub open spec fn entry_of(f: Option<ContextFlow>) -> Option<(Seq<char>, Seq<char>)> {
    match f {
        Some(x) => Some((x.entry_kind@, x.entry_key@)),
        None => None,
    }
}

/// The related-test records of a flow; none without one.
pub open spec fn related_of(f: Option<ContextFlow>) -> Seq<(Seq<char>, Seq<char>, Seq<char>, Seq<char>, Seq<char>, Seq<char>, Seq<char>)> {
    match f {
        Some(x) => related_views(x.related_tests@),
        None => Seq::empty(),
    }
}

/// The reasons one focused flow gives: its fingerprint, its entry or its related tests
/// differ between the two snapshots.
pub open spec fn flow_reasons(cur: HistoricalSnapshot, par: HistoricalSnapshot, id: Seq<char>) -> Seq<Seq<char>> {
    (if flow_fingerprint(cur.flows@, id) != flow_fingerprint(par.flows@, id) {
        seq!["focused-flow-changed"@]
    } else {
        Seq::empty()
    }) + (if entry_of(first_flow(cur.flows@, id)) != entry_of(first_flow(par.flows@, id)) {
        seq!["focused-entry-changed"@]
    } else {
        Seq::empty()
    }) + (if related_of(first_flow(cur.flows@, id)) != related_of(first_flow(par.flows@, id)) {
        seq!["related-test-structure-changed"@]
    } else {
        Seq::empty()
    })
}

/// The reasons of the focused flows, in order.
pub open spec fn flows_reasons(cur: HistoricalSnapshot, par: HistoricalSnapshot, ids: Seq<String>) -> Seq<Seq<char>>
    decreases ids.len(),
{
    if ids.len() == 0 {
        Seq::empty()
    } else {
        flows_reasons(cur, par, ids.drop_last()) + flow_reasons(cur, par, ids.last()@)
    }
}

/// The first entry record with the given kind and key.
pub open spec fn first_entry(records: Seq<EntryRecord>, kind: Seq<char>, key: Seq<char>) -> Option<EntryRecord>
    decreases records.len(),
{
    if records.len() == 0 {
        None
    } else if records[0].kind@ == kind && records[0].key@ == key {
        Some(records[0])
    } else {
        first_entry(records.drop_first(), kind, key)
    }
}

/// An entry record, if there is one, as its plain values.
pub open spec fn opt_record(
    r: Option<EntryRecord>,
) -> Option<(Seq<char>, Seq<char>, Option<Seq<char>>, Option<Seq<char>>, Option<Seq<char>>, Seq<char>, Seq<char>)> {
    match r {
        Some(x) => Some(record_view(x)),
        None => None,
    }
}

/// Whether the entry of a focused flow changed: the flow appeared, or the entry record
/// it names differs between the two snapshots.
pub open spec fn entry_changed(cur: HistoricalSnapshot, par: HistoricalSnapshot, id: Seq<char>) -> bool {
    match first_flow(cur.flows@, id) {
        None => first_flow(par.flows@, id) is Some,
        Some(cf) => opt_record(first_entry(cur.entry_evidence.records@, cf.entry_kind@, cf.entry_key@))
            != opt_record(first_entry(par.entry_evidence.records@, cf.entry_kind@, cf.entry_key@)),
    }
}

/// Whether the entry of any focused flow changed.
pub open spec fn any_entry_changed(cur: HistoricalSnapshot, par: HistoricalSnapshot, ids: Seq<String>) -> bool {
    exists|k: int| 0 <= k < ids.len() && entry_changed(cur, par, #[trigger] ids[k]@)
}

/// The hash of the last file with the given path.
pub open spec fn file_hash(files: Seq<SourceFile>, path: Seq<char>) -> Option<Seq<char>>
    decreases files.len(),
{
    if files.len() == 0 {
        None
    } else if files.last().path@ == path {
        Some(files.last().hash@)
    } else {
        file_hash(files.drop_last(), path)
    }
}

/// The paths of a list of files.
pub open spec fn file_paths(files: Seq<SourceFile>) -> Seq<Seq<char>> {
    files.map_values(|f: SourceFile| f.path@)
}

/// The reason a path gives: a changed file in focus, else a changed file in the
/// dependency cone.
pub open spec fn file_reason(
    cur: HistoricalSnapshot,
    par: HistoricalSnapshot,
    focus: Seq<Seq<char>>,
    cone: Seq<Seq<char>>,
    path: Seq<char>,
) -> Seq<Seq<char>> {
    if file_hash(cur.files@, path) == file_hash(par.files@, path) {
        Seq::empty()
    } else if focus.contains(path) {
        seq!["focused-node-changed"@]
    } else if cone.contains(path) {
        seq!["dependency-cone-node-changed"@]
    } else {
        Seq::empty()
    }
}

/// The reasons of the given paths, in order.
pub open spec fn files_reasons(
    cur: HistoricalSnapshot,
    par: HistoricalSnapshot,
    focus: Seq<Seq<char>>,
    cone: Seq<Seq<char>>,
    paths: Seq<Seq<char>>,
) -> Seq<Seq<char>>
    decreases paths.len(),
{
    if paths.len() == 0 {
        Seq::empty()
    } else {
        files_reasons(cur, par, focus, cone, paths.drop_last()) + file_reason(cur, par, focus, cone, paths.last())
    }
}

/// The paths of the files of either snapshot, each once, in ascending order.
pub open spec fn all_file_paths(cur: HistoricalSnapshot, par: HistoricalSnapshot) -> Seq<Seq<char>> {
    canonical_set(file_paths(cur.files@) + file_paths(par.files@))
}

/// Whether some edge goes from `from` to `to` with the given kind.
pub open spec fn has_edge(edges: Seq<GraphEdge>, from: Seq<char>, to: Seq<char>, kind: Seq<char>) -> bool {
    exists|i: int|
        0 <= i < edges.len() && (#[trigger] edges[i]).from@ == from && edges[i].to@ == to && edges[i].kind@ == kind
}

/// Whether a call, construction or import from `from` to `to` is in one snapshot only.
pub open spec fn pair_changed(cur: HistoricalSnapshot, par: HistoricalSnapshot, from: Seq<char>, to: Seq<char>) -> bool {
    ||| has_edge(cur.edges@, from, to, "calls"@) != has_edge(par.edges@, from, to, "calls"@)
    ||| has_edge(cur.edges@, from, to, "constructs"@) != has_edge(par.edges@, from, to, "constructs"@)
    ||| has_edge(cur.edges@, from, to, "imports"@) != has_edge(par.edges@, from, to, "imports"@)
}

/// The path of the last node with the given id that has a path.
pub open spec fn node_path(nodes: Seq<GraphNode>, id: Seq<char>) -> Option<Seq<char>>
    decreases nodes.len(),
{
    if nodes.len() == 0 {
        None
    } else if nodes.last().id@ == id && nodes.last().path is Some {
        opt_view(nodes.last().path)
    } else {
        node_path(nodes.drop_last(), id)
    }
}

/// The path of a node: as the commit's snapshot gives it, else as its parent's does.
pub open spec fn either_node_path(cur: HistoricalSnapshot, par: HistoricalSnapshot, id: Seq<char>) -> Option<Seq<char>> {
    match node_path(cur.nodes@, id) {
        Some(p) => Some(p),
        None => node_path(par.nodes@, id),
    }
}

/// Whether either end of an edge lies on one of the given paths.
pub open spec fn touches(
    cur: HistoricalSnapshot,
    par: HistoricalSnapshot,
    from: Seq<char>,
    to: Seq<char>,
    paths: Seq<Seq<char>>,
) -> bool {
    ||| (either_node_path(cur, par, from) matches Some(p) && paths.contains(p))
    ||| (either_node_path(cur, par, to) matches Some(p) && paths.contains(p))
}

/// Whether the changed edge pair touches the focus.
pub open spec fn focus_pair(
    cur: HistoricalSnapshot,
    par: HistoricalSnapshot,
    focus: Seq<Seq<char>>,
    from: Seq<char>,
    to: Seq<char>,
) -> bool {
    pair_changed(cur, par, from, to) && touches(cur, par, from, to, focus)
}

/// Whether the changed edge pair misses the focus but touches the dependency cone.
pub open spec fn cone_pair(
    cur: HistoricalSnapshot,
    par: HistoricalSnapshot,
    focus: Seq<Seq<char>>,
    cone: Seq<Seq<char>>,
    from: Seq<char>,
    to: Seq<char>,
) -> bool {
    pair_changed(cur, par, from, to) && !touches(cur, par, from, to, focus) && touches(cur, par, from, to, cone)
}

/// The order of edge pairs: by source, then by target.
pub open spec fn pair_lt(a: (Seq<char>, Seq<char>), b: (Seq<char>, Seq<char>)) -> bool {
    str_lt(a.0, b.0) || (a.0 == b.0 && str_lt(a.1, b.1))
}

/// The edge reasons: each once, in the order of the first changed edge pair that gives it.
pub open spec fn edge_reasons(
    cur: HistoricalSnapshot,
    par: HistoricalSnapshot,
    focus: Seq<Seq<char>>,
    cone: Seq<Seq<char>>,
) -> Seq<Seq<char>> {
    let f = exists|a: Seq<char>, b: Seq<char>| focus_pair(cur, par, focus, a, b);
    let c = exists|a: Seq<char>, b: Seq<char>| cone_pair(cur, par, focus, cone, a, b);
    if f && c {
        if exists|a: Seq<char>, b: Seq<char>|
            focus_pair(cur, par, focus, a, b) && forall|x: Seq<char>, y: Seq<char>|
                cone_pair(cur, par, focus, cone, x, y) ==> pair_lt((a, b), (x, y)) {
            seq!["focused-edge-changed"@, "dependency-cone-edge-changed"@]
        } else {
            seq!["dependency-cone-edge-changed"@, "focused-edge-changed"@]
        }
    } else if f {
        seq!["focused-edge-changed"@]
    } else if c {
        seq!["dependency-cone-edge-changed"@]
    } else {
        Seq::empty()
    }
}

/// The reasons before the file and edge reasons: those of the focused flows, then a
/// changed focused entry unless a flow already gave that reason.
pub open spec fn flow_and_entry_reasons(
    cur: HistoricalSnapshot,
    par: HistoricalSnapshot,
    ids: Seq<String>,
) -> Seq<Seq<char>> {
    let rs = flows_reasons(cur, par, ids);
    if any_entry_changed(cur, par, ids) && !rs.contains("focused-entry-changed"@) {
        rs.push("focused-entry-changed"@)
    } else {
        rs
    }
}

/// The score the focused flow adds: 75 for a changed fingerprint, 60 for a changed
/// entry and 25 for changed related tests.
pub open spec fn flow_score(cur: HistoricalSnapshot, par: HistoricalSnapshot, id: Seq<char>) -> nat {
    (if flow_fingerprint(cur.flows@, id) != flow_fingerprint(par.flows@, id) { 75nat } else { 0nat })
        + (if entry_of(first_flow(cur.flows@, id)) != entry_of(first_flow(par.flows@, id)) { 60nat } else { 0nat })
        + (if related_of(first_flow(cur.flows@, id)) != related_of(first_flow(par.flows@, id)) { 25nat } else { 0nat })
}

/// The score of the focused flows.
pub open spec fn flows_score(cur: HistoricalSnapshot, par: HistoricalSnapshot, ids: Seq<String>) -> nat
    decreases ids.len(),
{
    if ids.len() == 0 {
        0
    } else {
        flows_score(cur, par, ids.drop_last()) + flow_score(cur, par, ids.last()@)
    }
}

/// The score of the focused flows and entries: 60 more for a changed focused entry that
/// no flow already reported.
pub open spec fn flow_and_entry_score(cur: HistoricalSnapshot, par: HistoricalSnapshot, ids: Seq<String>) -> nat {
    flows_score(cur, par, ids) + if any_entry_changed(cur, par, ids) && !flows_reasons(cur, par, ids).contains(
        "focused-entry-changed"@,
    ) {
        60nat
    } else {
        0nat
    }
}

/// The score a path adds: 35 for a changed file in focus, else 20 for a changed file in
/// the dependency cone.
pub open spec fn file_score(
    cur: HistoricalSnapshot,
    par: HistoricalSnapshot,
    focus: Seq<Seq<char>>,
    cone: Seq<Seq<char>>,
    path: Seq<char>,
) -> nat {
    if file_hash(cur.files@, path) == file_hash(par.files@, path) {
        0
    } else if focus.contains(path) {
        35
    } else if cone.contains(path) {
        20
    } else {
        0
    }
}

/// The score of the given paths.
pub open spec fn files_score(
    cur: HistoricalSnapshot,
    par: HistoricalSnapshot,
    focus: Seq<Seq<char>>,
    cone: Seq<Seq<char>>,
    paths: Seq<Seq<char>>,
) -> nat
    decreases paths.len(),
{
    if paths.len() == 0 {
        0
    } else {
        files_score(cur, par, focus, cone, paths.drop_last()) + file_score(cur, par, focus, cone, paths.last())
    }
}

/// The score of the edges: 45 when a changed edge touches the focus, 25 when one touches
/// only the dependency cone.
pub open spec fn edge_score(
    cur: HistoricalSnapshot,
    par: HistoricalSnapshot,
    focus: Seq<Seq<char>>,
    cone: Seq<Seq<char>>,
) -> nat {
    (if exists|a: Seq<char>, b: Seq<char>| focus_pair(cur, par, focus, a, b) { 45nat } else { 0nat })
        + (if exists|a: Seq<char>, b: Seq<char>| cone_pair(cur, par, focus, cone, a, b) { 25nat } else { 0nat })
}

/// The score of a commit: the sum of what its reasons add.
pub open spec fn delta_score(
    cur: HistoricalSnapshot,
    par: HistoricalSnapshot,
    focus: Seq<Seq<char>>,
    cone: Seq<Seq<char>>,
    ids: Seq<String>,
) -> nat {
    flow_and_entry_score(cur, par, ids) + files_score(cur, par, focus, cone, all_file_paths(cur, par))
        + edge_score(cur, par, focus, cone)
}

/// The score of a list of edge reasons: 45 for the focused one, 25 for the other.
pub open spec fn edge_prefix_score(rs: Seq<Seq<char>>) -> nat
    decreases rs.len(),
{
    if rs.len() == 0 {
        0
    } else {
        edge_prefix_score(rs.drop_last()) + if rs.last() == "focused-edge-changed"@ {
            45nat
        } else {
            25nat
        }
    }
}

/// All reasons of a commit, in order.
pub open spec fn delta_reasons(
    cur: HistoricalSnapshot,
    par: HistoricalSnapshot,
    focus: Seq<Seq<char>>,
    cone: Seq<Seq<char>>,
    ids: Seq<String>,
) -> Seq<Seq<char>> {
    flow_and_entry_reasons(cur, par, ids) + files_reasons(cur, par, focus, cone, all_file_paths(cur, par))
        + edge_reasons(cur, par, focus, cone)
}

fn opt_eq(a: &Option<String>, b: &Option<String>) -> (r: bool)
    ensures
        r == (opt_view(*a) == opt_view(*b)),
{
    match (a, b) {
        (Some(x), Some(y)) => str_eq(x.as_str(), y.as_str()),
        (None, None) => true,
        _ => false,
    }
}

fn last_fingerprint(flows: &Vec<ContextFlow>, id: &str) -> (r: Option<String>)
    ensures
        opt_view(r) == flow_fingerprint(flows@, id@),
{
    let mut i: usize = flows.len();
    assert(flows@.take(flows@.len() as int) =~= flows@);
    while i > 0
        invariant
            i <= flows@.len(),
            flow_fingerprint(flows@, id@) == flow_fingerprint(flows@.take(i as int), id@),
        decreases i,
    {
        assert(flows@.take(i as int).drop_last() =~= flows@.take(i as int - 1));
        if str_eq(flows[i - 1].flow_id.as_str(), id) {
            return Some(flows[i - 1].fingerprint.clone());
        }
        i = i - 1;
    }
    None
}

fn find_flow(flows: &Vec<ContextFlow>, id: &str) -> (r: Option<usize>)
    ensures
        match r {
            Some(i) => i < flows@.len() && first_flow(flows@, id@) == Some(flows@[i as int]),
            None => first_flow(flows@, id@) is None,
        },
{
    let mut i: usize = 0;
    assert(flows@.skip(0) =~= flows@);
    while i < flows.len()
        invariant
            i <= flows@.len(),
            first_flow(flows@, id@) == first_flow(flows@.skip(i as int), id@),
        decreases flows@.len() - i,
    {
        assert(flows@.skip(i as int)[0] == flows@[i as int]);
        assert(flows@.skip(i as int).drop_first() =~= flows@.skip(i as int + 1));
        if str_eq(flows[i].flow_id.as_str(), id) {
            return Some(i);
        }
        i = i + 1;
    }
    None
}

fn same_related_record(a: &RelatedTestRecord, b: &RelatedTestRecord) -> (r: bool)
    ensures
        r == (related_view(*a) == related_view(*b)),
{
    str_eq(a.test_path.as_str(), b.test_path.as_str()) && str_eq(a.test_node_id.as_str(), b.test_node_id.as_str())
        && str_eq(a.target_node_id.as_str(), b.target_node_id.as_str()) && str_eq(a.relation.as_str(), b.relation.as_str())
        && str_eq(a.strength.as_str(), b.strength.as_str()) && str_eq(a.status.as_str(), b.status.as_str())
        && str_eq(a.reason.as_str(), b.reason.as_str())
}

fn same_related(a: &Vec<RelatedTestRecord>, b: &Vec<RelatedTestRecord>) -> (r: bool)
    ensures
        r == (related_views(a@) == related_views(b@)),
{
    if a.len() != b.len() {
        assert(related_views(a@).len() != related_views(b@).len());
        return false;
    }
    let mut i: usize = 0;
    while i < a.len()
        invariant
            a@.len() == b@.len(),
            i <= a@.len(),
            forall|k: int| 0 <= k < i ==> related_view(#[trigger] a@[k]) == related_view(b@[k]),
        decreases a@.len() - i,
    {
        if !same_related_record(&a[i], &b[i]) {
            assert(related_views(a@)[i as int] != related_views(b@)[i as int]);
            return false;
        }
        i = i + 1;
    }
    assert(related_views(a@) =~= related_views(b@));
    true
}

fn related_or_empty(flows: &Vec<ContextFlow>, found: Option<usize>) -> (r: Vec<RelatedTestRecord>)
    requires
        found matches Some(i) ==> i < flows@.len(),
    ensures
        related_views(r@) == match found {
            Some(i) => related_views(flows@[i as int].related_tests@),
            None => Seq::empty(),
        },
{
    match found {
        Some(i) => {
            let mut out: Vec<RelatedTestRecord> = Vec::new();
            let mut k: usize = 0;
            while k < flows[i].related_tests.len()
                invariant
                    i < flows@.len(),
                    k <= flows@[i as int].related_tests@.len(),
                    related_views(out@) == related_views(flows@[i as int].related_tests@.take(k as int)),
                decreases flows@[i as int].related_tests@.len() - k,
            {
                let ghost before = out@;
                let ghost all = flows@[i as int].related_tests@;
                out.push(flows[i].related_tests[k].clone());
                assert(all.take(k as int + 1) =~= all.take(k as int).push(all[k as int]));
                assert(related_views(out@) =~= related_views(before).push(related_view(all[k as int])));
                assert(related_views(out@) =~= related_views(all.take(k as int + 1)));
                k = k + 1;
            }
            assert(flows@[i as int].related_tests@.take(flows@[i as int].related_tests@.len() as int)
                =~= flows@[i as int].related_tests@);
            out
        },
        None => {
            let out: Vec<RelatedTestRecord> = Vec::new();
            assert(related_views(out@) =~= Seq::empty());
            out
        },
    }
}

fn find_entry(records: &Vec<EntryRecord>, kind: &str, key: &str) -> (r: Option<usize>)
    ensures
        match r {
            Some(i) => i < records@.len() && first_entry(records@, kind@, key@) == Some(records@[i as int]),
            None => first_entry(records@, kind@, key@) is None,
        },
{
    let mut i: usize = 0;
    assert(records@.skip(0) =~= records@);
    while i < records.len()
        invariant
            i <= records@.len(),
            first_entry(records@, kind@, key@) == first_entry(records@.skip(i as int), kind@, key@),
        decreases records@.len() - i,
    {
        assert(records@.skip(i as int)[0] == records@[i as int]);
        assert(records@.skip(i as int).drop_first() =~= records@.skip(i as int + 1));
        if str_eq(records[i].kind.as_str(), kind) && str_eq(records[i].key.as_str(), key) {
            return Some(i);
        }
        i = i + 1;
    }
    None
}

fn same_record(a: &EntryRecord, b: &EntryRecord) -> (r: bool)
    ensures
        r == (record_view(*a) == record_view(*b)),
{
    str_eq(a.key.as_str(), b.key.as_str()) && str_eq(a.kind.as_str(), b.kind.as_str()) && opt_eq(&a.runner, &b.runner)
        && opt_eq(&a.target_path, &b.target_path) && opt_eq(&a.target_node_id, &b.target_node_id)
        && str_eq(a.status.as_str(), b.status.as_str()) && str_eq(a.reason.as_str(), b.reason.as_str())
}

fn entry_changed_exec(cur: &HistoricalSnapshot, par: &HistoricalSnapshot, id: &str) -> (r: bool)
    ensures
        r == entry_changed(*cur, *par, id@),
{
    match find_flow(&cur.flows, id) {
        None => find_flow(&par.flows, id).is_some(),
        Some(c) => {
            let flow = &cur.flows[c];
            let a = find_entry(&cur.entry_evidence.records, flow.entry_kind.as_str(), flow.entry_key.as_str());
            let b = find_entry(&par.entry_evidence.records, flow.entry_kind.as_str(), flow.entry_key.as_str());
            match (a, b) {
                (Some(x), Some(y)) => !same_record(&cur.entry_evidence.records[x], &par.entry_evidence.records[y]),
                (None, None) => false,
                _ => true,
            }
        },
    }
}

fn last_file_hash(files: &Vec<SourceFile>, path: &str) -> (r: Option<String>)
    ensures
        opt_view(r) == file_hash(files@, path@),
{
    let mut i: usize = files.len();
    assert(files@.take(files@.len() as int) =~= files@);
    while i > 0
        invariant
            i <= files@.len(),
            file_hash(files@, path@) == file_hash(files@.take(i as int), path@),
        decreases i,
    {
        assert(files@.take(i as int).drop_last() =~= files@.take(i as int - 1));
        if str_eq(files[i - 1].path.as_str(), path) {
            return Some(files[i - 1].hash.clone());
        }
        i = i - 1;
    }
    None
}

fn has_edge_exec(edges: &Vec<GraphEdge>, from: &str, to: &str, kind: &str) -> (r: bool)
    ensures
        r == has_edge(edges@, from@, to@, kind@),
{
    let mut i: usize = 0;
    while i < edges.len()
        invariant
            i <= edges@.len(),
            forall|k: int|
                0 <= k < i ==> !((#[trigger] edges@[k]).from@ == from@ && edges@[k].to@ == to@ && edges@[k].kind@
                    == kind@),
        decreases edges@.len() - i,
    {
        if str_eq(edges[i].from.as_str(), from) && str_eq(edges[i].to.as_str(), to) && str_eq(
            edges[i].kind.as_str(),
            kind,
        ) {
            return true;
        }
        i = i + 1;
    }
    false
}

fn pair_changed_exec(cur: &HistoricalSnapshot, par: &HistoricalSnapshot, from: &str, to: &str) -> (r: bool)
    ensures
        r == pair_changed(*cur, *par, from@, to@),
{
    has_edge_exec(&cur.edges, from, to, "calls") != has_edge_exec(&par.edges, from, to, "calls")
        || has_edge_exec(&cur.edges, from, to, "constructs") != has_edge_exec(&par.edges, from, to, "constructs")
        || has_edge_exec(&cur.edges, from, to, "imports") != has_edge_exec(&par.edges, from, to, "imports")
}

fn last_node_path(nodes: &Vec<GraphNode>, id: &str) -> (r: Option<String>)
    ensures
        opt_view(r) == node_path(nodes@, id@),
{
    let mut i: usize = nodes.len();
    assert(nodes@.take(nodes@.len() as int) =~= nodes@);
    while i > 0
        invariant
            i <= nodes@.len(),
            node_path(nodes@, id@) == node_path(nodes@.take(i as int), id@),
        decreases i,
    {
        assert(nodes@.take(i as int).drop_last() =~= nodes@.take(i as int - 1));
        if str_eq(nodes[i - 1].id.as_str(), id) && nodes[i - 1].path.is_some() {
            return nodes[i - 1].path.clone();
        }
        i = i - 1;
    }
    None
}

fn on_paths(path: &Option<String>, paths: &Vec<String>) -> (r: bool)
    ensures
        r == (opt_view(*path) matches Some(p) && views(paths@).contains(p)),
{
    match path {
        None => false,
        Some(p) => contains_str(paths, p.as_str()),
    }
}

fn touches_exec(
    cur: &HistoricalSnapshot,
    par: &HistoricalSnapshot,
    from: &str,
    to: &str,
    paths: &Vec<String>,
) -> (r: bool)
    ensures
        r == touches(*cur, *par, from@, to@, views(paths@)),
{
    let from_path = match last_node_path(&cur.nodes, from) {
        Some(p) => Some(p),
        None => last_node_path(&par.nodes, from),
    };
    let to_path = match last_node_path(&cur.nodes, to) {
        Some(p) => Some(p),
        None => last_node_path(&par.nodes, to),
    };
    on_paths(&from_path, paths) || on_paths(&to_path, paths)
}

fn push_reason(reasons: &mut Vec<String>, reason: &str)
    ensures
        views(final(reasons)@) == views(old(reasons)@).push(reason@),
        final(reasons)@.len() == old(reasons)@.len() + 1,
{
    let ghost before = views(reasons@);
    reasons.push(reason.to_string());
    assert(views(reasons@) =~= before.push(reason@));
}

/// Pairs are ordered totally, strictly and transitively.
proof fn lemma_pair_order(a: (Seq<char>, Seq<char>), b: (Seq<char>, Seq<char>), c: (Seq<char>, Seq<char>))
    ensures
        !pair_lt(a, a),
        pair_lt(a, b) ==> !pair_lt(b, a),
        pair_lt(a, b) && pair_lt(b, c) ==> pair_lt(a, c),
        a == b || pair_lt(a, b) || pair_lt(b, a),
{
    broadcast use crate::order::lemma_str_lt_order;
    crate::order::lemma_str_lt_total(a.0, b.0);
    crate::order::lemma_str_lt_total(a.1, b.1);
}

fn pair_less(a: &str, b: &str, c: &str, d: &str) -> (r: bool)
    ensures
        r == pair_lt((a@, b@), (c@, d@)),
{
    str_less(a, c) || (str_eq(a, c) && str_less(b, d))
}

/// The paths of the files of either snapshot, each once, in ascending order.
pub fn distinct_paths(cur: &HistoricalSnapshot, par: &HistoricalSnapshot) -> (r: Vec<String>)
    ensures
        views(r@) == all_file_paths(*cur, *par),
        r@.len() <= cur.files@.len() + par.files@.len(),
{
    let mut all: Vec<String> = Vec::new();
    let mut i: usize = 0;
    while i < cur.files.len()
        invariant
            i <= cur.files@.len(),
            views(all@) == file_paths(cur.files@.take(i as int)),
        decreases cur.files@.len() - i,
    {
        let ghost before = views(all@);
        all.push(cur.files[i].path.clone());
        assert(views(all@) =~= before.push(cur.files@[i as int].path@));
        assert(file_paths(cur.files@.take(i as int + 1)) =~= file_paths(cur.files@.take(i as int)).push(
            cur.files@[i as int].path@,
        ));
        i = i + 1;
    }
    assert(cur.files@.take(cur.files@.len() as int) =~= cur.files@);
    let mut j: usize = 0;
    while j < par.files.len()
        invariant
            j <= par.files@.len(),
            views(all@) == file_paths(cur.files@) + file_paths(par.files@.take(j as int)),
        decreases par.files@.len() - j,
    {
        let ghost before = views(all@);
        all.push(par.files[j].path.clone());
        assert(views(all@) =~= before.push(par.files@[j as int].path@));
        assert(file_paths(par.files@.take(j as int + 1)) =~= file_paths(par.files@.take(j as int)).push(
            par.files@[j as int].path@,
        ));
        j = j + 1;
    }
    assert(par.files@.take(par.files@.len() as int) =~= par.files@);
    let ghost joined = views(all@);
    assert(all@.len() == joined.len());
    let r = sorted_unique(all);
    proof {
        let t = all_file_paths(*cur, *par);
        assert(joined == file_paths(cur.files@) + file_paths(par.files@));
        let u = choose|u: Seq<Seq<char>>| strictly_sorted(u) && u.to_set() == joined.to_set();
        assert(strictly_sorted(views(r@)) && views(r@).to_set() == joined.to_set());
        crate::order::lemma_strictly_sorted_unique(views(r@), u);
        assert(views(r@).len() <= joined.len()) by {
            joined.lemma_cardinality_of_set();
            assert(views(r@).no_duplicates()) by {
                assert forall|a: int, b: int|
                    0 <= a < views(r@).len() && 0 <= b < views(r@).len() && a != b
                    implies views(r@)[a] != views(r@)[b] by {
                    broadcast use crate::order::lemma_str_lt_order;
                    if a < b {
                        assert(str_lt(views(r@)[a], views(r@)[b]));
                    } else {
                        assert(str_lt(views(r@)[b], views(r@)[a]));
                    }
                }
            }
            views(r@).unique_seq_to_set();
        }
    }
    r
}

/// The source and target of an edge.
pub open spec fn edge_pair(e: GraphEdge) -> (Seq<char>, Seq<char>) {
    (e.from@, e.to@)
}

/// Whether pair `q` is `m` or comes after it.
pub open spec fn not_below(m: (Seq<char>, Seq<char>), q: (Seq<char>, Seq<char>)) -> bool {
    q == m || pair_lt(m, q)
}

/// Whether `best` is the least pair with property `p` among the edges scanned so far.
pub open spec fn least_scanned(
    best: Option<(String, String)>,
    p: spec_fn(Seq<char>, Seq<char>) -> bool,
    cur_edges: Seq<GraphEdge>,
    i: int,
    par_edges: Seq<GraphEdge>,
    j: int,
) -> bool {
    match best {
        None => {
            &&& forall|k: int| 0 <= k < i ==> !p((#[trigger] cur_edges[k]).from@, cur_edges[k].to@)
            &&& forall|k: int| 0 <= k < j ==> !p((#[trigger] par_edges[k]).from@, par_edges[k].to@)
        },
        Some((x, y)) => {
            &&& p(x@, y@)
            &&& forall|k: int|
                0 <= k < i && p((#[trigger] cur_edges[k]).from@, cur_edges[k].to@) ==> not_below(
                    (x@, y@),
                    edge_pair(cur_edges[k]),
                )
            &&& forall|k: int|
                0 <= k < j && p((#[trigger] par_edges[k]).from@, par_edges[k].to@) ==> not_below(
                    (x@, y@),
                    edge_pair(par_edges[k]),
                )
        },
    }
}

/// A changed pair is the pair of some edge of one of the snapshots.
proof fn lemma_changed_pair_has_edge(cur: HistoricalSnapshot, par: HistoricalSnapshot, a: Seq<char>, b: Seq<char>)
    requires
        pair_changed(cur, par, a, b),
    ensures
        (exists|k: int| 0 <= k < cur.edges@.len() && edge_pair(#[trigger] cur.edges@[k]) == (a, b)) || (exists|k: int|
            0 <= k < par.edges@.len() && edge_pair(#[trigger] par.edges@[k]) == (a, b)),
{
    let kinds = seq!["calls"@, "constructs"@, "imports"@];
    if has_edge(cur.edges@, a, b, "calls"@) || has_edge(cur.edges@, a, b, "constructs"@) || has_edge(
        cur.edges@,
        a,
        b,
        "imports"@,
    ) {
        let k = choose|k: int|
            0 <= k < cur.edges@.len() && (#[trigger] cur.edges@[k]).from@ == a && cur.edges@[k].to@ == b && (
            cur.edges@[k].kind@ == "calls"@ || cur.edges@[k].kind@ == "constructs"@ || cur.edges@[k].kind@
                == "imports"@);
        assert(edge_pair(cur.edges@[k]) == (a, b));
    } else {
        let k = choose|k: int|
            0 <= k < par.edges@.len() && (#[trigger] par.edges@[k]).from@ == a && par.edges@[k].to@ == b && (
            par.edges@[k].kind@ == "calls"@ || par.edges@[k].kind@ == "constructs"@ || par.edges@[k].kind@
                == "imports"@);
        assert(edge_pair(par.edges@[k]) == (a, b));
    }
}

fn keep_least(best: Option<(String, String)>, from: &str, to: &str) -> (r: Option<(String, String)>)
    ensures
        r matches Some((x, y)) && match best {
            None => x@ == from@ && y@ == to@,
            Some((bx, by)) => if pair_lt((from@, to@), (bx@, by@)) {
                x@ == from@ && y@ == to@
            } else {
                x@ == bx@ && y@ == by@
            },
        },
{
    match best {
        None => Some((from.to_string(), to.to_string())),
        Some((bx, by)) => {
            if pair_less(from, to, bx.as_str(), by.as_str()) {
                Some((from.to_string(), to.to_string()))
            } else {
                Some((bx, by))
            }
        },
    }
}

/// Adding one more scanned edge keeps the least pair with a property the least.
proof fn lemma_least_step(
    best: Option<(String, String)>,
    next: Option<(String, String)>,
    p: spec_fn(Seq<char>, Seq<char>) -> bool,
    e: GraphEdge,
    holds: bool,
)
    requires
        holds == p(e.from@, e.to@),
        !holds ==> next == best,
        holds ==> (next matches Some((x, y)) && match best {
            None => x@ == e.from@ && y@ == e.to@,
            Some((bx, by)) => if pair_lt((e.from@, e.to@), (bx@, by@)) {
                x@ == e.from@ && y@ == e.to@
            } else {
                x@ == bx@ && y@ == by@
            },
        }),
        best matches Some((bx, by)) ==> p(bx@, by@),
    ensures
        next matches Some((x, y)) ==> p(x@, y@),
        best is Some ==> next is Some,
        holds ==> (next matches Some((x, y)) && not_below((x@, y@), edge_pair(e))),
        best matches Some((bx, by)) ==> (next matches Some((x, y)) && forall|q: (Seq<char>, Seq<char>)|
            #[trigger] not_below((bx@, by@), q) ==> not_below((x@, y@), q)),
{
    if holds {
        match best {
            None => {},
            Some((bx, by)) => {
                let b = (bx@, by@);
                let n = edge_pair(e);
                lemma_pair_order(n, b, n);
                if pair_lt(n, b) {
                    assert forall|q: (Seq<char>, Seq<char>)| #[trigger] not_below(b, q) implies not_below(n, q) by {
                        lemma_pair_order(n, b, q);
                    }
                }
            },
        }
    }
}

fn edge_reasons_exec(
    cur: &HistoricalSnapshot,
    par: &HistoricalSnapshot,
    focus: &Vec<String>,
    cone: &Vec<String>,
) -> (r: Vec<String>)
    ensures
        views(r@) == edge_reasons(*cur, *par, views(focus@), views(cone@)),
{
    let ghost fp = |a: Seq<char>, b: Seq<char>| focus_pair(*cur, *par, views(focus@), a, b);
    let ghost cp = |a: Seq<char>, b: Seq<char>| cone_pair(*cur, *par, views(focus@), views(cone@), a, b);
    let mut best_f: Option<(String, String)> = None;
    let mut best_c: Option<(String, String)> = None;
    let mut i: usize = 0;
    while i < cur.edges.len()
        invariant
            i <= cur.edges@.len(),
            fp == (|a: Seq<char>, b: Seq<char>| focus_pair(*cur, *par, views(focus@), a, b)),
            cp == (|a: Seq<char>, b: Seq<char>| cone_pair(*cur, *par, views(focus@), views(cone@), a, b)),
            least_scanned(best_f, fp, cur.edges@, i as int, par.edges@, 0),
            least_scanned(best_c, cp, cur.edges@, i as int, par.edges@, 0),
        decreases cur.edges@.len() - i,
    {
        let e = &cur.edges[i];
        let changed = pair_changed_exec(cur, par, e.from.as_str(), e.to.as_str());
        let in_focus = changed && touches_exec(cur, par, e.from.as_str(), e.to.as_str(), focus);
        let in_cone = changed && !in_focus && touches_exec(cur, par, e.from.as_str(), e.to.as_str(), cone);
        let ghost old_f = best_f;
        let ghost old_c = best_c;
        if in_focus {
            best_f = keep_least(best_f, e.from.as_str(), e.to.as_str());
        }
        if in_cone {
            best_c = keep_least(best_c, e.from.as_str(), e.to.as_str());
        }
        proof {
            lemma_least_step(old_f, best_f, fp, *e, in_focus);
            lemma_least_step(old_c, best_c, cp, *e, in_cone);
        }
        i = i + 1;
    }
    let mut j: usize = 0;
    while j < par.edges.len()
        invariant
            j <= par.edges@.len(),
            fp == (|a: Seq<char>, b: Seq<char>| focus_pair(*cur, *par, views(focus@), a, b)),
            cp == (|a: Seq<char>, b: Seq<char>| cone_pair(*cur, *par, views(focus@), views(cone@), a, b)),
            least_scanned(best_f, fp, cur.edges@, cur.edges@.len() as int, par.edges@, j as int),
            least_scanned(best_c, cp, cur.edges@, cur.edges@.len() as int, par.edges@, j as int),
        decreases par.edges@.len() - j,
    {
        let e = &par.edges[j];
        let changed = pair_changed_exec(cur, par, e.from.as_str(), e.to.as_str());
        let in_focus = changed && touches_exec(cur, par, e.from.as_str(), e.to.as_str(), focus);
        let in_cone = changed && !in_focus && touches_exec(cur, par, e.from.as_str(), e.to.as_str(), cone);
        let ghost old_f = best_f;
        let ghost old_c = best_c;
        if in_focus {
            best_f = keep_least(best_f, e.from.as_str(), e.to.as_str());
        }
        if in_cone {
            best_c = keep_least(best_c, e.from.as_str(), e.to.as_str());
        }
        proof {
            lemma_least_step(old_f, best_f, fp, *e, in_focus);
            lemma_least_step(old_c, best_c, cp, *e, in_cone);
        }
        j = j + 1;
    }
    let ghost cu = *cur;
    let ghost pa = *par;
    let ghost fo = views(focus@);
    let ghost co = views(cone@);
    proof {
        assert forall|a: Seq<char>, b: Seq<char>| #[trigger] fp(a, b) implies (best_f matches Some((x, y)) && not_below(
            (x@, y@),
            (a, b),
        )) by {
            lemma_changed_pair_has_edge(cu, pa, a, b);
            if exists|k: int| 0 <= k < cu.edges@.len() && edge_pair(#[trigger] cu.edges@[k]) == (a, b) {
                let k = choose|k: int| 0 <= k < cu.edges@.len() && edge_pair(#[trigger] cu.edges@[k]) == (a, b);
                assert(fp(cu.edges@[k].from@, cu.edges@[k].to@));
            } else {
                let k = choose|k: int| 0 <= k < pa.edges@.len() && edge_pair(#[trigger] pa.edges@[k]) == (a, b);
                assert(fp(pa.edges@[k].from@, pa.edges@[k].to@));
            }
        }
        assert forall|a: Seq<char>, b: Seq<char>| #[trigger] cp(a, b) implies (best_c matches Some((x, y)) && not_below(
            (x@, y@),
            (a, b),
        )) by {
            lemma_changed_pair_has_edge(cu, pa, a, b);
            if exists|k: int| 0 <= k < cu.edges@.len() && edge_pair(#[trigger] cu.edges@[k]) == (a, b) {
                let k = choose|k: int| 0 <= k < cu.edges@.len() && edge_pair(#[trigger] cu.edges@[k]) == (a, b);
                assert(cp(cu.edges@[k].from@, cu.edges@[k].to@));
            } else {
                let k = choose|k: int| 0 <= k < pa.edges@.len() && edge_pair(#[trigger] pa.edges@[k]) == (a, b);
                assert(cp(pa.edges@[k].from@, pa.edges@[k].to@));
            }
        }
    }
    let mut r: Vec<String> = Vec::new();
    match (&best_f, &best_c) {
        (Some((fx, fy)), Some((cx, cy))) => {
            proof {
                assert(fp(fx@, fy@));
                assert(cp(cx@, cy@));
                let mf = (fx@, fy@);
                let mc = (cx@, cy@);
                assert(mf != mc);
                lemma_pair_order(mf, mc, mf);
            }
            if pair_less(fx.as_str(), fy.as_str(), cx.as_str(), cy.as_str()) {
                proof {
                    let mf = (fx@, fy@);
                    let mc = (cx@, cy@);
                    assert forall|x: Seq<char>, y: Seq<char>| #[trigger] cp(x, y) implies pair_lt(mf, (x, y)) by {
                        lemma_pair_order(mf, mc, (x, y));
                    }
                    assert(fp(fx@, fy@) && forall|x: Seq<char>, y: Seq<char>|
                        cone_pair(cu, pa, fo, co, x, y) ==> pair_lt((fx@, fy@), (x, y))) by {
                        assert forall|x: Seq<char>, y: Seq<char>| cone_pair(cu, pa, fo, co, x, y) implies pair_lt(
                            (fx@, fy@),
                            (x, y),
                        ) by {
                            assert(cp(x, y));
                        }
                    }
                }
                r.push("focused-edge-changed".to_string());
                r.push("dependency-cone-edge-changed".to_string());
            } else {
                proof {
                    let mf = (fx@, fy@);
                    let mc = (cx@, cy@);
                    assert(pair_lt(mc, mf));
                    assert forall|a: Seq<char>, b: Seq<char>| focus_pair(cu, pa, fo, a, b) implies !(
                    forall|x: Seq<char>, y: Seq<char>| cone_pair(cu, pa, fo, co, x, y) ==> pair_lt((a, b), (x, y))) by {
                        assert(fp(a, b));
                        lemma_pair_order(mf, (a, b), mc);
                        lemma_pair_order(mc, mf, (a, b));
                        lemma_pair_order((a, b), mc, mf);
                        assert(cp(cx@, cy@));
                        assert(!pair_lt((a, b), mc));
                    }
                }
                r.push("dependency-cone-edge-changed".to_string());
                r.push("focused-edge-changed".to_string());
            }
            proof {
                assert(fp(fx@, fy@));
                assert(cp(cx@, cy@));
            }
        },
        (Some((fx, fy)), None) => {
            proof {
                assert(fp(fx@, fy@));
                assert forall|a: Seq<char>, b: Seq<char>| !cone_pair(cu, pa, fo, co, a, b) by {
                    if cone_pair(cu, pa, fo, co, a, b) {
                        assert(cp(a, b));
                    }
                }
            }
            r.push("focused-edge-changed".to_string());
        },
        (None, Some((cx, cy))) => {
            proof {
                assert(cp(cx@, cy@));
                assert forall|a: Seq<char>, b: Seq<char>| !focus_pair(cu, pa, fo, a, b) by {
                    if focus_pair(cu, pa, fo, a, b) {
                        assert(fp(a, b));
                    }
                }
            }
            r.push("dependency-cone-edge-changed".to_string());
        },
        (None, None) => {
            proof {
                assert forall|a: Seq<char>, b: Seq<char>| !cone_pair(cu, pa, fo, co, a, b) by {
                    if cone_pair(cu, pa, fo, co, a, b) {
                        assert(cp(a, b));
                    }
                }
                assert forall|a: Seq<char>, b: Seq<char>| !focus_pair(cu, pa, fo, a, b) by {
                    if focus_pair(cu, pa, fo, a, b) {
                        assert(fp(a, b));
                    }
                }
            }
        },
    }
    assert(views(r@) =~= edge_reasons(cu, pa, fo, co));
    r
}

/// The note a truncated snapshot gives.
pub open spec fn truncation_notes(cur: HistoricalSnapshot, par: HistoricalSnapshot) -> Seq<Seq<char>> {
    if cur.truncated || par.truncated {
        seq!["historical graph snapshot was truncated by declared bounds"@]
    } else {
        Seq::empty()
    }
}

/// The edge reasons add up to the edge score.
proof fn lemma_edge_score(cur: HistoricalSnapshot, par: HistoricalSnapshot, focus: Seq<Seq<char>>, cone: Seq<Seq<char>>)
    ensures
        edge_prefix_score(edge_reasons(cur, par, focus, cone)) == edge_score(cur, par, focus, cone),
        edge_reasons(cur, par, focus, cone).len() <= 2,
{
    reveal_strlit("focused-edge-changed");
    reveal_strlit("dependency-cone-edge-changed");
    let fe = "focused-edge-changed"@;
    let ce = "dependency-cone-edge-changed"@;
    assert(fe.len() != ce.len());
    assert(seq![fe, ce].drop_last() =~= seq![fe]);
    assert(seq![ce, fe].drop_last() =~= seq![ce]);
    assert(seq![fe].drop_last() =~= Seq::<Seq<char>>::empty());
    assert(seq![ce].drop_last() =~= Seq::<Seq<char>>::empty());
    assert(edge_prefix_score(Seq::<Seq<char>>::empty()) == 0);
    assert(edge_prefix_score(seq![fe]) == 45);
    assert(edge_prefix_score(seq![ce]) == 25);
    assert(edge_prefix_score(seq![fe, ce]) == 70);
    assert(edge_prefix_score(seq![ce, fe]) == 70);
    assert(edge_reasons(cur, par, focus, cone).len() <= 2);
}

fn add_reason(reasons: &mut Vec<String>, score: &mut u32, reason: &str, weight: u32)
    requires
        weight <= 75,
        old(reasons)@.len() < 57200000,
        *old(score) <= 75 * old(reasons)@.len(),
    ensures
        views(final(reasons)@) == views(old(reasons)@).push(reason@),
        final(reasons)@.len() == old(reasons)@.len() + 1,
        *final(score) == *old(score) + weight,
        *final(score) <= 75 * final(reasons)@.len(),
{
    push_reason(reasons, reason);
    *score = *score + weight;
}

fn add_flow_reasons(
    current: &HistoricalSnapshot,
    parent: &HistoricalSnapshot,
    id: &str,
    reasons: &mut Vec<String>,
    score: &mut u32,
)
    requires
        old(reasons)@.len() < 57199000,
        *old(score) <= 75 * old(reasons)@.len(),
    ensures
        views(final(reasons)@) == views(old(reasons)@) + flow_reasons(*current, *parent, id@),
        *final(score) == *old(score) + flow_score(*current, *parent, id@),
        *final(score) <= 75 * final(reasons)@.len(),
        final(reasons)@.len() <= old(reasons)@.len() + 3,
{
    let ghost start = views(reasons@);
    let a = last_fingerprint(&current.flows, id);
    let b = last_fingerprint(&parent.flows, id);
    if !opt_eq(&a, &b) {
        add_reason(reasons, score, "focused-flow-changed", 75);
    }
    let cf = find_flow(&current.flows, id);
    let pf = find_flow(&parent.flows, id);
    let entry_differs = match (cf, pf) {
        (Some(x), Some(y)) => !(str_eq(current.flows[x].entry_kind.as_str(), parent.flows[y].entry_kind.as_str())
            && str_eq(current.flows[x].entry_key.as_str(), parent.flows[y].entry_key.as_str())),
        (None, None) => false,
        _ => true,
    };
    if entry_differs {
        add_reason(reasons, score, "focused-entry-changed", 60);
    }
    let cr = related_or_empty(&current.flows, cf);
    let pr = related_or_empty(&parent.flows, pf);
    if !same_related(&cr, &pr) {
        add_reason(reasons, score, "related-test-structure-changed", 25);
    }
    proof {
        assert(entry_differs == (entry_of(first_flow(current.flows@, id@)) != entry_of(
            first_flow(parent.flows@, id@),
        )));
        assert(views(reasons@) =~= start + flow_reasons(*current, *parent, id@));
    }
}

/// The structural reasons a commit is relevant to a diagnostic context, from the graph
/// snapshot of the commit (`current`) and of its first parent, with the score they add
/// up to and notes on the snapshots. `focus_flow_ids` are the focused flows in ascending
/// order; `focus_paths` and `cone_paths` the files of the focus and of its dependency
/// cone.
pub fn historical_delta_reasons(
    current: &HistoricalSnapshot,
    parent: &HistoricalSnapshot,
    focus_paths: &Vec<String>,
    cone_paths: &Vec<String>,
    focus_flow_ids: &Vec<String>,
) -> (r: (Vec<String>, u32, Vec<String>))
    requires
        3 * focus_flow_ids@.len() + current.files@.len() + parent.files@.len() <= 57000000,
    ensures
        views(r.0@) == delta_reasons(*current, *parent, views(focus_paths@), views(cone_paths@), focus_flow_ids@),
        r.1 == delta_score(*current, *parent, views(focus_paths@), views(cone_paths@), focus_flow_ids@),
        views(r.2@) == truncation_notes(*current, *parent),
        r.1 <= 75 * (3 * focus_flow_ids@.len() + current.files@.len() + parent.files@.len() + 3),
{
    let ghost cur = *current;
    let ghost par = *parent;
    let ghost ids = focus_flow_ids@;
    let ghost fo = views(focus_paths@);
    let ghost co = views(cone_paths@);
    let mut reasons: Vec<String> = Vec::new();
    let mut score: u32 = 0;
    assert(views(reasons@) =~= flows_reasons(cur, par, ids.take(0)));
    let mut i: usize = 0;
    while i < focus_flow_ids.len()
        invariant
            i <= ids.len(),
            ids == focus_flow_ids@,
            3 * ids.len() <= 57000000,
            cur == *current,
            par == *parent,
            views(reasons@) == flows_reasons(cur, par, ids.take(i as int)),
            score == flows_score(cur, par, ids.take(i as int)),
            reasons@.len() <= 3 * i,
            score <= 75 * reasons@.len(),
        decreases ids.len() - i,
    {
        assert(ids.take(i as int + 1).drop_last() =~= ids.take(i as int));
        add_flow_reasons(current, parent, focus_flow_ids[i].as_str(), &mut reasons, &mut score);
        i = i + 1;
    }
    assert(ids.take(ids.len() as int) =~= ids);
    let mut any_entry = false;
    let mut k: usize = 0;
    while k < focus_flow_ids.len()
        invariant
            k <= ids.len(),
            ids == focus_flow_ids@,
            cur == *current,
            par == *parent,
            any_entry == exists|m: int| 0 <= m < k && entry_changed(cur, par, #[trigger] ids[m]@),
        decreases ids.len() - k,
    {
        if !any_entry && entry_changed_exec(current, parent, focus_flow_ids[k].as_str()) {
            any_entry = true;
        }
        k = k + 1;
    }
    if any_entry && !contains_str(&reasons, "focused-entry-changed") {
        add_reason(&mut reasons, &mut score, "focused-entry-changed", 60);
    }
    assert(views(reasons@) == flow_and_entry_reasons(cur, par, ids));
    assert(score == flow_and_entry_score(cur, par, ids));
    let ghost head = views(reasons@);
    let ghost head_score = score as nat;
    let paths = distinct_paths(current, parent);
    let ghost ps = views(paths@);
    let mut p: usize = 0;
    assert(ps.take(0) =~= Seq::<Seq<char>>::empty());
    while p < paths.len()
        invariant
            p <= ps.len(),
            ps == views(paths@),
            ps == all_file_paths(cur, par),
            ps.len() <= cur.files@.len() + par.files@.len(),
            3 * ids.len() + cur.files@.len() + par.files@.len() <= 57000000,
            cur == *current,
            par == *parent,
            fo == views(focus_paths@),
            co == views(cone_paths@),
            head.len() <= 3 * ids.len() + 1,
            views(reasons@) == head + files_reasons(cur, par, fo, co, ps.take(p as int)),
            score == head_score + files_score(cur, par, fo, co, ps.take(p as int)),
            reasons@.len() <= head.len() + p,
            score <= 75 * reasons@.len(),
        decreases ps.len() - p,
    {
        assert(ps.take(p as int + 1).drop_last() =~= ps.take(p as int));
        let path = paths[p].as_str();
        let ghost start = views(reasons@);
        let a = last_file_hash(&current.files, path);
        let b = last_file_hash(&parent.files, path);
        if !opt_eq(&a, &b) {
            if contains_str(focus_paths, path) {
                add_reason(&mut reasons, &mut score, "focused-node-changed", 35);
            } else if contains_str(cone_paths, path) {
                add_reason(&mut reasons, &mut score, "dependency-cone-node-changed", 20);
            }
        }
        assert(views(reasons@) =~= start + file_reason(cur, par, fo, co, ps[p as int]));
        p = p + 1;
    }
    assert(ps.take(ps.len() as int) =~= ps);
    let ghost mid = views(reasons@);
    let edge = edge_reasons_exec(current, parent, focus_paths, cone_paths);
    proof {
        lemma_edge_score(cur, par, fo, co);
        assert(edge@.len() == views(edge@).len());
        assert forall|m: int| 0 <= m < edge@.len() implies (#[trigger] edge@[m]@ == "focused-edge-changed"@
            || edge@[m]@ == "dependency-cone-edge-changed"@) by {
            assert(edge@[m]@ == views(edge@)[m]);
        }
    }
    let mut e: usize = 0;
    while e < edge.len()
        invariant
            e <= edge@.len(),
            views(edge@) == edge_reasons(cur, par, fo, co),
            edge@.len() <= 2,
            forall|m: int|
                0 <= m < edge@.len() ==> (#[trigger] edge@[m]@ == "focused-edge-changed"@ || edge@[m]@
                    == "dependency-cone-edge-changed"@),
            mid.len() <= 3 * ids.len() + 1 + cur.files@.len() + par.files@.len(),
            3 * ids.len() + cur.files@.len() + par.files@.len() <= 57000000,
            views(reasons@) == mid + views(edge@).take(e as int),
            reasons@.len() == mid.len() + e,
            score <= 75 * reasons@.len(),
            score == head_score + files_score(cur, par, fo, co, ps) + edge_prefix_score(views(edge@).take(e as int)),
        decreases edge@.len() - e,
    {
        assert(views(edge@).take(e as int + 1) =~= views(edge@).take(e as int).push(edge@[e as int]@));
        assert(views(edge@).take(e as int + 1).drop_last() =~= views(edge@).take(e as int));
        if str_eq(edge[e].as_str(), "focused-edge-changed") {
            add_reason(&mut reasons, &mut score, "focused-edge-changed", 45);
        } else {
            add_reason(&mut reasons, &mut score, "dependency-cone-edge-changed", 25);
        }
        e = e + 1;
    }
    assert(views(edge@).take(edge@.len() as int) =~= views(edge@));
    proof {
        lemma_edge_score(cur, par, fo, co);
    }
    let mut notes: Vec<String> = Vec::new();
    if current.truncated || parent.truncated {
        notes.push("historical graph snapshot was truncated by declared bounds".to_string());
    }
    assert(views(notes@) =~= truncation_notes(cur, par));
    assert(views(reasons@) =~= delta_reasons(cur, par, fo, co, ids));
    (reasons, score, notes)
}

proof fn lemma_same_flows(s: HistoricalSnapshot, ids: Seq<String>)
    ensures
        flows_reasons(s, s, ids) == Seq::<Seq<char>>::empty(),
        flows_score(s, s, ids) == 0,
    decreases ids.len(),
{
    if ids.len() > 0 {
        lemma_same_flows(s, ids.drop_last());
        assert(flow_reasons(s, s, ids.last()@) =~= Seq::<Seq<char>>::empty());
        assert(flows_reasons(s, s, ids) =~= Seq::<Seq<char>>::empty());
    }
}

proof fn lemma_same_files(s: HistoricalSnapshot, focus: Seq<Seq<char>>, cone: Seq<Seq<char>>, paths: Seq<Seq<char>>)
    ensures
        files_reasons(s, s, focus, cone, paths) == Seq::<Seq<char>>::empty(),
        files_score(s, s, focus, cone, paths) == 0,
    decreases paths.len(),
{
    if paths.len() > 0 {
        lemma_same_files(s, focus, cone, paths.drop_last());
        assert(files_reasons(s, s, focus, cone, paths) =~= Seq::<Seq<char>>::empty());
    }
}

/// A commit whose graph snapshot equals its parent's gives no structural reason and adds
/// nothing to the score.
pub proof fn law_unchanged_snapshot_gives_no_reasons(
    s: HistoricalSnapshot,
    focus: Seq<Seq<char>>,
    cone: Seq<Seq<char>>,
    ids: Seq<String>,
)
    ensures
        delta_reasons(s, s, focus, cone, ids) == Seq::<Seq<char>>::empty(),
        delta_score(s, s, focus, cone, ids) == 0,
{
    lemma_same_flows(s, ids);
    lemma_same_files(s, focus, cone, all_file_paths(s, s));
    assert(!any_entry_changed(s, s, ids));
    assert forall|a: Seq<char>, b: Seq<char>| !pair_changed(s, s, a, b) by {}
    assert(edge_reasons(s, s, focus, cone) =~= Seq::<Seq<char>>::empty());
    assert(delta_reasons(s, s, focus, cone, ids) =~= Seq::<Seq<char>>::empty());
}

/// What one structural reason adds to a commit's score.
pub open spec fn reason_weight(r: Seq<char>) -> nat {
    if r == "focused-flow-changed"@ {
        75
    } else if r == "focused-entry-changed"@ {
        60
    } else if r == "related-test-structure-changed"@ {
        25
    } else if r == "focused-node-changed"@ {
        35
    } else if r == "dependency-cone-node-changed"@ {
        20
    } else if r == "focused-edge-changed"@ {
        45
    } else if r == "dependency-cone-edge-changed"@ {
        25
    } else {
        0
    }
}

/// The sum of the weights of some reasons.
pub open spec fn weight_sum(rs: Seq<Seq<char>>) -> nat
    decreases rs.len(),
{
    if rs.len() == 0 {
        0
    } else {
        weight_sum(rs.drop_last()) + reason_weight(rs.last())
    }
}

proof fn lemma_weight_sum_concat(a: Seq<Seq<char>>, b: Seq<Seq<char>>)
    ensures
        weight_sum(a + b) == weight_sum(a) + weight_sum(b),
    decreases b.len(),
{
    if b.len() == 0 {
        assert(a + b =~= a);
    } else {
        lemma_weight_sum_concat(a, b.drop_last());
        assert((a + b).drop_last() =~= a + b.drop_last());
        assert((a + b).last() == b.last());
    }
}

proof fn lemma_reason_weights()
    ensures
        reason_weight("focused-flow-changed"@) == 75,
        reason_weight("focused-entry-changed"@) == 60,
        reason_weight("related-test-structure-changed"@) == 25,
        reason_weight("focused-node-changed"@) == 35,
        reason_weight("dependency-cone-node-changed"@) == 20,
        reason_weight("focused-edge-changed"@) == 45,
        reason_weight("dependency-cone-edge-changed"@) == 25,
{
    reveal_strlit("focused-flow-changed");
    reveal_strlit("focused-entry-changed");
    reveal_strlit("related-test-structure-changed");
    reveal_strlit("focused-node-changed");
    reveal_strlit("dependency-cone-node-changed");
    reveal_strlit("focused-edge-changed");
    reveal_strlit("dependency-cone-edge-changed");
    assert("focused-entry-changed"@ != "focused-flow-changed"@) by {
        assert("focused-entry-changed"@[8] != "focused-flow-changed"@[8]);
    }
    assert("focused-node-changed"@ != "focused-flow-changed"@) by {
        assert("focused-node-changed"@[8] != "focused-flow-changed"@[8]);
    }
    assert("focused-edge-changed"@ != "focused-flow-changed"@) by {
        assert("focused-edge-changed"@[8] != "focused-flow-changed"@[8]);
    }
    assert("focused-node-changed"@ != "focused-entry-changed"@) by {
        assert("focused-node-changed"@.len() != "focused-entry-changed"@.len());
    }
    assert("focused-edge-changed"@ != "focused-entry-changed"@) by {
        assert("focused-edge-changed"@.len() != "focused-entry-changed"@.len());
    }
    assert("focused-edge-changed"@ != "focused-node-changed"@) by {
        assert("focused-edge-changed"@[8] != "focused-node-changed"@[8]);
    }
    assert("dependency-cone-edge-changed"@ != "dependency-cone-node-changed"@) by {
        assert("dependency-cone-edge-changed"@[16] != "dependency-cone-node-changed"@[16]);
    }
    assert("focused-edge-changed"@ != "related-test-structure-changed"@) by {
        assert("focused-edge-changed"@[0] != "related-test-structure-changed"@[0]);
    }
    assert("focused-node-changed"@ != "related-test-structure-changed"@) by {
        assert("focused-node-changed"@[0] != "related-test-structure-changed"@[0]);
    }
    assert("dependency-cone-node-changed"@ != "related-test-structure-changed"@) by {
        assert("dependency-cone-node-changed"@[0] != "related-test-structure-changed"@[0]);
    }
    assert("dependency-cone-edge-changed"@ != "related-test-structure-changed"@) by {
        assert("dependency-cone-edge-changed"@[0] != "related-test-structure-changed"@[0]);
    }
    assert("dependency-cone-node-changed"@ != "focused-flow-changed"@) by {
        assert("dependency-cone-node-changed"@[0] != "focused-flow-changed"@[0]);
    }
    assert("dependency-cone-node-changed"@ != "focused-entry-changed"@) by {
        assert("dependency-cone-node-changed"@[0] != "focused-entry-changed"@[0]);
    }
    assert("dependency-cone-node-changed"@ != "focused-node-changed"@) by {
        assert("dependency-cone-node-changed"@[0] != "focused-node-changed"@[0]);
    }
    assert("dependency-cone-edge-changed"@ != "focused-flow-changed"@) by {
        assert("dependency-cone-edge-changed"@[0] != "focused-flow-changed"@[0]);
    }
    assert("dependency-cone-edge-changed"@ != "focused-entry-changed"@) by {
        assert("dependency-cone-edge-changed"@[0] != "focused-entry-changed"@[0]);
    }
    assert("dependency-cone-edge-changed"@ != "focused-node-changed"@) by {
        assert("dependency-cone-edge-changed"@[0] != "focused-node-changed"@[0]);
    }
    assert("dependency-cone-edge-changed"@ != "focused-edge-changed"@) by {
        assert("dependency-cone-edge-changed"@[0] != "focused-edge-changed"@[0]);
    }
    assert("related-test-structure-changed"@ != "focused-flow-changed"@) by {
        assert("related-test-structure-changed"@[0] != "focused-flow-changed"@[0]);
    }
    assert("related-test-structure-changed"@ != "focused-entry-changed"@) by {
        assert("related-test-structure-changed"@[0] != "focused-entry-changed"@[0]);
    }
}

proof fn lemma_flows_weight(cur: HistoricalSnapshot, par: HistoricalSnapshot, ids: Seq<String>)
    ensures
        weight_sum(flows_reasons(cur, par, ids)) == flows_score(cur, par, ids),
    decreases ids.len(),
{
    lemma_reason_weights();
    if ids.len() > 0 {
        lemma_flows_weight(cur, par, ids.drop_last());
        let id = ids.last()@;
        let a = if flow_fingerprint(cur.flows@, id) != flow_fingerprint(par.flows@, id) {
            seq!["focused-flow-changed"@]
        } else {
            Seq::<Seq<char>>::empty()
        };
        let b = if entry_of(first_flow(cur.flows@, id)) != entry_of(first_flow(par.flows@, id)) {
            seq!["focused-entry-changed"@]
        } else {
            Seq::<Seq<char>>::empty()
        };
        let c = if related_of(first_flow(cur.flows@, id)) != related_of(first_flow(par.flows@, id)) {
            seq!["related-test-structure-changed"@]
        } else {
            Seq::<Seq<char>>::empty()
        };
        assert(flow_reasons(cur, par, id) == a + b + c);
        lemma_weight_sum_concat(a, b);
        lemma_weight_sum_concat(a + b, c);
        lemma_singleton_weight("focused-flow-changed"@);
        assert(weight_sum(a) == if a.len() == 0 { 0nat } else { 75nat });
        lemma_singleton_weight("focused-entry-changed"@);
        assert(weight_sum(b) == if b.len() == 0 { 0nat } else { 60nat });
        lemma_singleton_weight("related-test-structure-changed"@);
        assert(weight_sum(c) == if c.len() == 0 { 0nat } else { 25nat });
        lemma_weight_sum_concat(flows_reasons(cur, par, ids.drop_last()), flow_reasons(cur, par, id));
    }
}

proof fn lemma_files_weight(
    cur: HistoricalSnapshot,
    par: HistoricalSnapshot,
    focus: Seq<Seq<char>>,
    cone: Seq<Seq<char>>,
    paths: Seq<Seq<char>>,
)
    ensures
        weight_sum(files_reasons(cur, par, focus, cone, paths)) == files_score(cur, par, focus, cone, paths),
    decreases paths.len(),
{
    lemma_reason_weights();
    if paths.len() > 0 {
        lemma_files_weight(cur, par, focus, cone, paths.drop_last());
        let r = file_reason(cur, par, focus, cone, paths.last());
        lemma_weight_sum_concat(files_reasons(cur, par, focus, cone, paths.drop_last()), r);
        lemma_singleton_weight("focused-node-changed"@);
        lemma_singleton_weight("dependency-cone-node-changed"@);
    }
}

proof fn lemma_singleton_weight(r: Seq<char>)
    ensures
        weight_sum(seq![r]) == reason_weight(r),
        weight_sum(Seq::<Seq<char>>::empty()) == 0,
{
    assert(seq![r].drop_last() =~= Seq::<Seq<char>>::empty());
    assert(weight_sum(Seq::<Seq<char>>::empty()) == 0);
    assert(seq![r].last() == r);
}

/// The score of a commit is the sum of what its reasons weigh: 75 for a changed focused
/// flow, 60 for a changed focused entry, 25 for changed related tests, 35 for a changed
/// focused file, 20 for a changed file of the dependency cone, 45 for a changed focused
/// edge and 25 for a changed edge of the dependency cone.
pub proof fn law_delta_score_weighs_its_reasons(
    cur: HistoricalSnapshot,
    par: HistoricalSnapshot,
    focus: Seq<Seq<char>>,
    cone: Seq<Seq<char>>,
    ids: Seq<String>,
)
    ensures
        delta_score(cur, par, focus, cone, ids) == weight_sum(delta_reasons(cur, par, focus, cone, ids)),
{
    lemma_reason_weights();
    lemma_flows_weight(cur, par, ids);
    let rs = flows_reasons(cur, par, ids);
    let fe = flow_and_entry_reasons(cur, par, ids);
    if any_entry_changed(cur, par, ids) && !rs.contains("focused-entry-changed"@) {
        lemma_weight_sum_concat(rs, seq!["focused-entry-changed"@]);
        lemma_singleton_weight("focused-entry-changed"@);
        assert(rs.push("focused-entry-changed"@) =~= rs + seq!["focused-entry-changed"@]);
    }
    assert(weight_sum(fe) == flow_and_entry_score(cur, par, ids));
    let paths = all_file_paths(cur, par);
    lemma_files_weight(cur, par, focus, cone, paths);
    let fr = files_reasons(cur, par, focus, cone, paths);
    let er = edge_reasons(cur, par, focus, cone);
    lemma_singleton_weight("focused-edge-changed"@);
    lemma_singleton_weight("dependency-cone-edge-changed"@);
    lemma_weight_sum_concat(seq!["focused-edge-changed"@], seq!["dependency-cone-edge-changed"@]);
    lemma_weight_sum_concat(seq!["dependency-cone-edge-changed"@], seq!["focused-edge-changed"@]);
    assert(seq!["focused-edge-changed"@] + seq!["dependency-cone-edge-changed"@] =~= seq![
        "focused-edge-changed"@,
        "dependency-cone-edge-changed"@,
    ]);
    assert(seq!["dependency-cone-edge-changed"@] + seq!["focused-edge-changed"@] =~= seq![
        "dependency-cone-edge-changed"@,
        "focused-edge-changed"@,
    ]);
    assert(weight_sum(Seq::<Seq<char>>::empty()) == 0);
    assert(weight_sum(er) == edge_score(cur, par, focus, cone));
    lemma_weight_sum_concat(fe, fr);
    lemma_weight_sum_concat(fe + fr, er);
}

} // verus!
