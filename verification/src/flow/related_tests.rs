//! Related-test evidence derived from proven graph edges.

use vstd::prelude::*;

use super::manifest::{dedup_seq, is_test_path, law_test_and_spec_files_are_tests, opt_view, spec_is_test_path};
use crate::text::{ascii_lower_seq, seq_ends_with};
use crate::model::flow::{RelatedTestEvidence, RelatedTestRecord};
use crate::model::graph::{GraphEdge, GraphNode};
use crate::model::RELATED_TEST_EVIDENCE_SCHEMA;
use crate::order::{lemma_str_lt_asymmetric, lemma_str_lt_irreflexive, lemma_str_lt_total, lemma_str_lt_transitive, str_less, str_lt};
use crate::text::{contains, seq_contains, str_eq, views};

verus! {

broadcast use vstd::string::group_string_axioms;

/// The most related-test records one observation keeps.
pub const MAX_RELATED_TEST_RECORDS: usize = 100000;

/// The omission reported when related-test records are capped.
pub const RELATED_TESTS_CAPPED: &'static str = "related-test records capped at 100000";

/// The plain values of a related-test record.
pub open spec fn related_view(r: RelatedTestRecord) -> (Seq<char>, Seq<char>, Seq<char>, Seq<char>, Seq<char>, Seq<char>, Seq<char>) {
    (r.test_path@, r.test_node_id@, r.target_node_id@, r.relation@, r.strength@, r.status@, r.reason@)
}

/// The plain values of a list of related-test records.
pub open spec fn related_views(s: Seq<RelatedTestRecord>) -> Seq<(Seq<char>, Seq<char>, Seq<char>, Seq<char>, Seq<char>, Seq<char>, Seq<char>)> {
    s.map_values(|r: RelatedTestRecord| related_view(r))
}

/// The first node with the given id.
pub open spec fn node_by_id(nodes: Seq<GraphNode>, id: Seq<char>) -> Option<GraphNode>
    decreases nodes.len(),
{
    if nodes.len() == 0 {
        None
    } else if nodes[0].id@ == id {
        Some(nodes[0])
    } else {
        node_by_id(nodes.drop_first(), id)
    }
}

/// The first node with the given id.
pub fn find_node<'a>(nodes: &'a [GraphNode], id: &str) -> (r: Option<&'a GraphNode>)
    ensures
        match r {
            Some(n) => node_by_id(nodes@, id@) == Some(*n),
            None => node_by_id(nodes@, id@) is None,
        },
{
    let mut i: usize = 0;
    assert(nodes@.skip(0) =~= nodes@);
    while i < nodes.len()
        invariant
            i <= nodes@.len(),
            node_by_id(nodes@, id@) == node_by_id(nodes@.skip(i as int), id@),
        decreases nodes@.len() - i,
    {
        assert(nodes@.skip(i as int)[0] == nodes@[i as int]);
        assert(nodes@.skip(i as int).drop_first() =~= nodes@.skip(i as int + 1));
        if str_eq(nodes[i].id.as_str(), id) {
            return Some(&nodes[i]);
        }
        i = i + 1;
    }
    None
}

/// The related-test record an edge proves, if any: an edge from a test file to a
/// non-test node, a call or construction (strong) or an import that is not type-only (weak).
pub open spec fn related_of_edge(nodes: Seq<GraphNode>, edge: GraphEdge) -> Option<(Seq<char>, Seq<char>, Seq<char>, Seq<char>, Seq<char>, Seq<char>, Seq<char>)> {
    let kind = edge.kind@;
    if !(kind == "calls"@ || kind == "constructs"@ || kind == "imports"@) {
        None
    } else {
        match (node_by_id(nodes, edge.from@), node_by_id(nodes, edge.to@)) {
            (Some(test), Some(target)) => match (test.path, target.path) {
                (Some(tp), Some(gp)) => {
                    let relation = if kind == "calls"@ {
                        "direct-call"@
                    } else if kind == "constructs"@ {
                        "direct-construct"@
                    } else {
                        "direct-import"@
                    };
                    if !spec_is_test_path(tp@) || spec_is_test_path(gp@) {
                        None
                    } else if relation == "direct-import"@ && seq_contains(edge.evidence@, "type"@) {
                        None
                    } else {
                        Some(
                            (
                                tp@,
                                test.id@,
                                target.id@,
                                relation,
                                if relation == "direct-import"@ {
                                    "weak"@
                                } else {
                                    "strong"@
                                },
                                "proven"@,
                                edge.evidence@,
                            ),
                        )
                    }
                },
                _ => None,
            },
            _ => None,
        }
    }
}

/// The related-test records of `edges`, in edge order.
pub open spec fn related_candidates(nodes: Seq<GraphNode>, edges: Seq<GraphEdge>) -> Seq<(Seq<char>, Seq<char>, Seq<char>, Seq<char>, Seq<char>, Seq<char>, Seq<char>)>
    decreases edges.len(),
{
    if edges.len() == 0 {
        Seq::empty()
    } else {
        match related_of_edge(nodes, edges.last()) {
            Some(r) => related_candidates(nodes, edges.drop_last()).push(r),
            None => related_candidates(nodes, edges.drop_last()),
        }
    }
}

fn related_record(nodes: &[GraphNode], edge: &GraphEdge) -> (r: Option<RelatedTestRecord>)
    ensures
        match r {
            Some(x) => related_of_edge(nodes@, *edge) == Some(related_view(x)),
            None => related_of_edge(nodes@, *edge) is None,
        },
{
    let kind = edge.kind.as_str();
    if !(str_eq(kind, "calls") || str_eq(kind, "constructs") || str_eq(kind, "imports")) {
        return None;
    }
    let test_node = match find_node(nodes, edge.from.as_str()) {
        Some(n) => n,
        None => return None,
    };
    let target_node = match find_node(nodes, edge.to.as_str()) {
        Some(n) => n,
        None => return None,
    };
    let test_path = match &test_node.path {
        Some(p) => p,
        None => return None,
    };
    let target_path = match &target_node.path {
        Some(p) => p,
        None => return None,
    };
    if !is_test_path(test_path.as_str()) || is_test_path(target_path.as_str()) {
        return None;
    }
    let relation = if str_eq(kind, "calls") {
        "direct-call"
    } else if str_eq(kind, "constructs") {
        "direct-construct"
    } else {
        "direct-import"
    };
    let import = str_eq(relation, "direct-import");
    if import && contains(edge.evidence.as_str(), "type") {
        return None;
    }
    Some(RelatedTestRecord {
        test_path: test_path.clone(),
        test_node_id: test_node.id.clone(),
        target_node_id: target_node.id.clone(),
        relation: relation.to_string(),
        strength: if import {
            "weak".to_string()
        } else {
            "strong".to_string()
        },
        status: "proven".to_string(),
        reason: edge.evidence.clone(),
    })
}

/// The order of related-test records: by test path, test node, target node, then relation.
pub open spec fn related_lt(a: RelatedTestRecord, b: RelatedTestRecord) -> bool {
    if a.test_path@ != b.test_path@ {
        str_lt(a.test_path@, b.test_path@)
    } else if a.test_node_id@ != b.test_node_id@ {
        str_lt(a.test_node_id@, b.test_node_id@)
    } else if a.target_node_id@ != b.target_node_id@ {
        str_lt(a.target_node_id@, b.target_node_id@)
    } else {
        str_lt(a.relation@, b.relation@)
    }
}

/// Ordered by `related_lt`.
pub open spec fn related_sorted(s: Seq<RelatedTestRecord>) -> bool {
    forall|i: int, j: int| 0 <= i < j < s.len() ==> !related_lt(#[trigger] s[j], #[trigger] s[i])
}

proof fn lemma_pair(a: Seq<char>, b: Seq<char>, c: Seq<char>)
    ensures
        !(str_lt(a, b) && str_lt(b, a)),
        str_lt(a, b) && str_lt(b, c) ==> str_lt(a, c),
        a == b || str_lt(a, b) || str_lt(b, a),
        !str_lt(a, a),
{
    lemma_str_lt_asymmetric(a, b);
    lemma_str_lt_total(a, b);
    lemma_str_lt_irreflexive(a);
    if str_lt(a, b) && str_lt(b, c) {
        lemma_str_lt_transitive(a, b, c);
    }
}

proof fn lemma_related_order(a: RelatedTestRecord, b: RelatedTestRecord, c: RelatedTestRecord)
    ensures
        !related_lt(a, a),
        !(related_lt(a, b) && related_lt(b, a)),
        related_lt(a, b) && related_lt(b, c) ==> related_lt(a, c),
        !related_lt(b, a) && !related_lt(c, b) ==> !related_lt(c, a),
        related_lt(a, b) && !related_lt(c, b) ==> !related_lt(c, a),
{
    lemma_pair(a.test_path@, b.test_path@, c.test_path@);
    lemma_pair(a.test_node_id@, b.test_node_id@, c.test_node_id@);
    lemma_pair(a.target_node_id@, b.target_node_id@, c.target_node_id@);
    lemma_pair(a.relation@, b.relation@, c.relation@);
    lemma_pair(c.test_path@, a.test_path@, b.test_path@);
    lemma_pair(c.test_node_id@, a.test_node_id@, b.test_node_id@);
    lemma_pair(c.target_node_id@, a.target_node_id@, b.target_node_id@);
    lemma_pair(c.relation@, a.relation@, b.relation@);
    lemma_pair(b.test_path@, c.test_path@, a.test_path@);
    lemma_pair(b.test_node_id@, c.test_node_id@, a.test_node_id@);
    lemma_pair(b.target_node_id@, c.target_node_id@, a.target_node_id@);
    lemma_pair(b.relation@, c.relation@, a.relation@);
}

fn related_less(a: &RelatedTestRecord, b: &RelatedTestRecord) -> (r: bool)
    ensures
        r == related_lt(*a, *b),
{
    if !str_eq(a.test_path.as_str(), b.test_path.as_str()) {
        return str_less(a.test_path.as_str(), b.test_path.as_str());
    }
    if !str_eq(a.test_node_id.as_str(), b.test_node_id.as_str()) {
        return str_less(a.test_node_id.as_str(), b.test_node_id.as_str());
    }
    if !str_eq(a.target_node_id.as_str(), b.target_node_id.as_str()) {
        return str_less(a.target_node_id.as_str(), b.target_node_id.as_str());
    }
    str_less(a.relation.as_str(), b.relation.as_str())
}

/// `records` in the related-test order; records that tie keep their order.
fn sort_related(records: Vec<RelatedTestRecord>) -> (r: Vec<RelatedTestRecord>)
    ensures
        related_sorted(r@),
        r@.to_multiset() == records@.to_multiset(),
{
    let mut out: Vec<RelatedTestRecord> = Vec::new();
    let mut i: usize = 0;
    assert(records@.take(0) =~= out@);
    while i < records.len()
        invariant
            i <= records@.len(),
            related_sorted(out@),
            out@.to_multiset() == records@.take(i as int).to_multiset(),
        decreases records@.len() - i,
    {
        let x = records[i].clone();
        let mut k: usize = 0;
        while k < out.len() && !related_less(&x, &out[k])
            invariant
                k <= out@.len(),
                forall|m: int| 0 <= m < k ==> !related_lt(x, #[trigger] out@[m]),
            decreases out@.len() - k,
        {
            k = k + 1;
        }
        let ghost before = out@;
        out.insert(k, x);
        proof {
            vstd::seq_lib::to_multiset_insert(before, k as int, x);
            assert(records@.take(i as int + 1) =~= records@.take(i as int).push(records@[i as int]));
            vstd::seq_lib::to_multiset_build(records@.take(i as int), records@[i as int]);
            assert(out@ =~= before.insert(k as int, x));
            assert forall|a: int, b: int| 0 <= a < b < out@.len() implies !related_lt(#[trigger] out@[b], #[trigger] out@[a]) by {
                lemma_related_order(x, x, x);
                if b < k {
                    assert(out@[a] == before[a] && out@[b] == before[b]);
                } else if b == k {
                    assert(out@[a] == before[a]);
                } else if a == k {
                    assert(out@[b] == before[b - 1]);
                    if b - 1 > k {
                        assert(!related_lt(before[b - 1], before[k as int]));
                    }
                    lemma_related_order(x, before[k as int], before[b - 1]);
                } else if a < k {
                    assert(out@[a] == before[a] && out@[b] == before[b - 1]);
                } else {
                    assert(out@[a] == before[a - 1] && out@[b] == before[b - 1]);
                }
            }
        }
        i = i + 1;
    }
    assert(records@.take(records@.len() as int) =~= records@);
    out
}

fn same_related(a: &RelatedTestRecord, b: &RelatedTestRecord) -> (r: bool)
    ensures
        r == (related_view(*a) == related_view(*b)),
{
    str_eq(a.test_path.as_str(), b.test_path.as_str()) && str_eq(a.test_node_id.as_str(), b.test_node_id.as_str())
        && str_eq(a.target_node_id.as_str(), b.target_node_id.as_str()) && str_eq(a.relation.as_str(), b.relation.as_str())
        && str_eq(a.strength.as_str(), b.strength.as_str()) && str_eq(a.status.as_str(), b.status.as_str())
        && str_eq(a.reason.as_str(), b.reason.as_str())
}

fn dedup_related(records: Vec<RelatedTestRecord>) -> (r: Vec<RelatedTestRecord>)
    ensures
        related_views(r@) == dedup_seq(related_views(records@)),
{
    let mut out: Vec<RelatedTestRecord> = Vec::new();
    let mut i: usize = 0;
    assert(related_views(records@).take(0) =~= related_views(out@));
    while i < records.len()
        invariant
            i <= records@.len(),
            related_views(out@) == dedup_seq(related_views(records@).take(i as int)),
        decreases records@.len() - i,
    {
        let ghost t = related_views(records@).take(i as int + 1);
        assert(t.drop_last() =~= related_views(records@).take(i as int));
        assert(t.last() == related_view(records@[i as int]));
        if i > 0 && same_related(&records[i - 1], &records[i]) {
            assert(t[t.len() - 2] == related_view(records@[i - 1]));
        } else {
            if i > 0 {
                assert(t[t.len() - 2] == related_view(records@[i - 1]));
            }
            let ghost before = out@;
            out.push(records[i].clone());
            assert(related_views(out@) =~= related_views(before).push(related_view(records@[i as int])));
        }
        i = i + 1;
    }
    assert(related_views(records@).take(records@.len() as int) =~= related_views(records@));
    out
}

/// What deriving related-test evidence from `nodes` and `edges` yields: the records that
/// the edges prove, ordered, with repeats dropped, and at most `MAX_RELATED_TEST_RECORDS`.
pub open spec fn related_evidence(r: RelatedTestEvidence, nodes: Seq<GraphNode>, edges: Seq<GraphEdge>) -> bool {
    exists|found: Seq<RelatedTestRecord>, sorted: Seq<RelatedTestRecord>|
        {
            &&& related_views(found) == related_candidates(nodes, edges)
            &&& sorted.to_multiset() == found.to_multiset()
            &&& related_sorted(sorted)
            &&& {
                let unique = dedup_seq(related_views(sorted));
                &&& r.truncated == (unique.len() > MAX_RELATED_TEST_RECORDS)
                &&& related_views(r.records@) == if r.truncated {
                    unique.take(MAX_RELATED_TEST_RECORDS as int)
                } else {
                    unique
                }
            }
            &&& r.schema_version@ == RELATED_TEST_EVIDENCE_SCHEMA@
            &&& r.status@ == if r.truncated {
                "truncated"@
            } else {
                "complete"@
            }
            &&& views(r.omissions@) == if r.truncated {
                seq![RELATED_TESTS_CAPPED@]
            } else {
                Seq::empty()
            }
        }
}

/// The related-test evidence that the proven edges of a graph give.
pub fn derive_related_tests(nodes: &[GraphNode], edges: &[GraphEdge]) -> (r: RelatedTestEvidence)
    ensures
        related_evidence(r, nodes@, edges@),
{
    let mut found: Vec<RelatedTestRecord> = Vec::new();
    let mut i: usize = 0;
    while i < edges.len()
        invariant
            i <= edges@.len(),
            related_views(found@) == related_candidates(nodes@, edges@.take(i as int)),
        decreases edges@.len() - i,
    {
        assert(edges@.take(i as int + 1).drop_last() =~= edges@.take(i as int));
        let ghost before = found@;
        match related_record(nodes, &edges[i]) {
            Some(rec) => {
                found.push(rec);
                assert(related_views(found@) =~= related_views(before).push(related_view(rec)));
            },
            None => {},
        }
        i = i + 1;
    }
    assert(edges@.take(edges@.len() as int) =~= edges@);
    let ghost found_view = found@;
    let sorted = sort_related(found);
    let ghost sorted_view = sorted@;
    let mut records = dedup_related(sorted);
    let truncated = records.len() > MAX_RELATED_TEST_RECORDS;
    let mut omissions: Vec<String> = Vec::new();
    if truncated {
        records.truncate(MAX_RELATED_TEST_RECORDS);
        omissions.push(RELATED_TESTS_CAPPED.to_string());
        assert(related_views(records@) =~= dedup_seq(related_views(sorted_view)).take(MAX_RELATED_TEST_RECORDS as int));
    }
    assert(views(omissions@) =~= if truncated {
        seq![RELATED_TESTS_CAPPED@]
    } else {
        Seq::empty()
    });
    let r = RelatedTestEvidence {
        schema_version: RELATED_TEST_EVIDENCE_SCHEMA.to_string(),
        status: if truncated {
            "truncated".to_string()
        } else {
            "complete".to_string()
        },
        records,
        truncated,
        omissions,
    };
    assert(related_views(found_view) == related_candidates(nodes@, edges@));
    r
}

/// The related-test evidence of a list of records: ordered, with repeats dropped, and at
/// most `MAX_RELATED_TEST_RECORDS`.
pub open spec fn related_of_records(r: RelatedTestEvidence, found: Seq<RelatedTestRecord>) -> bool {
    exists|sorted: Seq<RelatedTestRecord>|
        {
            &&& #[trigger] sorted.to_multiset() == found.to_multiset()
            &&& related_sorted(sorted)
            &&& {
                let unique = dedup_seq(related_views(sorted));
                &&& r.truncated == (unique.len() > MAX_RELATED_TEST_RECORDS)
                &&& related_views(r.records@) == if r.truncated {
                    unique.take(MAX_RELATED_TEST_RECORDS as int)
                } else {
                    unique
                }
            }
            &&& r.schema_version@ == RELATED_TEST_EVIDENCE_SCHEMA@
            &&& r.status@ == if r.truncated {
                "truncated"@
            } else {
                "complete"@
            }
            &&& views(r.omissions@) == if r.truncated {
                seq![RELATED_TESTS_CAPPED@]
            } else {
                Seq::empty()
            }
        }
}

/// The related-test evidence of the given records.
pub fn related_from_records(found: Vec<RelatedTestRecord>) -> (r: RelatedTestEvidence)
    ensures
        related_of_records(r, found@),
{
    let ghost found_view = found@;
    let sorted = sort_related(found);
    let ghost sorted_view = sorted@;
    let mut records = dedup_related(sorted);
    let truncated = records.len() > MAX_RELATED_TEST_RECORDS;
    let mut omissions: Vec<String> = Vec::new();
    if truncated {
        records.truncate(MAX_RELATED_TEST_RECORDS);
        omissions.push(RELATED_TESTS_CAPPED.to_string());
        assert(related_views(records@) =~= dedup_seq(related_views(sorted_view)).take(MAX_RELATED_TEST_RECORDS as int));
    }
    assert(views(omissions@) =~= if truncated {
        seq![RELATED_TESTS_CAPPED@]
    } else {
        Seq::empty()
    });
    let r = RelatedTestEvidence {
        schema_version: RELATED_TEST_EVIDENCE_SCHEMA.to_string(),
        status: if truncated {
            "truncated".to_string()
        } else {
            "complete".to_string()
        },
        records,
        truncated,
        omissions,
    };
    assert(sorted_view.to_multiset() == found_view.to_multiset());
    r
}

proof fn lemma_candidates_hold_edge_records(nodes: Seq<GraphNode>, edges: Seq<GraphEdge>, i: int)
    requires
        0 <= i < edges.len(),
        related_of_edge(nodes, edges[i]) is Some,
    ensures
        related_candidates(nodes, edges).contains(related_of_edge(nodes, edges[i])->Some_0),
    decreases edges.len(),
{
    let x = related_of_edge(nodes, edges[i])->Some_0;
    let d = edges.drop_last();
    if i < edges.len() - 1 {
        assert(d[i] == edges[i]);
        lemma_candidates_hold_edge_records(nodes, d, i);
        let rest = related_candidates(nodes, d);
        let k = choose|k: int| 0 <= k < rest.len() && rest[k] == x;
        match related_of_edge(nodes, edges.last()) {
            Some(y) => assert(rest.push(y)[k] == x),
            None => {},
        }
    } else {
        let rest = related_candidates(nodes, d);
        assert(rest.push(x)[rest.len() as int] == x);
    }
}

proof fn lemma_dedup_keeps<T>(s: Seq<T>, x: T)
    requires
        s.contains(x),
    ensures
        dedup_seq(s).contains(x),
    decreases s.len(),
{
    let d = s.drop_last();
    let k = choose|k: int| 0 <= k < s.len() && s[k] == x;
    if k < s.len() - 1 {
        assert(d[k] == x);
        lemma_dedup_keeps(d, x);
        let dd = dedup_seq(d);
        let j = choose|j: int| 0 <= j < dd.len() && dd[j] == x;
        if !(s.len() >= 2 && s[s.len() - 2] == s.last()) {
            assert(dd.push(s.last())[j] == x);
        }
    } else if s.len() >= 2 && s[s.len() - 2] == s.last() {
        assert(d[s.len() - 2] == x);
        lemma_dedup_keeps(d, x);
    } else {
        let dd = dedup_seq(d);
        assert(dd.push(s.last())[dd.len() as int] == x);
    }
}

/// A call from a test file (one whose name ends, in any ASCII case, with `.test.ts`,
/// `.test.tsx`, `.spec.ts` or `.spec.tsx`) to a node outside the tests is a strong,
/// proven direct-call relation of the related-test evidence, unless the evidence was
/// capped.
pub proof fn law_calls_from_test_files_relate_their_targets(
    r: RelatedTestEvidence,
    nodes: Seq<GraphNode>,
    edges: Seq<GraphEdge>,
    i: int,
    test: GraphNode,
    target: GraphNode,
)
    requires
        related_evidence(r, nodes, edges),
        !r.truncated,
        0 <= i < edges.len(),
        edges[i].kind@ == "calls"@,
        node_by_id(nodes, edges[i].from@) == Some(test),
        node_by_id(nodes, edges[i].to@) == Some(target),
        test.path is Some,
        target.path is Some,
        ({
            let lower = ascii_lower_seq(test.path->Some_0@);
            ||| seq_ends_with(lower, ".test.ts"@)
            ||| seq_ends_with(lower, ".test.tsx"@)
            ||| seq_ends_with(lower, ".spec.ts"@)
            ||| seq_ends_with(lower, ".spec.tsx"@)
        }),
        !spec_is_test_path(target.path->Some_0@),
    ensures
        related_views(r.records@).contains(
            (test.path->Some_0@, test.id@, target.id@, "direct-call"@, "strong"@, "proven"@, edges[i].evidence@),
        ),
{
    let tp = test.path->Some_0@;
    law_test_and_spec_files_are_tests(tp, spec_is_test_path(tp));
    reveal_strlit("calls");
    reveal_strlit("constructs");
    reveal_strlit("imports");
    reveal_strlit("direct-call");
    reveal_strlit("direct-import");
    assert("calls"@.len() == 5 && "constructs"@.len() == 10 && "imports"@.len() == 7);
    assert("direct-call"@.len() == 11 && "direct-import"@.len() == 13);
    let x = (tp, test.id@, target.id@, "direct-call"@, "strong"@, "proven"@, edges[i].evidence@);
    assert(related_of_edge(nodes, edges[i]) == Some(x));
    lemma_candidates_hold_edge_records(nodes, edges, i);
    let (found, sorted) = choose|found: Seq<RelatedTestRecord>, sorted: Seq<RelatedTestRecord>|
        {
            &&& related_views(found) == related_candidates(nodes, edges)
            &&& sorted.to_multiset() == found.to_multiset()
            &&& related_sorted(sorted)
            &&& {
                let unique = dedup_seq(related_views(sorted));
                &&& r.truncated == (unique.len() > MAX_RELATED_TEST_RECORDS)
                &&& related_views(r.records@) == if r.truncated {
                    unique.take(MAX_RELATED_TEST_RECORDS as int)
                } else {
                    unique
                }
            }
            &&& r.schema_version@ == RELATED_TEST_EVIDENCE_SCHEMA@
            &&& r.status@ == if r.truncated {
                "truncated"@
            } else {
                "complete"@
            }
            &&& views(r.omissions@) == if r.truncated {
                seq![RELATED_TESTS_CAPPED@]
            } else {
                Seq::empty()
            }
        };
    let k = choose|k: int| 0 <= k < related_views(found).len() && related_views(found)[k] == x;
    let rec = found[k];
    broadcast use vstd::seq_lib::group_to_multiset_ensures;
    assert(found.contains(rec));
    assert(sorted.to_multiset().count(rec) > 0);
    assert(sorted.contains(rec));
    let j = choose|j: int| 0 <= j < sorted.len() && sorted[j] == rec;
    assert(related_views(sorted)[j] == x);
    lemma_dedup_keeps(related_views(sorted), x);
}

} // verus!
