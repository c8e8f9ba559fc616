use flopeek_core::graph::node_fingerprints::assign_node_fingerprints;
use flopeek_core::model::{GraphEdge, GraphNode};

fn node(id: &str, kind: &str) -> GraphNode {
    GraphNode {
        id: id.to_string(),
        kind: kind.to_string(),
        path: None,
        name: None,
        language: None,
        evidence_fingerprint: String::new(),
    }
}

fn edge(from: &str, to: &str, kind: &str) -> GraphEdge {
    GraphEdge {
        from: from.to_string(),
        to: to.to_string(),
        kind: kind.to_string(),
        evidence: "direct".to_string(),
    }
}

fn fingerprints(nodes: &[GraphNode], edges: &[GraphEdge]) -> Vec<String> {
    let mut nodes = nodes.to_vec();
    assign_node_fingerprints(&mut nodes, edges, &[]);
    nodes.into_iter().map(|node| node.evidence_fingerprint).collect()
}

#[test]
fn node_fingerprints_track_direct_edges_only() {
    let nodes = vec![node("a", "function"), node("b", "function"), node("c", "function")];
    let base = fingerprints(&nodes, &[edge("a", "b", "calls")]);
    assert_eq!(base.len(), 3);
    assert!(base.iter().all(|fp| fp.len() == 64));
    assert_ne!(base[0], base[2]);
    let reordered = fingerprints(&nodes, &[edge("b", "c", "declares"), edge("a", "b", "calls")]);
    assert_eq!(reordered, base);
    let more = fingerprints(&nodes, &[edge("a", "b", "calls"), edge("b", "c", "calls")]);
    assert_eq!(more[0], base[0]);
    assert_ne!(more[1], base[1]);
    assert_ne!(more[2], base[2]);
    let again = fingerprints(&nodes, &[edge("a", "b", "calls")]);
    assert_eq!(again, base);
}
