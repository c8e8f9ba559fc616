use flopeek_core::model::{
    diagnostic_context_basis_fingerprint, DiagnosticContext, GraphBasis, DIAGNOSTIC_CONTEXT_SCHEMA,
};

fn context() -> DiagnosticContext {
    DiagnosticContext {
        schema_version: DIAGNOSTIC_CONTEXT_SCHEMA.to_string(),
        id: "context-basis".to_string(),
        project_id: "project-basis".to_string(),
        revision: 1,
        intent: "diagnose".to_string(),
        symptom: "timeout".to_string(),
        expected_behavior: "completes".to_string(),
        focus_context_refs: vec![
            "fp://local/project/node/b".to_string(),
            "fp://local/project/node/a".to_string(),
        ],
        focus_flow_refs: vec!["fp://local/project/flow/f".to_string()],
        current_graph_basis: GraphBasis {
            project_id: "project-basis".to_string(),
            graph_id: "graph-a".to_string(),
            graph_version: 1,
            source_revision: "revision-a".to_string(),
            observation_id: "observation-a".to_string(),
        },
        last_known_good_basis: None,
        last_known_good_binding_id: None,
        last_known_good_candidate_id: None,
        constraints: vec!["bounded".to_string()],
        acceptance_criteria: vec!["verified".to_string()],
        unresolved_questions: vec!["runtime?".to_string()],
        actor: "alice".to_string(),
        created_at: 1,
        status: "open".to_string(),
        supersedes: None,
    }
}

#[test]
fn definition_fingerprint_tracks_only_normative_definition_fields() {
    let original = context();
    let fingerprint = diagnostic_context_basis_fingerprint(&original);
    assert!(fingerprint.starts_with("sha256:"));
    assert_eq!(fingerprint.len(), "sha256:".len() + 64);

    let mut reordered = original.clone();
    reordered.focus_context_refs.reverse();
    reordered
        .focus_context_refs
        .push(reordered.focus_context_refs[0].clone());
    reordered.revision = 99;
    reordered.current_graph_basis.graph_id = "graph-b".to_string();
    reordered.last_known_good_candidate_id = Some("candidate".to_string());
    reordered.actor = "bob".to_string();
    reordered.created_at = 2;
    reordered.status = "closed".to_string();
    assert_eq!(diagnostic_context_basis_fingerprint(&reordered), fingerprint);

    let mutations: Vec<Box<dyn Fn(&mut DiagnosticContext)>> = vec![
        Box::new(|value| value.intent = "audit".to_string()),
        Box::new(|value| value.symptom = "different".to_string()),
        Box::new(|value| value.expected_behavior = "different".to_string()),
        Box::new(|value| {
            value
                .focus_context_refs
                .push("fp://local/project/node/c".to_string())
        }),
        Box::new(|value| value.focus_flow_refs.clear()),
        Box::new(|value| value.constraints.push("offline".to_string())),
        Box::new(|value| value.acceptance_criteria.push("reviewed".to_string())),
        Box::new(|value| value.unresolved_questions.clear()),
    ];
    for mutate in mutations {
        let mut changed = original.clone();
        mutate(&mut changed);
        assert_ne!(diagnostic_context_basis_fingerprint(&changed), fingerprint);
    }
}
