use flopeek_core::identity::{checkout_id, identity_from_manifest, repository_project_id, unavailable_identity, MANIFEST_SCHEMA};

fn manifest(id: &str) -> (Vec<u8>, Vec<(String, Option<String>)>) {
    let text = format!("{{\"schemaVersion\":\"{MANIFEST_SCHEMA}\",\"repositoryId\":\"{id}\"}}");
    let fields = vec![
        ("schemaVersion".to_string(), Some(MANIFEST_SCHEMA.to_string())),
        ("repositoryId".to_string(), Some(id.to_string())),
    ];
    (text.into_bytes(), fields)
}

#[test]
fn one_manifest_gives_two_checkouts_one_project() {
    let id = "repo_123e4567-e89b-12d3-a456-426614174000";
    let (bytes, fields) = manifest(id);
    let left = identity_from_manifest(checkout_id("/work/left"), &bytes, Ok(fields.clone())).unwrap();
    let right = identity_from_manifest(checkout_id("/work/right"), &bytes, Ok(fields)).unwrap();
    assert_eq!(left.project_id, right.project_id);
    assert_eq!(left.project_id, repository_project_id(id));
    assert_ne!(left.checkout_id, right.checkout_id);
    assert_eq!(left.repository_id.as_deref(), Some(id));

    let (bad_bytes, bad_fields) = manifest("bad");
    let refused = identity_from_manifest(checkout_id("/work/left"), &bad_bytes, Ok(bad_fields)).unwrap_err();
    assert!(refused.contains("repository-identity-manifest-invalid"));

    let local = unavailable_identity(checkout_id("/work/plain"));
    assert_eq!(local.project_id, local.checkout_id);
    assert_eq!(local.basis.status, "unavailable");
    assert!(local.basis.limitations.contains(&"cross-checkout-context-unavailable".to_string()));
}
