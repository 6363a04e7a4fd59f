use orchd::deploy::{
    contract_numbers, enforce_schema_contract_guard, extract_push_target, managed_repo_from_override,
    schema_contract_from_built_orchd,
};
use orchd::webhook::WebhookPayload;

fn push(push_ref: &str, after: &str) -> WebhookPayload {
    WebhookPayload {
        action: None,
        repository: None,
        issue: None,
        comment: None,
        sender: None,
        push_ref: Some(push_ref.to_string()),
        after: Some(after.to_string()),
        deleted: Some(false),
    }
}

#[test]
fn extract_push_target_accepts_branch_tip_updates() {
    let payload = push("refs/heads/main", "1234567890abcdef1234567890abcdef12345678");
    let target = extract_push_target(&payload, "main");
    assert_eq!(
        target,
        Some((
            "main".to_string(),
            "1234567890abcdef1234567890abcdef12345678".to_string()
        ))
    );
}

#[test]
fn extract_push_target_rejects_null_sha_or_wrong_branch() {
    let payload = push("refs/heads/dev", "0000000000000000000000000000000000000000");
    assert_eq!(extract_push_target(&payload, "main"), None);
}

#[test]
fn pushes_that_delete_or_name_no_commit_are_no_targets() {
    let mut gone = push("refs/heads/main", "1234567890abcdef1234567890abcdef12345678");
    gone.deleted = Some(true);
    assert_eq!(extract_push_target(&gone, "main"), None);
    let null = push("refs/heads/main", "0000000000000000000000000000000000000000");
    assert_eq!(extract_push_target(&null, "main"), None);
    let tag = push("refs/tags/v1", "1234567890abcdef1234567890abcdef12345678");
    assert_eq!(extract_push_target(&tag, "main"), None);
}

#[test]
fn managed_repo_override_parses_and_falls_back() {
    let parsed = managed_repo_from_override(Some("itest-owner/itest-repo"));
    assert_eq!(parsed.owner, "itest-owner");
    assert_eq!(parsed.repo, "itest-repo");

    let fallback = managed_repo_from_override(Some("not-a-repo-ref"));
    assert_eq!(fallback.owner, "main");
    assert_eq!(fallback.repo, "forgejo-agent");
}

#[test]
fn schema_contracts_are_read_from_json() {
    assert_eq!(
        schema_contract_from_built_orchd("{\"latest\": 13, \"min_compatible\": 1}\n"),
        Ok((13, 1))
    );
    assert_eq!(
        schema_contract_from_built_orchd("{\"latest\": 13.5}"),
        Err("schema-contract JSON missing latest".to_string())
    );
    assert_eq!(
        schema_contract_from_built_orchd("{\"latest\": 13}"),
        Err("schema-contract JSON missing min_compatible".to_string())
    );
    match schema_contract_from_built_orchd(" nonsense \n") {
        Ok(_) => panic!("this is not JSON"),
        Err(e) => assert!(e.starts_with("invalid schema-contract JSON: nonsense: "), "{e}"),
    }
    assert_eq!(contract_numbers(Some(2), Some(1)), Ok((2, 1)));
    assert_eq!(contract_numbers(None, None), Err("schema-contract JSON missing latest".to_string()));
}

#[test]
fn releases_are_held_to_the_schema_of_the_database() {
    assert_eq!(enforce_schema_contract_guard(7, 13, 1), Ok((13, 1, 7)));
    assert_eq!(
        enforce_schema_contract_guard(14, 13, 1),
        Err("schema downgrade blocked: source schema 13 < db schema 14".to_string())
    );
    assert_eq!(
        enforce_schema_contract_guard(0, 13, 1),
        Err("schema incompatible: db schema 0 < binary minimum compatible 1".to_string())
    );
}
