use orchd::signature::{signature_of, verify_signature};
use orchd::webhook::{
    extract_event_context, WebhookComment, WebhookIssue, WebhookPayload, WebhookRepository,
    WebhookSender,
};

const JEFE: &str = "5bdcc146bf60754e6a042426089575c75a003f089d2739839dec58b964ec3843";

#[test]
fn bodies_are_signed_with_a_keyed_digest() {
    assert_eq!(signature_of(b"Jefe", b"what do ya want for nothing?"), JEFE);
    let key = vec![0x0bu8; 20];
    assert_eq!(
        signature_of(&key, b"Hi There"),
        "b0344c61d8db38535ca8afceaf0bf12b881dc200c9833da726e9376c2e32cff7"
    );
}

#[test]
fn long_secrets_are_digested_first() {
    let key = vec![0xaau8; 131];
    assert_eq!(
        signature_of(&key, b"Test Using Larger Than Block-Size Key - Hash Key First"),
        "60e431591ee0b67f0d8a26aacbf5b77f8e0bc6213728c5140546040f0ee37f54"
    );
}

#[test]
fn only_signed_bodies_are_genuine() {
    let body = b"what do ya want for nothing?";
    let secret = Some(b"Jefe".to_vec());
    assert!(verify_signature(&None, &None, body).is_ok());
    assert!(verify_signature(&secret, &Some(JEFE.to_string()), body).is_ok());
    let named = format!(" sha256={} ", JEFE.to_uppercase());
    assert!(verify_signature(&secret, &Some(named), body).is_ok());
    assert_eq!(
        verify_signature(&secret, &None, body),
        Err("missing webhook signature".to_string())
    );
    assert_eq!(
        verify_signature(&secret, &Some(JEFE.to_string()), b"something else"),
        Err("invalid webhook signature".to_string())
    );
}

fn payload() -> WebhookPayload {
    WebhookPayload {
        action: Some("created".to_string()),
        repository: Some(WebhookRepository { full_name: "main/orchd-debug".to_string() }),
        issue: Some(WebhookIssue {
            number: 7,
            body: Some("the issue".to_string()),
            created_at: Some("2026-01-01T00:00:00Z".to_string()),
        }),
        comment: Some(WebhookComment {
            id: 42,
            body: Some("the comment".to_string()),
            created_at: Some("2026-01-02T00:00:00Z".to_string()),
        }),
        sender: Some(WebhookSender { login: "main".to_string() }),
        push_ref: None,
        after: None,
        deleted: None,
    }
}

#[test]
fn events_are_known_by_their_source() {
    let of_comment = extract_event_context("issue_comment", &payload()).unwrap();
    assert_eq!(of_comment.repo_full_name, "main/orchd-debug");
    assert_eq!(of_comment.issue_number, Some(7));
    assert_eq!(of_comment.actor_login.as_deref(), Some("main"));
    assert_eq!(of_comment.text.as_deref(), Some("the comment"));
    assert_eq!(of_comment.source_comment_id, Some(42));
    assert_eq!(of_comment.source_created_at.as_deref(), Some("2026-01-02T00:00:00Z"));
    let of_issue = extract_event_context("issues", &payload()).unwrap();
    assert_eq!(of_issue.text.as_deref(), Some("the issue"));
    assert_eq!(of_issue.source_comment_id, None);
    assert_eq!(of_issue.source_created_at.as_deref(), Some("2026-01-01T00:00:00Z"));
    let mut nowhere = payload();
    nowhere.repository = None;
    assert!(extract_event_context("issues", &nowhere).is_none());
}
