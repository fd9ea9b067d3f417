use hmac::{Hmac, Mac};
use site_sync::catalog::{Catalog, CatalogError};
use site_sync::changeset::PathSet;
use site_sync::promote::plan_promotion;
use site_sync::resolve::Commit;
use site_sync::signature::AuthError;
use site_sync::webhook::{decide_webhook, is_tracked_ref, SyncConfig, SyncJob, WebhookDecision, WebhookError, WebhookPayload};
use std::collections::BTreeMap;

const BODY: &str = r#"{"ref":"refs/heads/main","repository":{"full_name":"org/repo"},"commits":[{"id":"abc","added":["static/a.png"],"modified":[],"removed":["static/old.png"]}]}"#;

fn config() -> SyncConfig {
    SyncConfig {
        secret: b"webhook-secret".to_vec(),
        bearer: b"bearer-token".to_vec(),
        branch: "main".to_string(),
        catalog: Catalog::from_tables("org/repo;static/|org/nodest;x/", "org/repo;site"),
    }
}

fn sign(secret: &[u8], body: &[u8]) -> Vec<u8> {
    let mut mac = Hmac::<sha2::Sha256>::new_from_slice(secret).unwrap();
    mac.update(body);
    let tag = mac.finalize().into_bytes();
    let hex: String = tag.iter().map(|b| format!("{b:02x}")).collect();
    format!("sha256={hex}").into_bytes()
}

fn scenario_payload() -> WebhookPayload {
    WebhookPayload {
        git_ref: Some("refs/heads/main".to_string()),
        repository: Some("org/repo".to_string()),
        commits: Some(vec![Commit {
            added: vec!["static/a.png".to_string()],
            modified: vec![],
            removed: vec!["static/old.png".to_string()],
        }]),
    }
}

fn job_of(d: Result<WebhookDecision, WebhookError>) -> SyncJob {
    match d {
        Ok(WebhookDecision::Synchronize(job)) => job,
        _ => panic!("expected a synchronisation job"),
    }
}

#[test]
fn scenario_signed_push_is_synchronised() {
    let cfg = config();
    let sig = sign(&cfg.secret, BODY.as_bytes());
    let job = job_of(decide_webhook(&cfg, Some(&sig), BODY.as_bytes(), Some(scenario_payload())));
    assert_eq!(job.repository, "org/repo");
    assert_eq!(job.mapping.dest_subfolder, "site");
    let mut staged = PathSet::new();
    staged.insert("static/a.png".to_string());
    let plan = plan_promotion(&job.changes, &job.mapping, &staged);
    assert_eq!(plan.deletions, vec!["site/old.png".to_string()]);
    assert_eq!(plan.moves.len(), 1);
    assert_eq!(plan.moves[0].staged, "static/a.png");
    assert_eq!(plan.moves[0].target, "site/a.png");
}

#[test]
fn push_to_other_branch_is_noop() {
    let cfg = config();
    let mut p = scenario_payload();
    p.git_ref = Some("refs/heads/dev".to_string());
    let sig = sign(&cfg.secret, BODY.as_bytes());
    let d = decide_webhook(&cfg, Some(&sig), BODY.as_bytes(), Some(p));
    assert!(matches!(d, Ok(WebhookDecision::OtherBranch)));
}

#[test]
fn signature_from_other_secret_is_unauthorized() {
    let cfg = config();
    let sig = sign(b"another-secret", BODY.as_bytes());
    let d = decide_webhook(&cfg, Some(&sig), BODY.as_bytes(), Some(scenario_payload()));
    assert!(matches!(d, Err(WebhookError::Unauthorized(AuthError::Mismatch))));
}

#[test]
fn missing_signature_is_unauthorized() {
    let cfg = config();
    let d = decide_webhook(&cfg, None, BODY.as_bytes(), Some(scenario_payload()));
    assert!(matches!(d, Err(WebhookError::Unauthorized(AuthError::MissingHeader))));
}

#[test]
fn webhook_client_errors() {
    let cfg = config();
    let sig = sign(&cfg.secret, BODY.as_bytes());
    let d = decide_webhook(&cfg, Some(&sig), BODY.as_bytes(), None);
    assert!(matches!(d, Err(WebhookError::MalformedPayload)));

    let mut p = scenario_payload();
    p.git_ref = None;
    let d = decide_webhook(&cfg, Some(&sig), BODY.as_bytes(), Some(p));
    assert!(matches!(d, Err(WebhookError::MissingRef)));

    let mut p = scenario_payload();
    p.repository = None;
    let d = decide_webhook(&cfg, Some(&sig), BODY.as_bytes(), Some(p));
    assert!(matches!(d, Err(WebhookError::MissingRepository)));

    let mut p = scenario_payload();
    p.repository = Some("org/unknown".to_string());
    let d = decide_webhook(&cfg, Some(&sig), BODY.as_bytes(), Some(p));
    assert!(matches!(d, Err(WebhookError::Catalog(CatalogError::UnknownRepository))));

    let mut p = scenario_payload();
    p.repository = Some("org/nodest".to_string());
    let d = decide_webhook(&cfg, Some(&sig), BODY.as_bytes(), Some(p));
    assert!(matches!(d, Err(WebhookError::Catalog(CatalogError::NoDestination))));
}

#[test]
fn push_without_commits_is_noop() {
    let cfg = config();
    let sig = sign(&cfg.secret, BODY.as_bytes());
    let mut p = scenario_payload();
    p.commits = None;
    let d = decide_webhook(&cfg, Some(&sig), BODY.as_bytes(), Some(p));
    assert!(matches!(d, Ok(WebhookDecision::NoCommits)));
}

#[test]
fn paths_outside_prefix_never_resolved() {
    let cfg = config();
    let sig = sign(&cfg.secret, BODY.as_bytes());
    let mut p = scenario_payload();
    p.commits = Some(vec![Commit {
        added: vec!["src/lib.rs".to_string(), "static/x".to_string()],
        modified: vec!["Cargo.toml".to_string()],
        removed: vec!["docs/static/y".to_string()],
    }]);
    let job = job_of(decide_webhook(&cfg, Some(&sig), BODY.as_bytes(), Some(p)));
    assert_eq!(job.changes.added.to_vec(), vec!["static/x".to_string()]);
    assert_eq!(job.changes.modified.len(), 0);
    assert_eq!(job.changes.removed.len(), 0);
}

#[test]
fn tracked_ref_match() {
    assert!(is_tracked_ref("refs/heads/main", "main"));
    assert!(!is_tracked_ref("refs/heads/main2", "main"));
    assert!(!is_tracked_ref("refs/tags/main", "main"));
    assert!(!is_tracked_ref("main", "main"));
}

fn apply(tree: &mut BTreeMap<String, String>, cfg: &SyncConfig, staging: &BTreeMap<String, String>) {
    let sig = sign(&cfg.secret, BODY.as_bytes());
    let job = job_of(decide_webhook(cfg, Some(&sig), BODY.as_bytes(), Some(scenario_payload())));
    let mut staged = PathSet::new();
    for k in staging.keys() {
        staged.insert(k.clone());
    }
    let plan = plan_promotion(&job.changes, &job.mapping, &staged);
    for d in &plan.deletions {
        tree.remove(d);
    }
    for m in &plan.moves {
        tree.insert(m.target.clone(), staging[&m.staged].clone());
    }
}

#[test]
fn replayed_notification_changes_nothing() {
    let cfg = config();
    let mut staging = BTreeMap::new();
    staging.insert("static/a.png".to_string(), "png bytes".to_string());
    let mut tree = BTreeMap::new();
    tree.insert("site/old.png".to_string(), "old".to_string());
    tree.insert("site/keep.txt".to_string(), "keep".to_string());
    apply(&mut tree, &cfg, &staging);
    let once = tree.clone();
    apply(&mut tree, &cfg, &staging);
    assert_eq!(tree, once);
    assert_eq!(once.get("site/a.png").map(|s| s.as_str()), Some("png bytes"));
    assert!(!once.contains_key("site/old.png"));
    assert_eq!(once.len(), 2);
}
