use ksecret::config::Config;
use ksecret::errors::ErrorKind;
use ksecret::sync::{SyncAction, SyncPhase, SyncRun, MANAGED_BY_LABEL, MANAGED_BY_VALUE};

fn cfg() -> Config {
    Config { gcp_project_id: "proj".to_string(), secret_prefix: "k8s".to_string() }
}

fn page(names: &[&str]) -> Vec<String> {
    names.iter().map(|n| format!("projects/proj/secrets/{}", n)).collect()
}

fn started(dry_run: bool) -> SyncRun {
    let (mut run, first) = SyncRun::start(&cfg(), "dev", None, dry_run);
    match first {
        SyncAction::CheckNamespace { namespace } => assert_eq!(namespace, "dev"),
        _ => panic!("first step must check the namespace"),
    }
    match run.on_namespace(true) {
        SyncAction::ListPage { parent, page_token } => {
            assert_eq!(parent, "projects/proj");
            assert_eq!(page_token, None);
        }
        _ => panic!("listing must follow the namespace check"),
    }
    run
}

#[test]
fn managed_by_label_is_fixed() {
    assert_eq!(MANAGED_BY_LABEL, "app.kubernetes.io/managed-by");
    assert_eq!(MANAGED_BY_VALUE, "ksecret");
}

#[test]
fn namespace_override_is_used() {
    let (_, first) = SyncRun::start(&cfg(), "dev", Some("team-a".to_string()), false);
    match first {
        SyncAction::CheckNamespace { namespace } => assert_eq!(namespace, "team-a"),
        _ => panic!("first step must check the namespace"),
    }
}

#[test]
fn missing_namespace_aborts_before_listing() {
    let (mut run, _) = SyncRun::start(&cfg(), "dev", None, false);
    match run.on_namespace(false) {
        SyncAction::Aborted { kind, item } => {
            assert_eq!(kind, ErrorKind::NamespaceNotFound);
            assert_eq!(item, None);
        }
        _ => panic!("a missing namespace must abort"),
    }
    assert_eq!(run.phase(), SyncPhase::Done);
}

#[test]
fn no_matching_secret_is_a_no_op() {
    let mut run = started(false);
    let action = run.on_page(&page(&["k8s-prod-a", "other-dev-b"]), String::new());
    assert!(matches!(action, SyncAction::NothingToSync));
    assert_eq!(run.phase(), SyncPhase::Done);
}

#[test]
fn pages_are_followed_until_the_token_is_empty() {
    let mut run = started(true);
    match run.on_page(&page(&["k8s-dev-a"]), "next".to_string()) {
        SyncAction::ListPage { parent, page_token } => {
            assert_eq!(parent, "projects/proj");
            assert_eq!(page_token, Some("next".to_string()));
        }
        _ => panic!("a non-empty token asks for another page"),
    }
    match run.on_page(&page(&["k8s-dev-b"]), String::new()) {
        SyncAction::Finished { applied, skipped } => {
            assert_eq!(applied, 0);
            assert_eq!(skipped, vec!["a".to_string(), "b".to_string()]);
        }
        _ => panic!("a dry run finishes after listing"),
    }
}

#[test]
fn dry_run_fetches_and_applies_nothing() {
    let mut run = started(true);
    let action = run.on_page(&page(&["k8s-dev-a", "k8s-dev-b", "k8s-dev-c"]), String::new());
    match action {
        SyncAction::Finished { applied, skipped } => {
            assert_eq!(applied, 0);
            assert_eq!(skipped.len(), 3);
        }
        _ => panic!("a dry run must not fetch or apply"),
    }
    assert_eq!(run.phase(), SyncPhase::Done);
}

#[test]
fn plain_secret_is_applied_as_value_field() {
    let mut run = started(false);
    match run.on_page(&page(&["k8s-dev-db-password"]), String::new()) {
        SyncAction::FetchValue { name, version } => {
            assert_eq!(name, "db-password");
            assert_eq!(version, "projects/proj/secrets/k8s-dev-db-password/versions/latest");
        }
        _ => panic!("a live run fetches the first value"),
    }
    match run.on_value("hunter2") {
        SyncAction::Apply { namespace, name, fields } => {
            assert_eq!(namespace, "dev");
            assert_eq!(name, "db-password");
            assert_eq!(fields.to_pairs(), vec![("value".to_string(), "hunter2".to_string())]);
        }
        _ => panic!("a fetched value is applied"),
    }
    match run.on_applied() {
        SyncAction::Finished { applied, skipped } => {
            assert_eq!(applied, 1);
            assert!(skipped.is_empty());
        }
        _ => panic!("the run finishes after the last secret"),
    }
}

#[test]
fn json_secret_is_applied_as_its_members() {
    let mut run = started(false);
    run.on_page(&page(&["k8s-dev-creds"]), String::new());
    match run.on_value(r#"{"user":"admin","pass":"x"}"#) {
        SyncAction::Apply { fields, .. } => {
            assert_eq!(
                fields.to_pairs(),
                vec![
                    ("user".to_string(), "admin".to_string()),
                    ("pass".to_string(), "x".to_string())
                ]
            );
        }
        _ => panic!("a fetched value is applied"),
    }
}

#[test]
fn secrets_are_processed_in_order_and_failure_stops_the_run() {
    let mut run = started(false);
    run.on_page(&page(&["k8s-dev-a", "k8s-dev-b", "k8s-dev-c"]), String::new());
    run.on_value("1");
    match run.on_applied() {
        SyncAction::FetchValue { name, .. } => assert_eq!(name, "b"),
        _ => panic!("the second secret comes next"),
    }
    match run.on_failure(ErrorKind::RemotePermission) {
        SyncAction::Aborted { kind, item } => {
            assert_eq!(kind, ErrorKind::RemotePermission);
            assert_eq!(item, Some("b".to_string()));
        }
        _ => panic!("a failure aborts"),
    }
    assert_eq!(run.phase(), SyncPhase::Done);
}

#[test]
fn failure_while_listing_names_no_item() {
    let mut run = started(false);
    match run.on_failure(ErrorKind::RemoteUnavailable) {
        SyncAction::Aborted { kind, item } => {
            assert_eq!(kind, ErrorKind::RemoteUnavailable);
            assert_eq!(item, None);
        }
        _ => panic!("a failure aborts"),
    }
}
