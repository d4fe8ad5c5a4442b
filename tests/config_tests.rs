use ksecret::config::{default_prefix, Config};
use ksecret::errors::ErrorKind;

fn cfg() -> Config {
    Config { gcp_project_id: "my-proj".to_string(), secret_prefix: "k8s".to_string() }
}

#[test]
fn default_prefix_is_k8s() {
    assert_eq!(default_prefix(), "k8s");
    let c = Config::new("proj-a");
    assert_eq!(c.gcp_project_id, "proj-a");
    assert_eq!(c.secret_prefix, "k8s");
}

#[test]
fn builds_secret_name() {
    assert_eq!(cfg().build_secret_name("dev", "db-password"), "k8s-dev-db-password");
    assert_eq!(cfg().build_env_prefix("dev"), "k8s-dev-");
}

#[test]
fn builds_resource_and_version_names() {
    let c = cfg();
    assert_eq!(c.build_parent(), "projects/my-proj");
    assert_eq!(c.build_resource_name("dev", "api"), "projects/my-proj/secrets/k8s-dev-api");
    assert_eq!(
        c.build_version_name("dev", "api", "latest"),
        "projects/my-proj/secrets/k8s-dev-api/versions/latest"
    );
}

#[test]
fn parse_round_trip() {
    let c = cfg();
    let full = c.build_secret_name("prod", "token");
    assert_eq!(c.parse_secret_name(&full), Some(("prod".to_string(), "token".to_string())));
    let full = c.build_secret_name("dev", "db-password");
    assert_eq!(c.parse_secret_name(&full), Some(("dev".to_string(), "db-password".to_string())));
}

#[test]
fn parse_is_ambiguous_with_separator_in_environment() {
    let c = cfg();
    let full = c.build_secret_name("eu-west", "api");
    assert_eq!(c.parse_secret_name(&full), Some(("eu".to_string(), "west-api".to_string())));
}

#[test]
fn parse_rejects_foreign_names() {
    let c = cfg();
    assert_eq!(c.parse_secret_name("other-dev-x"), None);
    assert_eq!(c.parse_secret_name("k8s-devonly"), None);
    assert_eq!(c.parse_secret_name("k8s"), None);
    assert_eq!(c.parse_secret_name("k8sXdev-x"), None);
    assert_eq!(c.parse_secret_name("k8s-dev-"), Some(("dev".to_string(), "".to_string())));
}

#[test]
fn resolve_without_file_or_project_fails() {
    assert!(matches!(Config::resolve(None, None), Err(ErrorKind::ConfigMissing)));
}

#[test]
fn resolve_override_without_file_uses_default_prefix() {
    let c = Config::resolve(None, Some("proj-b".to_string())).unwrap();
    assert_eq!(c.gcp_project_id, "proj-b");
    assert_eq!(c.secret_prefix, "k8s");
}

#[test]
fn resolve_override_replaces_file_project() {
    let file = Config { gcp_project_id: "proj-a".to_string(), secret_prefix: "app".to_string() };
    let c = Config::resolve(Some(file), Some("proj-c".to_string())).unwrap();
    assert_eq!(c.gcp_project_id, "proj-c");
    assert_eq!(c.secret_prefix, "app");
    let file = Config { gcp_project_id: "proj-a".to_string(), secret_prefix: "app".to_string() };
    let c = Config::resolve(Some(file), None).unwrap();
    assert_eq!(c.gcp_project_id, "proj-a");
}
