use ksecret::config::Config;
use ksecret::listing::{created_text, formatted_or_unknown, listed_short_name, next_page_token, RemoteSecret, SecretListing};

#[test]
fn short_name_strips_path_and_prefix() {
    assert_eq!(
        listed_short_name("k8s-dev-", "projects/p/secrets/k8s-dev-db-password"),
        Some("db-password".to_string())
    );
    assert_eq!(listed_short_name("k8s-dev-", "k8s-dev-api"), Some("api".to_string()));
    assert_eq!(listed_short_name("k8s-dev-", "projects/p/secrets/k8s-prod-api"), None);
    assert_eq!(listed_short_name("k8s-dev-", "projects/k8s-dev-x/secrets/other"), None);
}

#[test]
fn created_time_is_formatted_in_utc() {
    assert_eq!(created_text(Some((0, 0))), Some("1970-01-01 00:00:00 UTC".to_string()));
    assert_eq!(created_text(Some((86_400 + 61, 0))), Some("1970-01-02 00:01:01 UTC".to_string()));
    assert_eq!(created_text(Some((i64::MAX, 0))), Some("Unknown".to_string()));
    assert_eq!(created_text(None), None);
}

#[test]
fn listing_gathers_matching_secrets() {
    let cfg = Config { gcp_project_id: "p".to_string(), secret_prefix: "k8s".to_string() };
    let mut l = SecretListing::new(&cfg, "dev");
    let page = vec![
        RemoteSecret { resource_name: "projects/p/secrets/k8s-dev-a".to_string(), create_time: Some((0, 0)) },
        RemoteSecret { resource_name: "projects/p/secrets/k8s-prod-b".to_string(), create_time: None },
        RemoteSecret { resource_name: "projects/p/secrets/k8s-dev-c".to_string(), create_time: None },
    ];
    l.accept_page(&page);
    assert_eq!(l.len(), 2);
    let s = l.into_secrets();
    assert_eq!(s[0].name, "a");
    assert_eq!(s[0].environment, "dev");
    assert_eq!(s[0].created_at, Some("1970-01-01 00:00:00 UTC".to_string()));
    assert_eq!(s[1].name, "c");
    assert_eq!(s[1].created_at, None);
}

#[test]
fn page_token_ends_listing_when_empty() {
    assert_eq!(next_page_token(String::new()), None);
    assert_eq!(next_page_token("t1".to_string()), Some("t1".to_string()));
}

#[test]
fn unformattable_time_reads_unknown() {
    assert_eq!(formatted_or_unknown(None), "Unknown");
    assert_eq!(formatted_or_unknown(Some("t".to_string())), "t");
}
