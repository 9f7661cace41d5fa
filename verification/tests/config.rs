use yeti_benchmarks::config::is_well_formed_target;
use yeti_benchmarks::config::split_credentials;
use yeti_benchmarks::config::ConfigError;
use yeti_benchmarks::config::RunConfig;
use yeti_benchmarks::scenario::find_test;
use yeti_benchmarks::scenario::test_catalogue;

#[test]
fn catalogue_lists_every_test_once() {
    let all = test_catalogue();
    assert_eq!(all.len(), 12);
    let ids: Vec<&str> = all.iter().map(|t| t.id).collect();
    assert_eq!(
        ids,
        vec![
            "rest-read",
            "rest-write",
            "rest-update",
            "rest-join",
            "graphql-read",
            "graphql-mutation",
            "graphql-join",
            "vector-embed",
            "vector-search",
            "ws",
            "sse",
            "blob-retrieval"
        ]
    );
    for def in &all {
        assert_eq!(def.duration, 30);
        assert_eq!(def.vus, 50);
    }
}

#[test]
fn find_test_returns_the_named_entry() {
    let ws = find_test("ws").unwrap();
    assert_eq!(ws.id, "ws");
    assert_eq!(ws.name, "WebSocket");
    assert_eq!(ws.binary, "load-realtime");
    let blob = find_test("blob-retrieval").unwrap();
    assert_eq!(blob.name, "150k Blob Retrieval");
    assert_eq!(blob.binary, "load-blob");
    assert_eq!(find_test("graphql-join").unwrap().binary, "load-graphql");
}

#[test]
fn find_test_rejects_other_names() {
    assert!(find_test("").is_none());
    assert!(find_test("rest").is_none());
    assert!(find_test("rest-read ").is_none());
    assert!(find_test("REST-READ").is_none());
    assert!(find_test("wss").is_none());
}

#[test]
fn credentials_split_at_the_first_colon() {
    let creds = split_credentials("admin:pa:ss");
    assert_eq!(creds.user, "admin");
    assert_eq!(creds.pass, "pa:ss");
    let creds = split_credentials("solo");
    assert_eq!(creds.user, "solo");
    assert_eq!(creds.pass, "");
    let creds = split_credentials(":only-pass");
    assert_eq!(creds.user, "");
    assert_eq!(creds.pass, "only-pass");
    let creds = split_credentials("user:");
    assert_eq!(creds.user, "user");
    assert_eq!(creds.pass, "");
    let creds = split_credentials("");
    assert_eq!(creds.user, "");
    assert_eq!(creds.pass, "");
    let creds = split_credentials("ünï:çødé");
    assert_eq!(creds.user, "ünï");
    assert_eq!(creds.pass, "çødé");
}

#[test]
fn well_formed_targets() {
    assert!(is_well_formed_target("https://localhost:9996"));
    assert!(is_well_formed_target("http://10.0.0.1"));
    assert!(is_well_formed_target("https://example.com/base/path"));
    assert!(!is_well_formed_target(""));
    assert!(!is_well_formed_target("https://"));
    assert!(!is_well_formed_target("http://"));
    assert!(!is_well_formed_target("localhost:9996"));
    assert!(!is_well_formed_target("ftp://example.com"));
    assert!(!is_well_formed_target("https://exa mple.com"));
    assert!(!is_well_formed_target(" https://example.com"));
    assert!(!is_well_formed_target("https://example.com\n"));
    assert!(!is_well_formed_target("HTTPS://example.com"));
}

#[test]
fn valid_configuration_is_accepted() {
    let config = RunConfig::new("sse", 0, 1, "http://127.0.0.1:8080", None).unwrap();
    assert_eq!(config.test_id(), "sse");
    assert_eq!(config.duration_secs(), 0);
    assert_eq!(config.vus(), 1);
    assert_eq!(config.base_url(), "http://127.0.0.1:8080");
    assert!(config.credentials().is_none());
    let config = RunConfig::new("vector-search", 30, 50, "https://host", Some("u:p")).unwrap();
    let creds = config.credentials().unwrap();
    assert_eq!(creds.user, "u");
    assert_eq!(creds.pass, "p");
    assert_eq!(config.duration_secs(), 30);
    assert_eq!(config.vus(), 50);
}

#[test]
fn unknown_test_is_rejected() {
    let err = RunConfig::new("nope", 30, 50, "https://host", None).unwrap_err();
    assert_eq!(err, ConfigError::UnknownTest);
    let err = RunConfig::new("nope", 30, 0, "bad", None).unwrap_err();
    assert_eq!(err, ConfigError::UnknownTest);
}

#[test]
fn zero_virtual_users_is_rejected() {
    let err = RunConfig::new("ws", 30, 0, "https://host", None).unwrap_err();
    assert_eq!(err, ConfigError::NoVirtualUsers);
    let err = RunConfig::new("ws", 30, 0, "bad target", None).unwrap_err();
    assert_eq!(err, ConfigError::NoVirtualUsers);
}

#[test]
fn malformed_target_is_rejected() {
    let err = RunConfig::new("ws", 30, 5, "host:9996", None).unwrap_err();
    assert_eq!(err, ConfigError::MalformedTarget);
}

#[test]
fn every_rejection_has_a_diagnostic() {
    assert_eq!(ConfigError::UnknownTest.describe(), "unknown test identifier");
    assert_eq!(
        ConfigError::NoVirtualUsers.describe(),
        "the number of virtual users must be at least 1"
    );
    assert_eq!(
        ConfigError::MalformedTarget.describe(),
        "the target must be an http:// or https:// address without blanks"
    );
}
