use mcs::http_client::{call_leg_exists, call_leg_lookup_skipped, uuid_exists_url, LookupReply};
use mcs::metrics::metrics_body;
use mcs::settings::{env_config_file, logs_to_file, run_env_or_default, Log, ENV};

#[test]
fn env_names_round_trip() {
    for e in [ENV::Development, ENV::Testing, ENV::Production] {
        assert_eq!(ENV::from(e.to_string().as_str()), e);
    }
    assert_eq!(ENV::Testing.to_string(), "Testing");
    assert_eq!(ENV::from("Production"), ENV::Production);
    assert_eq!(ENV::from("production"), ENV::Development);
    assert_eq!(ENV::from(""), ENV::Development);
}

#[test]
fn config_files() {
    assert_eq!(env_config_file("Testing"), "./config/testing.toml");
    assert_eq!(env_config_file("PRODUCTION"), "./config/production.toml");
    assert_eq!(run_env_or_default(None), "Development");
    assert_eq!(run_env_or_default(Some("Testing".to_string())), "Testing");
    let log = |a: &str| Log {
        level: "info".into(),
        log_dir: "/var/log".into(),
        log_prefix: "mcs".into(),
        appender: a.into(),
    };
    assert!(logs_to_file(&log("file")));
    assert!(!logs_to_file(&log("stdout")));
}

#[test]
fn call_leg_lookup() {
    assert!(call_leg_lookup_skipped(&ENV::Development));
    assert!(!call_leg_lookup_skipped(&ENV::Testing));
    assert!(!call_leg_lookup_skipped(&ENV::Production));
    assert_eq!(
        uuid_exists_url(&"abc".to_string()),
        "http://127.0.0.1:7080/xmlapi/uuid_exists?abc"
    );
    assert!(call_leg_exists(&LookupReply::Replied { success: true, body: Some("true".into()) }));
    assert!(!call_leg_exists(&LookupReply::Replied { success: true, body: Some("false".into()) }));
    assert!(!call_leg_exists(&LookupReply::Replied { success: false, body: Some("true".into()) }));
    assert!(!call_leg_exists(&LookupReply::Replied { success: true, body: None }));
    assert!(!call_leg_exists(&LookupReply::SendFailed));
}

#[test]
fn metrics_page() {
    assert_eq!(metrics_body(Some("a 1\n".into()), Some("b 2\n".into())), "a 1\nb 2\n");
    assert_eq!(metrics_body(None, Some("b 2\n".into())), "b 2\n");
    assert_eq!(metrics_body(Some("a 1\n".into()), None), "a 1\n");
}
