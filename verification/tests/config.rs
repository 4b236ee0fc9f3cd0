use std::collections::HashSet;

use netmon::config::{
    config_path, parse_targets_env, Config, ConfigBuilder, EnvVars, FileConfig, FileSource,
};
use netmon::domain::{
    CheckInterval, DbPath, HistoryLimit, MonitorTarget, NonEmptyTargets, Port, ProbeTimeout,
};
use netmon::error::{ConfigError, DomainError};

fn no_env() -> EnvVars {
    EnvVars {
        port: None,
        db_path: None,
        check_interval_secs: None,
        check_timeout_secs: None,
        targets: None,
    }
}

fn no_file() -> FileConfig {
    FileConfig {
        port: None,
        db_path: None,
        check_interval_secs: None,
        check_timeout_secs: None,
        targets: None,
    }
}

fn text(s: &str) -> Option<String> {
    Some(s.to_string())
}

#[test]
fn parse_targets_env_accepts_named_and_bare() {
    let v = parse_targets_env("Google DNS=8.8.8.8:53,1.1.1.1:53").unwrap();
    assert_eq!(v.len(), 2);
    assert_eq!(v[0].name.as_str(), "Google DNS");
    assert_eq!(v[0].host.as_str(), "8.8.8.8");
    assert_eq!(v[0].port.get(), 53);
    assert_eq!(v[1].name.as_str(), "1.1.1.1:53");
}

#[test]
fn parse_targets_env_rejects_bad_port_with_index() {
    let err = parse_targets_env("good=8.8.8.8:53,bad=host:notaport").unwrap_err();
    assert!(matches!(
        err,
        ConfigError::InvalidTargetEntry { index: 1, .. }
    ));
}

#[test]
fn parse_targets_env_rejects_missing_colon() {
    assert!(parse_targets_env("justahost").is_err());
}

#[test]
fn entry_faults_say_what_is_wrong() {
    let message = |raw: &str| parse_targets_env(raw).unwrap_err().to_string();
    assert_eq!(
        message("justahost"),
        "invalid TARGETS entry 0: \"justahost\" (expected host:port)"
    );
    assert_eq!(
        message("a=8.8.8.8:53, b=host: x\"y "),
        "invalid TARGETS entry 1: \"b=host: x\\\"y\" (invalid port \" x\\\"y\")"
    );
    assert_eq!(
        message("x=h:0"),
        "invalid TARGETS entry 0: \"x=h:0\" (invalid port 0: must be 1..=65535)"
    );
    // The fault names the position, empty entries counted.
    assert!(matches!(
        parse_targets_env(" ,,a:1,b").unwrap_err(),
        ConfigError::InvalidTargetEntry { index: 3, .. }
    ));
}

#[test]
fn entries_split_at_the_outer_marks() {
    let v = parse_targets_env("a=b=c:1, v6 = [::1]:80 ,h:+7").unwrap();
    assert_eq!(v.len(), 3);
    assert_eq!((v[0].name.as_str(), v[0].host.as_str()), ("a", "b=c"));
    assert_eq!((v[1].name.as_str(), v[1].host.as_str()), ("v6", "[::1]"));
    assert_eq!(v[1].port.get(), 80);
    assert_eq!(v[2].port.get(), 7);
}

#[test]
fn config_rejects_timeout_above_interval() {
    let err = Config::new(
        Port::new(3000).unwrap(),
        DbPath::new("x.db").unwrap(),
        CheckInterval::new(5).unwrap(),
        ProbeTimeout::new(10).unwrap(),
        HistoryLimit::default_valid(),
        NonEmptyTargets::new(vec![MonitorTarget::parse("a", "8.8.8.8", 53).unwrap()]).unwrap(),
    )
    .unwrap_err();
    assert!(matches!(err, ConfigError::TimeoutExceedsInterval { .. }));
}

#[test]
fn config_rejects_zero_port_and_empty_targets() {
    assert!(Port::new(0).is_err());
    assert!(matches!(
        NonEmptyTargets::new(vec![]).unwrap_err(),
        DomainError::NoTargets
    ));
}

#[test]
fn builder_applies_file_values() {
    let mut b = ConfigBuilder::from_defaults();
    b.apply_file(FileConfig {
        port: Some(8080),
        db_path: None,
        check_interval_secs: Some(30),
        check_timeout_secs: Some(5),
        targets: None,
    })
    .unwrap();
    let cfg = b.build().unwrap();
    assert_eq!(cfg.port_u16(), 8080);
    assert_eq!(cfg.interval_secs(), 30);
}

#[test]
fn builder_rejects_invalid_interval() {
    let mut b = ConfigBuilder::from_defaults();
    b.interval_secs = Some(0);
    assert!(b.build().is_err());
}

#[test]
fn apply_file_ignores_empty_targets_list() {
    let mut b = ConfigBuilder::from_defaults();
    b.apply_file(FileConfig {
        port: None,
        db_path: Some("custom.db".into()),
        check_interval_secs: None,
        check_timeout_secs: None,
        targets: Some(vec![]),
    })
    .unwrap();
    let cfg = b.build().unwrap();
    // Empty list keeps defaults (3 targets), custom db applies.
    assert_eq!(cfg.targets.len(), 3);
    assert_eq!(cfg.db_path.to_string(), "custom.db");
}

#[test]
fn build_rejects_each_invalid_field() {
    // Bad port.
    let mut b = ConfigBuilder::from_defaults();
    b.port = Some(0);
    assert!(b.build().is_err());
    // Bad db path.
    let mut b = ConfigBuilder::from_defaults();
    b.db_path = Some("   ".into());
    assert!(b.build().is_err());
    // Bad timeout.
    let mut b = ConfigBuilder::from_defaults();
    b.timeout_secs = Some(61);
    assert!(b.build().is_err());
    // Duplicate target names.
    let mut b = ConfigBuilder::from_defaults();
    b.targets = Some(vec![
        MonitorTarget::parse("dup", "8.8.8.8", 53).unwrap(),
        MonitorTarget::parse("dup", "1.1.1.1", 53).unwrap(),
    ]);
    assert!(b.build().is_err());
    // Empty parsed targets.
    let mut b = ConfigBuilder::from_defaults();
    b.targets = Some(vec![]);
    assert!(b.build().is_err());
}

#[test]
fn build_reports_the_first_fault() {
    let mut b = ConfigBuilder::from_defaults();
    b.timeout_secs = Some(61);
    b.interval_secs = Some(0);
    assert!(matches!(
        b.build().unwrap_err(),
        ConfigError::Domain(DomainError::InvalidInterval { secs: 0 })
    ));
    let mut b = ConfigBuilder::from_defaults();
    b.interval_secs = Some(4);
    assert!(matches!(
        b.build().unwrap_err(),
        ConfigError::TimeoutExceedsInterval { timeout: 5, interval: 4 }
    ));
}

#[test]
fn parse_targets_env_edge_cases() {
    // Empty segments skipped; `=host:port` falls back to `host:port` name.
    let v = parse_targets_env(" , ,=8.8.8.8:53").unwrap();
    assert_eq!(v.len(), 1);
    assert_eq!(v[0].name.as_str(), "8.8.8.8:53");
    // Invalid host surfaces the entry index.
    let err = parse_targets_env("ok=8.8.8.8:53,bad=has space:53").unwrap_err();
    assert!(matches!(
        err,
        ConfigError::InvalidTargetEntry { index: 1, .. }
    ));
    // Port 0 fails domain validation.
    assert!(parse_targets_env("x=h:0").is_err());
    // Whitespace-only input yields an empty vec.
    assert!(parse_targets_env("   ").unwrap().is_empty());
}

#[test]
fn load_defaults_when_no_file_and_no_env() {
    let cfg = Config::load(FileSource::Absent, &no_env()).unwrap();
    assert_eq!(cfg.port_u16(), 3000);
    assert_eq!(cfg.interval_secs(), 10);
    assert_eq!(cfg.timeout_secs(), 5);
    assert_eq!(cfg.targets.len(), 3);
}

#[test]
fn load_reads_valid_file() {
    let file = FileConfig {
        port: Some(8080),
        db_path: text("file.db"),
        check_interval_secs: Some(30),
        check_timeout_secs: Some(5),
        targets: Some(vec![MonitorTarget::parse("t", "9.9.9.9", 53).unwrap()]),
    };
    let cfg = Config::load(FileSource::Read(file), &no_env()).unwrap();
    assert_eq!(cfg.port_u16(), 8080);
    assert_eq!(cfg.interval_secs(), 30);
    assert_eq!(cfg.targets.len(), 1);
}

#[test]
fn load_rejects_invalid_json_and_directories() {
    let reason = serde_json::from_str::<serde_json::Value>("{ not json")
        .unwrap_err()
        .to_string();
    let bad = FileSource::Unusable { path: "bad.json".to_string(), reason: reason.clone() };
    let err = Config::load(bad, &no_env()).unwrap_err();
    assert!(matches!(err, ConfigError::InvalidFile { .. }));
    assert_eq!(
        err.to_string(),
        format!("invalid config file \"bad.json\": {reason}")
    );
    let dir = FileSource::Unusable {
        path: "/tmp".to_string(),
        reason: "Is a directory (os error 21)".to_string(),
    };
    assert!(matches!(
        Config::load(dir, &no_env()).unwrap_err(),
        ConfigError::InvalidFile { .. }
    ));
}

#[test]
fn load_rejects_invalid_target_in_file() {
    // Port 0 fails domain validation.
    let reason = MonitorTarget::parse("t", "9.9.9.9", 0).unwrap_err().to_string();
    let source = FileSource::Unusable { path: "config.json".to_string(), reason };
    assert!(matches!(
        Config::load(source, &no_env()).unwrap_err(),
        ConfigError::InvalidFile { .. }
    ));
}

#[test]
fn apply_env_overrides_all_fields() {
    let env = EnvVars {
        port: text("8081"),
        db_path: text("env.db"),
        check_interval_secs: text("20"),
        check_timeout_secs: text("4"),
        targets: text("Mine=9.9.9.9:53"),
    };
    let mut b = ConfigBuilder::from_defaults();
    b.apply_env(&env).unwrap();
    let cfg = b.build().unwrap();
    assert_eq!(cfg.port_u16(), 8081);
    assert_eq!(cfg.db_path.to_string(), "env.db");
    assert_eq!(cfg.interval_secs(), 20);
    assert_eq!(cfg.targets.len(), 1);
    assert_eq!(cfg.targets.as_slice()[0].name.as_str(), "Mine");
}

#[test]
fn apply_env_ignores_blank_and_garbage() {
    let env = EnvVars {
        port: text("not-a-number"),
        db_path: text("   "),
        check_interval_secs: text("zzz"),
        check_timeout_secs: None,
        targets: text("   "),
    };
    let mut b = ConfigBuilder::from_defaults();
    b.apply_env(&env).unwrap();
    let cfg = b.build().unwrap();
    assert_eq!(cfg.port_u16(), 3000);
    assert_eq!(cfg.interval_secs(), 10);
    assert_eq!(cfg.targets.len(), 3);
}

#[test]
fn apply_env_propagates_invalid_targets() {
    let mut env = no_env();
    env.targets = text("definitely-not-a-target");
    let mut b = ConfigBuilder::from_defaults();
    assert!(matches!(
        b.apply_env(&env).unwrap_err(),
        ConfigError::InvalidTargetEntry { .. }
    ));
}

#[test]
fn accessors_and_defaults_cover_helpers() {
    assert_eq!(CheckInterval::default_valid().secs(), 10);
    assert_eq!(ProbeTimeout::default_valid().secs(), 5);
    let cfg = Config::defaults();
    assert_eq!(cfg.timeout_secs(), 5);
    assert!(!cfg.targets.is_empty());
    // Distinct names helper used by validation errors.
    let names: HashSet<_> = ["a", "b"].into_iter().collect();
    assert_eq!(names.len(), 2);
}

#[test]
fn defaults_are_the_documented_ones() {
    let cfg = Config::defaults();
    assert_eq!(cfg.port_u16(), 3000);
    assert_eq!(cfg.db_path.as_path(), "netmon.db");
    assert_eq!(cfg.history_limit.get(), 2000);
    let shown: Vec<String> = cfg.targets.iter().map(|t| t.to_string()).collect();
    assert_eq!(
        shown,
        vec![
            "Google DNS (8.8.8.8:53)",
            "Cloudflare DNS (1.1.1.1:53)",
            "Google HTTPS (google.com:443)",
        ]
    );
}

#[test]
fn environment_overrides_file_overrides_defaults() {
    let mut file = no_file();
    file.port = Some(8080);
    file.db_path = text("file.db");
    let mut env = no_env();
    env.port = text("9090");
    let cfg = Config::load(FileSource::Read(file), &env).unwrap();
    assert_eq!(cfg.port_u16(), 9090);
    assert_eq!(cfg.db_path.as_path(), "file.db");
    assert_eq!(cfg.interval_secs(), 10);
}

#[test]
fn settings_out_of_range_are_refused_wherever_they_come_from() {
    let mut env = no_env();
    env.port = text("0");
    assert!(matches!(
        Config::load(FileSource::Absent, &env).unwrap_err(),
        ConfigError::Domain(DomainError::InvalidPort { port: 0 })
    ));
    let mut file = no_file();
    file.check_timeout_secs = Some(0);
    assert!(matches!(
        Config::load(FileSource::Read(file), &no_env()).unwrap_err(),
        ConfigError::Domain(DomainError::InvalidTimeout { secs: 0 })
    ));
    // An unusable file is refused even where the environment says it all.
    let env = EnvVars {
        port: text("1"),
        db_path: text("d"),
        check_interval_secs: text("9"),
        check_timeout_secs: text("9"),
        targets: text("h:1"),
    };
    let source = FileSource::Unusable { path: "p".to_string(), reason: "r".to_string() };
    assert!(Config::load(source, &env).is_err());
    assert!(Config::load(FileSource::Absent, &env).is_ok());
}

#[test]
fn the_file_is_where_the_environment_says() {
    assert_eq!(config_path(None), "config.json");
    assert_eq!(config_path(text("/etc/netmon.json")), "/etc/netmon.json");
}
