use netmon::error::{ConfigError, DomainError, StoreError};
use netmon::lookback::Double;

fn nan() -> Double {
    Double { bits: f64::NAN.to_bits(), shown: format!("{:?}", f64::NAN) }
}

#[test]
fn every_domain_error_displays() {
    let variants = vec![
        DomainError::EmptyTargetName,
        DomainError::TargetNameTooLong { len: 99, max: 64 },
        DomainError::EmptyHost,
        DomainError::HostTooLong { len: 300, max: 253 },
        DomainError::InvalidHost {
            host: "x y".into(),
            reason: "test",
        },
        DomainError::InvalidPort { port: 0 },
        DomainError::InvalidInterval { secs: 0 },
        DomainError::InvalidTimeout { secs: 99 },
        DomainError::InvalidHistoryLimit { n: 0 },
        DomainError::InvalidLookback { hours: nan() },
        DomainError::NegativeLatency { ms: -1 },
        DomainError::NoTargets,
        DomainError::DuplicateTarget { name: "a".into() },
        DomainError::EmptyDbPath,
        DomainError::InconsistentCheckRow {
            success: true,
            latency_ms: Some(1),
            has_error: true,
        },
    ];
    for e in variants {
        assert!(!e.to_string().is_empty(), "{e:?}");
    }
}

#[test]
fn domain_errors_say_what_is_wrong() {
    let cases = vec![
        (DomainError::EmptyTargetName, "target name must not be empty"),
        (
            DomainError::TargetNameTooLong { len: 99, max: 64 },
            "target name too long: 99 > 64",
        ),
        (DomainError::EmptyHost, "host must not be empty"),
        (DomainError::HostTooLong { len: 300, max: 253 }, "host too long: 300 > 253"),
        (
            DomainError::InvalidHost { host: "x\ty".into(), reason: "test" },
            "invalid host \"x\\ty\": test",
        ),
        (DomainError::InvalidPort { port: 0 }, "invalid port 0: must be 1..=65535"),
        (
            DomainError::InvalidInterval { secs: u64::MAX },
            "invalid check interval 18446744073709551615s: must be 1..=3600",
        ),
        (
            DomainError::InvalidTimeout { secs: 99 },
            "invalid probe timeout 99s: must be 1..=60",
        ),
        (
            DomainError::InvalidHistoryLimit { n: 0 },
            "invalid history limit 0: must be 1..=10000",
        ),
        (
            DomainError::InvalidLookback { hours: nan() },
            "invalid lookback NaNh: must be 0.05..=720",
        ),
        (
            DomainError::NegativeLatency { ms: i64::MIN },
            "negative latency -9223372036854775808ms",
        ),
        (DomainError::NoTargets, "at least one monitor target is required"),
        (
            DomainError::DuplicateTarget { name: "a".into() },
            "duplicate target name \"a\"",
        ),
        (DomainError::EmptyDbPath, "db path must not be empty"),
        (
            DomainError::InconsistentCheckRow {
                success: true,
                latency_ms: Some(-1),
                has_error: true,
            },
            "inconsistent check row: success=true latency=Some(-1) has_error=true",
        ),
        (
            DomainError::InconsistentCheckRow {
                success: false,
                latency_ms: None,
                has_error: false,
            },
            "inconsistent check row: success=false latency=None has_error=false",
        ),
    ];
    for (e, message) in cases {
        assert_eq!(e.to_string(), message);
        assert_eq!(StoreError::from(e).to_string(), message);
    }
}

#[test]
fn every_config_error_displays() {
    let variants = vec![
        ConfigError::Domain(DomainError::NoTargets),
        ConfigError::InvalidFile {
            path: "c.json".into(),
            reason: "boom".into(),
        },
        ConfigError::TimeoutExceedsInterval {
            timeout: 10,
            interval: 5,
        },
        ConfigError::InvalidTargetEntry {
            index: 2,
            entry: "bad".into(),
            reason: "nope".into(),
        },
    ];
    for e in variants {
        assert!(!e.to_string().is_empty(), "{e:?}");
    }
}

#[test]
fn config_errors_say_what_is_wrong() {
    assert_eq!(
        ConfigError::from(DomainError::NoTargets).to_string(),
        "at least one monitor target is required"
    );
    assert_eq!(
        ConfigError::InvalidFile { path: "c.json".into(), reason: "boom".into() }.to_string(),
        "invalid config file \"c.json\": boom"
    );
    assert_eq!(
        ConfigError::TimeoutExceedsInterval { timeout: 10, interval: 5 }.to_string(),
        "probe timeout (10s) must not exceed check interval (5s)"
    );
    assert_eq!(
        ConfigError::InvalidTargetEntry {
            index: 2,
            entry: "bad".into(),
            reason: "nope".into()
        }
        .to_string(),
        "invalid TARGETS entry 2: \"bad\" (nope)"
    );
}

#[test]
fn store_error_converts_and_displays() {
    let path = std::path::PathBuf::from("/bad");
    let sqlite = StoreError::Sqlite(rusqlite::Error::InvalidPath(path).to_string());
    assert!(sqlite.to_string().contains("sqlite"));
    let s: String = sqlite.into();
    assert!(!s.is_empty());

    let domain: StoreError = DomainError::NoTargets.into();
    assert!(domain.to_string().contains("target"));
    let s: String = domain.into();
    assert!(!s.is_empty());
}

#[test]
fn store_errors_name_the_database() {
    assert_eq!(
        StoreError::Sqlite("disk full".to_string()).to_string(),
        "sqlite error: disk full"
    );
}
