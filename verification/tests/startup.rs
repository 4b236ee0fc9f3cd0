use netmon::config::Config;
use netmon::domain::{
    CheckInterval, DbPath, HistoryLimit, Host, MonitorTarget, NonEmptyTargets, Port, ProbeTimeout,
    TargetName,
};
use netmon::health::{
    check_health, check_reply, health_request, resolve_health_port, run_healthcheck,
    start_healthcheck, HealthReport, HealthStep,
};
use netmon::startup::{banner, bind_addr};

fn test_config() -> Config {
    Config::new(
        Port::new(3000).unwrap(),
        DbPath::new("netmon.db").unwrap(),
        CheckInterval::new(10).unwrap(),
        ProbeTimeout::new(5).unwrap(),
        HistoryLimit::default_valid(),
        NonEmptyTargets::new(vec![MonitorTarget::new(
            TargetName::new("Google DNS").unwrap(),
            Host::new("8.8.8.8").unwrap(),
            Port::new(53).unwrap(),
        )])
        .unwrap(),
    )
    .unwrap()
}

fn reply(text: &str) -> Result<Vec<u8>, String> {
    Ok(text.as_bytes().to_vec())
}

#[test]
fn bind_addr_uses_configured_port() {
    assert_eq!(bind_addr(&test_config()), "0.0.0.0:3000");
}

#[test]
fn banner_lists_targets_and_settings() {
    let b = banner(&test_config());
    assert!(b.contains("http://localhost:3000"));
    assert!(b.contains("netmon.db"));
    assert!(b.contains("every 10s"));
    assert!(b.contains("Google DNS"));
    assert!(b.contains("8.8.8.8:53"));
}

#[test]
fn banner_has_one_line_per_target() {
    assert_eq!(
        banner(&Config::defaults()),
        "netmon up on http://localhost:3000  (db=netmon.db, every 10s)\n\
         targets (3):\n\
         \x20 - Google DNS (8.8.8.8:53)\n\
         \x20 - Cloudflare DNS (1.1.1.1:53)\n\
         \x20 - Google HTTPS (google.com:443)\n"
    );
}

#[test]
fn resolve_health_port_prefers_arg_then_env_then_default() {
    let arg = "8080".to_string();
    assert_eq!(resolve_health_port(Some(&arg), Some("9999")).unwrap(), 8080);
    assert_eq!(resolve_health_port(None, Some("9999")).unwrap(), 9999);
    assert_eq!(resolve_health_port(None, Some("   ")).unwrap(), 3000);
    assert_eq!(resolve_health_port(None, None).unwrap(), 3000);
    assert_eq!(
        resolve_health_port(Some(&" 8081 ".to_string()), None).unwrap(),
        8081
    );
}

#[test]
fn resolve_health_port_rejects_garbage_and_zero() {
    assert!(resolve_health_port(Some(&"abc".to_string()), None).is_err());
    assert!(resolve_health_port(None, Some("zzz")).is_err());
    assert!(resolve_health_port(Some(&"0".to_string()), None).is_err());
    assert!(resolve_health_port(None, Some("70000")).is_err());
}

#[test]
fn refused_ports_are_explained() {
    let refused = |s: &str| resolve_health_port(Some(&s.to_string()), None).unwrap_err();
    assert_eq!(refused(" a\"b "), "invalid port \" a\\\"b \"");
    assert_eq!(refused("0"), "invalid port 0: must be 1..=65535");
    assert_eq!(refused(""), "invalid port \"\"");
    assert_eq!(refused("-1"), "invalid port \"-1\"");
    assert_eq!(refused("65536"), "invalid port \"65536\"");
    assert_eq!(resolve_health_port(Some(&"+65535".to_string()), None).unwrap(), 65_535);
}

#[test]
fn check_health_accepts_ok_json() {
    let addr = reply(
        "HTTP/1.1 200 OK\r\nContent-Type: application/json\r\nContent-Length: 12\r\nConnection: close\r\n\r\n{\"ok\": true}",
    );
    assert!(check_health(addr).is_ok());
}

#[test]
fn check_health_rejects_bad_status_and_body() {
    let bad_status = reply(
        "HTTP/1.1 500 Bang\r\nContent-Length: 2\r\nConnection: close\r\n\r\n{}",
    );
    assert!(check_health(bad_status).is_err());

    let bad_body = reply(
        "HTTP/1.1 200 OK\r\nContent-Length: 2\r\nConnection: close\r\n\r\n{}",
    );
    assert!(check_health(bad_body).is_err());
}

#[test]
fn unhealthy_replies_are_explained() {
    assert_eq!(
        check_reply("HTTP/1.1 500 Bang\r\n\r\n{\"ok\": true}").unwrap_err(),
        "unexpected status line \"HTTP/1.1 500 Bang\""
    );
    assert_eq!(check_reply("").unwrap_err(), "unexpected status line \"\"");
    assert_eq!(
        check_reply("200").unwrap_err(),
        "unexpected status line \"200\""
    );
    assert_eq!(
        check_reply("HTTP/1.1 2000\n\"ok\"").unwrap_err(),
        "unexpected status line \"HTTP/1.1 2000\""
    );
    assert_eq!(
        check_reply("HTTP/1.1 200 OK\r\n\r\nok").unwrap_err(),
        "response is missing the ok body"
    );
    assert!(check_reply(" HTTP/1.1\t200\n\n\"ok\"").is_ok());
}

#[test]
fn ok_counts_in_the_body_alone() {
    let missing = "response is missing the ok body";
    for text in [
        "HTTP/1.1 200 OK\r\nX: \"ok\"\r\n\r\n{}",
        "HTTP/1.1 200 \"ok\"\r\n\r\n",
        "HTTP/1.1 200 OK\n\"ok\"",
        "HTTP/1.1 200 OK\r\n \r\n\"ok\"",
        "HTTP/1.1 200 OK\r\n\r\r\n\"ok\"",
    ] {
        assert_eq!(check_reply(text).unwrap_err(), missing, "{text:?}");
    }
    assert!(check_reply("HTTP/1.1 200 OK\r\nX: y\r\n\r\n\r\n{\"ok\": true}").is_ok());
    assert_eq!(
        run_healthcheck(reply("HTTP/1.1 200 OK\r\nX: \"ok\"\r\n\r\n{}")).code,
        1
    );
}

#[test]
fn replies_that_are_not_utf8_are_read_too() {
    let mut bytes = "HTTP/1.1 200 OK\n\n\"ok\"".as_bytes().to_vec();
    bytes.push(0xff);
    assert!(check_health(Ok(bytes)).is_ok());
    let bytes = vec![b'a', 0xff, b' ', b'5'];
    assert_eq!(
        check_health(Ok(bytes)).unwrap_err(),
        "unexpected status line \"a\u{fffd} 5\""
    );
}

#[test]
fn run_healthcheck_returns_exit_codes() {
    let healthy = reply(
        "HTTP/1.1 200 OK\r\nContent-Length: 12\r\nConnection: close\r\n\r\n{\"ok\": true}",
    );
    assert_eq!(start_healthcheck(&["8123".to_string()], None), HealthStep::Ask(8123));
    assert_eq!(run_healthcheck(healthy).code, 0);
    assert!(matches!(
        start_healthcheck(&["not-a-port".to_string()], None),
        HealthStep::End(HealthReport { code: 1, .. })
    ));
}

#[test]
fn healthchecks_report_their_end() {
    assert_eq!(
        run_healthcheck(reply("HTTP/1.1 200 OK\n\n\"ok\"")),
        HealthReport { code: 0, line: "ok".to_string() }
    );
    assert_eq!(
        run_healthcheck(Err("connection refused".to_string())),
        HealthReport {
            code: 1,
            line: "healthcheck: unhealthy: connection refused".to_string()
        }
    );
    assert_eq!(
        start_healthcheck(&["x".to_string()], Some("80")),
        HealthStep::End(HealthReport {
            code: 1,
            line: "healthcheck: invalid port \"x\"".to_string()
        })
    );
    assert_eq!(start_healthcheck(&[], Some("80")), HealthStep::Ask(80));
    assert_eq!(start_healthcheck(&[], None), HealthStep::Ask(3000));
    assert_eq!(
        health_request(),
        "GET /api/health HTTP/1.1\r\nHost: 127.0.0.1\r\nConnection: close\r\n\r\n"
    );
}
