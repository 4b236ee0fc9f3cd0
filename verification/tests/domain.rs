use netmon::domain::{
    failed_count, loss_pct, uptime_pct, CheckInterval, CompactError, DbPath, HistoryLimit, Host, LatencyMs,
    MonitorTarget, NonEmptyTargets, Port, ProbeOutcome, ProbeTimeout, Share, TargetName, TimeSpan,
    UnixSecs,
};
use netmon::error::DomainError;
use netmon::lookback::{Double, LookbackHours};

fn percent(share: Share) -> f64 {
    share.part as f64 / share.total as f64 * 100.0
}

fn double(h: f64) -> Double {
    Double { bits: h.to_bits(), shown: format!("{h:?}") }
}

fn hours(h: f64) -> Result<LookbackHours, DomainError> {
    LookbackHours::new(double(h))
}

#[test]
fn target_name_rejects_empty_and_too_long() {
    assert!(TargetName::new("").is_err());
    assert!(TargetName::new("   ").is_err());
    assert!(TargetName::new(&"x".repeat(65)).is_err());
    assert_eq!(TargetName::new("  ok  ").unwrap().as_str(), "ok");
}

#[test]
fn target_name_length_is_in_bytes() {
    assert_eq!(TargetName::new(&"x".repeat(64)).unwrap().as_str().len(), 64);
    assert_eq!(TargetName::new(&"é".repeat(32)).unwrap().as_str().len(), 64);
    assert_eq!(
        TargetName::new(&"é".repeat(33)).unwrap_err(),
        DomainError::TargetNameTooLong { len: 66, max: 64 }
    );
    assert_eq!(TargetName::new(" \t").unwrap_err(), DomainError::EmptyTargetName);
    assert_eq!(TargetName::new("\u{3000}ok\u{a0}").unwrap().as_str(), "ok");
}

#[test]
fn host_rejects_urls_whitespace_and_empty() {
    assert!(Host::new("").is_err());
    assert!(Host::new("a b").is_err());
    assert!(Host::new("https://google.com").is_err());
    assert!(Host::new("ho/st").is_err());
    assert!(Host::new("8.8.8.8").is_ok());
    assert!(Host::new("google.com").is_ok());
}

#[test]
fn host_rejects_overlong_names() {
    let long = "a".repeat(254);
    let err = Host::new(&long).unwrap_err();
    assert!(matches!(err, DomainError::HostTooLong { .. }));
    assert_eq!(Host::new(&"a".repeat(253)).unwrap().as_str().len(), 253);
}

#[test]
fn host_faults_come_in_order() {
    assert_eq!(Host::new(" ").unwrap_err(), DomainError::EmptyHost);
    assert_eq!(
        Host::new(&"/".repeat(254)).unwrap_err(),
        DomainError::HostTooLong { len: 254, max: 253 }
    );
    assert_eq!(
        Host::new(" a\u{7f}/b ").unwrap_err(),
        DomainError::InvalidHost {
            host: "a\u{7f}/b".to_string(),
            reason: "must not contain whitespace or control characters",
        }
    );
    for raw in ["a/b", "a@b", "a?b", "a#b"] {
        assert_eq!(
            Host::new(raw).unwrap_err(),
            DomainError::InvalidHost {
                host: raw.to_string(),
                reason: "must be a bare hostname/IP, not a URL",
            }
        );
    }
}

#[test]
fn port_zero_is_unrepresentable() {
    assert!(Port::new(0).is_err());
    assert_eq!(Port::new(53).unwrap().get(), 53);
    assert_eq!(Port::new(443).unwrap().get(), 443);
}

#[test]
fn interval_and_timeout_bounds() {
    assert!(CheckInterval::new(0).is_err());
    assert!(CheckInterval::new(3601).is_err());
    assert!(CheckInterval::new(10).is_ok());
    assert!(ProbeTimeout::new(0).is_err());
    assert!(ProbeTimeout::new(61).is_err());
    assert!(ProbeTimeout::new(5).is_ok());
}

#[test]
fn bounds_are_inclusive() {
    assert_eq!(CheckInterval::new(1).unwrap().secs(), 1);
    assert_eq!(CheckInterval::new(3600).unwrap().secs(), 3600);
    assert_eq!(CheckInterval::new(0).unwrap_err(), DomainError::InvalidInterval { secs: 0 });
    assert_eq!(ProbeTimeout::new(1).unwrap().secs(), 1);
    assert_eq!(ProbeTimeout::new(60).unwrap().secs(), 60);
    assert_eq!(ProbeTimeout::new(61).unwrap_err(), DomainError::InvalidTimeout { secs: 61 });
    assert_eq!(HistoryLimit::new(1).unwrap().get(), 1);
    assert_eq!(HistoryLimit::new(10_000).unwrap().get(), 10_000);
    assert_eq!(HistoryLimit::default_valid().get(), 2000);
    assert_eq!(
        HistoryLimit::new(10_001).unwrap_err(),
        DomainError::InvalidHistoryLimit { n: 10_001 }
    );
    assert_eq!(Port::new(0).unwrap_err(), DomainError::InvalidPort { port: 0 });
    assert_eq!(Port::new(65_535).unwrap().get(), 65_535);
}

#[test]
fn history_limit_bounds() {
    assert!(HistoryLimit::new(0).is_err());
    assert!(HistoryLimit::new(10_001).is_err());
    assert_eq!(HistoryLimit::new(50).unwrap().get(), 50);
}

#[test]
fn lookback_rejects_nan_zero_and_huge() {
    assert!(hours(f64::NAN).is_err());
    assert!(hours(0.0).is_err());
    assert!(hours(721.0).is_err());
    assert!(hours(24.0).is_ok());
}

#[test]
fn lookback_bounds_are_those_of_the_numbers() {
    assert_eq!(LookbackHours::MIN, (0.05f64).to_bits());
    assert_eq!(LookbackHours::MAX, (720.0f64).to_bits());
    assert_eq!(LookbackHours::DEFAULT_24H, (24.0f64).to_bits());
    assert!(hours(0.05).is_ok());
    assert!(hours(720.0).is_ok());
    assert!(hours(0.049_999_999_999).is_err());
    assert!(hours(720.000_000_001).is_err());
    assert!(hours(-24.0).is_err());
    assert!(hours(f64::INFINITY).is_err());
    assert!(hours(f64::NEG_INFINITY).is_err());
    assert!(hours(-0.0).is_err());
    assert!(hours(-f64::NAN).is_err());
    assert_eq!(
        hours(721.0).unwrap_err(),
        DomainError::InvalidLookback { hours: double(721.0) }
    );
}

#[test]
fn lookback_since_is_pure_and_testable() {
    let now = UnixSecs::new(10_000);
    let since = hours(1.0).unwrap().since(now);
    assert_eq!(since.as_i64(), 10_000 - 3600);
}

#[test]
fn lookback_stops_at_the_epoch() {
    assert_eq!(hours(1.0).unwrap().since(UnixSecs::new(3599)).as_i64(), 0);
    assert_eq!(hours(0.05).unwrap().secs(), 180);
    assert_eq!(hours(720.0).unwrap().secs(), 2_592_000);
    assert_eq!(LookbackHours::default_24h().secs(), 86_400);
}

#[test]
fn lookback_secs_match_double_arithmetic() {
    let mut h: f64 = 0.05;
    while h <= 720.0 {
        let r = hours(h).unwrap();
        assert_eq!(r.secs(), (h * 3600.0) as i64);
        h = h * 1.0001 + 0.0001;
    }
    for k in 180..20_000u32 {
        let h = k as f64 / 3600.0;
        if let Ok(r) = hours(h) {
            assert_eq!(r.secs(), (h * 3600.0) as i64);
        }
    }
}

#[test]
fn longer_ranges_reach_further() {
    let mut last: i64 = 0;
    for k in 50..=720_000u32 {
        let secs = hours(k as f64 / 1000.0).unwrap().secs();
        assert!(last <= secs);
        last = secs;
    }
    // Neighbouring patterns, across a power of two.
    let bits = (64.0f64).to_bits();
    let below = LookbackHours::new(Double { bits: bits - 1, shown: String::new() }).unwrap();
    assert!(below.secs() <= hours(64.0).unwrap().secs());
    assert_eq!(hours(64.0).unwrap().secs(), 230_400);
}

#[test]
fn latency_rejects_negative() {
    assert!(LatencyMs::new(-1).is_err());
    assert!(LatencyMs::new(0).is_ok());
}

#[test]
fn latency_of_a_span_is_in_whole_milliseconds() {
    assert_eq!(LatencyMs::new(-7).unwrap_err(), DomainError::NegativeLatency { ms: -7 });
    assert_eq!(LatencyMs::from_elapsed(TimeSpan::new(1, 999_999)).as_i64(), 1000);
    assert_eq!(LatencyMs::from_elapsed(TimeSpan::new(1, 1_000_000)).as_i64(), 1001);
    assert_eq!(LatencyMs::from_elapsed(TimeSpan::from_secs(u64::MAX)).as_i64(), i64::MAX);
    assert_eq!(TimeSpan::from_millis(1_234).as_secs(), 1);
    assert_eq!(TimeSpan::from_millis(1_234).subsec_nanos(), 234_000_000);
    assert_eq!(TimeSpan::new(3, 4_000_000).as_millis(), 3004);
}

#[test]
fn compact_error_truncates_and_handles_empty() {
    let long = "x".repeat(500);
    assert_eq!(CompactError::new(&long).as_str().len(), 200);
    assert_eq!(CompactError::new("").as_str(), "unknown error");
    assert_eq!(CompactError::new("first\nsecond").as_str(), "first");
}

#[test]
fn compact_error_counts_characters_and_trims_one_line() {
    assert_eq!(CompactError::new(&"é".repeat(201)).as_str().chars().count(), 200);
    assert_eq!(CompactError::new("  a b \r\nc").as_str(), "a b");
    assert_eq!(CompactError::new("\nsecond").as_str(), "unknown error");
    assert_eq!(CompactError::new("tail\r").as_str(), "tail");
}

#[test]
fn compacting_twice_changes_nothing_but_a_cut_off_blank() {
    for raw in ["boom", "a b", "first\nsecond", "", "  x  "] {
        let once = CompactError::new(raw);
        assert_eq!(CompactError::new(once.as_str()), once);
    }
    let cut = CompactError::new(&("x".repeat(199) + " y"));
    assert_eq!(cut.as_str(), "x".repeat(199) + " ");
    assert_eq!(CompactError::new(cut.as_str()).as_str(), "x".repeat(199));
}

#[test]
fn outcome_round_trips_through_row() {
    let ok = ProbeOutcome::success(LatencyMs::new(12).unwrap());
    let (s, l, e) = ok.as_row();
    let back = ProbeOutcome::from_row(s != 0, l, e.map(str::to_string)).unwrap();
    assert_eq!(ok, back);

    let fail = ProbeOutcome::failure(CompactError::new("boom"));
    let (s, l, e) = fail.as_row();
    let back = ProbeOutcome::from_row(s != 0, l, e.map(str::to_string)).unwrap();
    assert_eq!(fail, back);
}

#[test]
fn outcome_rows_hold_what_they_should() {
    let ok = ProbeOutcome::success(LatencyMs::new(12).unwrap());
    assert_eq!(ok.as_row(), (1, Some(12), None));
    let fail = ProbeOutcome::failure(CompactError::new("boom"));
    assert_eq!(fail.as_row(), (0, None, Some("boom")));
    assert_eq!(fail.clone(), fail);
}

#[test]
fn outcome_rejects_inconsistent_row() {
    // success=true must not carry an error payload
    assert!(ProbeOutcome::from_row(true, Some(5), Some("oops".into())).is_err());
}

#[test]
fn rows_keep_their_success_or_are_refused() {
    assert_eq!(
        ProbeOutcome::from_row(true, Some(5), Some("oops".to_string())).unwrap_err(),
        DomainError::InconsistentCheckRow { success: true, latency_ms: Some(5), has_error: true }
    );
    assert_eq!(
        ProbeOutcome::from_row(true, Some(-3), None).unwrap_err(),
        DomainError::NegativeLatency { ms: -3 }
    );
    let o = ProbeOutcome::from_row(false, Some(9), None).unwrap();
    assert_eq!(o.error().unwrap().as_str(), "check failed");
    let o = ProbeOutcome::from_row(false, None, Some(" down \nmore".to_string())).unwrap();
    assert_eq!(o.error().unwrap().as_str(), "down");
}

#[test]
fn non_empty_targets_rejects_empty_and_duplicates() {
    assert!(NonEmptyTargets::new(vec![]).is_err());
    let a = MonitorTarget::parse("a", "8.8.8.8", 53).unwrap();
    let b = MonitorTarget::parse("a", "1.1.1.1", 53).unwrap();
    assert!(NonEmptyTargets::new(vec![a.clone(), b]).is_err());
    assert!(NonEmptyTargets::new(vec![a]).is_ok());
}

#[test]
fn the_first_repeated_name_is_reported() {
    let list: Vec<MonitorTarget> = ["a", "b", "c", "b", "a"]
        .iter()
        .map(|n| MonitorTarget::parse(n, "8.8.8.8", 53).unwrap())
        .collect();
    assert_eq!(
        NonEmptyTargets::new(list).unwrap_err(),
        DomainError::DuplicateTarget { name: "b".to_string() }
    );
    assert_eq!(NonEmptyTargets::new(vec![]).unwrap_err(), DomainError::NoTargets);
}

#[test]
fn loss_pct_handles_zero_total() {
    assert_eq!(percent(loss_pct(0, 0)), 0.0);
    assert!((percent(loss_pct(4, 3)) - 25.0).abs() < 1e-9);
}

#[test]
fn loss_pct_clamps_inverted_counts() {
    // success > total (corrupt data) cannot yield negative loss.
    assert_eq!(percent(loss_pct(3, 5)), 0.0);
    assert_eq!(percent(loss_pct(-1, 0)), 0.0);
}

#[test]
fn failures_are_counted() {
    assert_eq!(failed_count(10, 7), 3);
    assert_eq!(failed_count(3, 5), 0);
    assert_eq!(loss_pct(10, 7), Share { part: 3, total: 10 });
    assert_eq!(loss_pct(0, 0), Share { part: 0, total: 1 });
    assert_eq!(uptime_pct(loss_pct(10, 7)), Share { part: 7, total: 10 });
    assert_eq!(uptime_pct(loss_pct(0, 0)), Share { part: 1, total: 1 });
    assert_eq!(uptime_pct(loss_pct(3, 5)), Share { part: 3, total: 3 });
}

#[test]
fn display_asref_and_serde_round_trips() {
    let text = |s: &str| serde_json::from_str::<String>(s);

    // TargetName
    let n = TargetName::new("web").unwrap();
    assert_eq!(n.to_string(), "web");
    let r: &str = n.as_ref();
    assert_eq!(r, "web");
    assert_eq!(TargetName::known("web"), n);
    assert_eq!(
        TargetName::new(&text("\"db\"").unwrap()).unwrap(),
        TargetName::new("db").unwrap()
    );
    assert!(TargetName::new(&text("\"\"").unwrap()).is_err());
    assert!(text("1").is_err());
    assert_eq!(serde_json::to_value(n.as_str()).unwrap(), "web");

    // Host
    let h = Host::new("example.com").unwrap();
    assert_eq!(h.to_string(), "example.com");
    let r: &str = h.as_ref();
    assert_eq!(r, "example.com");
    assert_eq!(Host::known("example.com"), h);
    assert!(Host::new(&text("\"a b\"").unwrap()).is_err());
    assert_eq!(serde_json::to_value(h.as_str()).unwrap(), "example.com");

    // Port conversions
    let p = Port::try_from(8080u16).unwrap();
    assert_eq!(p.get(), 8080);
    assert_eq!(u16::from(p), 8080);
    assert_eq!(p.to_string(), "8080");
    assert!(Port::try_from(0u16).is_err());
    assert_eq!(serde_json::to_value(p.get()).unwrap(), 8080);
    assert!(Port::new(serde_json::from_str::<u16>("0").unwrap()).is_err());
    assert!(serde_json::from_str::<u16>("\"x\"").is_err());

    // Durations
    assert_eq!(CheckInterval::default_valid().duration().as_secs(), 10);
    assert_eq!(ProbeTimeout::default_valid().duration().as_secs(), 5);

    // HistoryLimit
    assert_eq!(
        HistoryLimit::new(serde_json::from_str::<usize>("25").unwrap())
            .unwrap()
            .get(),
        25
    );
    assert!(HistoryLimit::new(serde_json::from_str::<usize>("0").unwrap()).is_err());

    // Lookback and its default
    assert_eq!(f64::from_bits(LookbackHours::default_24h().hours()), 24.0);
    assert!(hours(serde_json::from_str::<f64>("0.01").unwrap()).is_err());
    assert_eq!(
        f64::from_bits(hours(serde_json::from_str::<f64>("6.0").unwrap()).unwrap().hours()),
        6.0
    );
}

#[test]
fn unix_secs_clamps_serializes_and_dates() {
    assert_eq!(UnixSecs::new(-5).as_i64(), 0);
    assert!(!UnixSecs::new(0).as_datetime().to_rfc3339().is_empty());
    assert_eq!(serde_json::to_value(UnixSecs::new(7).as_i64()).unwrap(), 7);
    assert!(UnixSecs::now().as_i64() > 0);
    assert!(UnixSecs::new(5) < UnixSecs::new(6));
}

#[test]
fn dates_end_with_the_calendar() {
    let last: i64 = 8_210_266_876_799;
    assert_eq!(UnixSecs::new(last).as_datetime().timestamp(), last);
    assert_eq!(UnixSecs::new(last + 1).as_datetime().timestamp(), 0);
    assert_eq!(UnixSecs::new(i64::MAX).as_datetime().timestamp(), 0);
    assert_eq!(UnixSecs::new(i64::MAX).as_i64(), i64::MAX);
    assert!(chrono::DateTime::from_timestamp(last + 1, 0).is_none());
    let first: i64 = -8_334_601_228_800;
    assert!(chrono::DateTime::from_timestamp(first, 0).is_some());
    assert!(chrono::DateTime::from_timestamp(first - 1, 0).is_none());
}

#[test]
fn dates_are_written_in_utc() {
    assert_eq!(UnixSecs::new(0).as_datetime().to_rfc3339(), "1970-01-01T00:00:00Z");
    assert_eq!(
        UnixSecs::new(1_700_000_000).as_datetime().to_rfc3339(),
        "2023-11-14T22:13:20Z"
    );
}

#[test]
fn clock_readings_that_cannot_be_held_count_as_zero() {
    assert_eq!(UnixSecs::from_clock(None).as_i64(), 0);
    assert_eq!(UnixSecs::from_clock(Some(12)).as_i64(), 12);
    assert_eq!(UnixSecs::from_clock(Some(u64::MAX)).as_i64(), 0);
    // Some time after this was written, and well before the calendar ends.
    assert!(UnixSecs::now().as_i64() > 1_600_000_000);
    assert_eq!(UnixSecs::now().as_datetime().timestamp() > 1_600_000_000, true);
}

#[test]
fn latency_error_and_outcome_helpers() {
    assert_eq!(
        LatencyMs::from_elapsed(TimeSpan::from_millis(1500)).as_i64(),
        1500
    );
    assert_eq!(CompactError::timeout().as_str(), "timeout");
    assert_eq!(CompactError::new("x").to_string(), "x");
    assert_eq!(
        serde_json::to_value(CompactError::new("boom").as_str()).unwrap(),
        "boom"
    );

    // from_row: failure without payload gets a default message.
    let o = ProbeOutcome::from_row(false, None, None).unwrap();
    assert!(!o.is_success());
    assert!(o.error().is_some());
    // from_row: success without latency defaults to 0.
    let o = ProbeOutcome::from_row(true, None, None).unwrap();
    assert_eq!(o.latency().unwrap().as_i64(), 0);
    // from_row: negative latency rejected even on success rows.
    assert!(ProbeOutcome::from_row(true, Some(-3), None).is_err());
}

#[test]
fn monitor_target_and_collections() {
    let a = MonitorTarget::parse("a", "8.8.8.8", 53).unwrap();
    assert_eq!(a.socket_hint(), "8.8.8.8:53");
    assert_eq!(a.to_string(), "a (8.8.8.8:53)");
    assert!(MonitorTarget::parse("", "8.8.8.8", 53).is_err());
    assert!(MonitorTarget::parse("a", "", 53).is_err());
    assert!(MonitorTarget::parse("a", "8.8.8.8", 0).is_err());

    let list = NonEmptyTargets::new(vec![a.clone()]).unwrap();
    assert_eq!(list.len(), 1);
    assert!(!list.is_empty());
    assert_eq!(list.as_slice(), std::slice::from_ref(&a));
    assert_eq!(list.iter().count(), 1);
    assert_eq!(list.clone().into_iter().count(), 1);

    let db = DbPath::new("/tmp/x.db").unwrap();
    assert_eq!(db.as_path(), "/tmp/x.db");
    assert!(db.to_string().contains("x.db"));
    assert!(DbPath::new("  ").is_err());
}

#[test]
fn paths_are_kept_as_they_are() {
    assert_eq!(DbPath::new(" a.db ").unwrap().as_path(), " a.db ");
    assert_eq!(DbPath::new("\t").unwrap_err(), DomainError::EmptyDbPath);
}

#[test]
fn paths_are_compared_by_their_steps() {
    let samples = [
        "a", "a/", "a//b", "a/b", "a/./b", "./a", "a/.", ".", "./", "..", "a/..", "/", "//", "/.",
        "/a", "//a", "/./a", "a.b", "./.", "././a", "/a/b/", " a", "a/b/c", ".a", "é/b",
    ];
    for a in samples {
        for b in samples {
            let same = std::path::Path::new(a) == std::path::Path::new(b);
            assert_eq!(DbPath::new(a).unwrap() == DbPath::new(b).unwrap(), same, "{a} {b}");
        }
    }
    assert!(DbPath::new("a//b").unwrap() == DbPath::new("a/b").unwrap());
    assert!(DbPath::new("/a").unwrap() != DbPath::new("a").unwrap());
}

#[test]
fn refused_ranges_are_compared_as_numbers() {
    let samples = [
        0.0,
        -0.0,
        721.0,
        -721.0,
        f64::NAN,
        -f64::NAN,
        f64::INFINITY,
        f64::NEG_INFINITY,
        f64::MIN_POSITIVE,
    ];
    for a in samples {
        for b in samples {
            assert_eq!(double(a) == double(b), a == b, "{a} {b}");
            assert_eq!(hours(a).unwrap_err() == hours(b).unwrap_err(), a == b, "{a} {b}");
        }
    }
}

#[test]
fn targets_can_be_walked() {
    let list = NonEmptyTargets::new(vec![
        MonitorTarget::parse("a", "8.8.8.8", 53).unwrap(),
        MonitorTarget::parse("b", "1.1.1.1", 53).unwrap(),
    ])
    .unwrap();
    let mut names: Vec<String> = Vec::new();
    for t in list {
        names.push(t.name.to_string());
    }
    assert_eq!(names, vec!["a", "b"]);
}

#[test]
fn outcome_is_exhaustive_by_construction() {
    let ok = ProbeOutcome::success(LatencyMs::new(1).unwrap());
    assert!(ok.is_success());
    assert!(ok.error().is_none());
    let fail = ProbeOutcome::failure(CompactError::timeout());
    assert!(!fail.is_success());
    assert!(fail.latency().is_none());
}

#[test]
fn host_port_types_thread_through() {
    let h = Host::new("example.com").unwrap();
    let p = Port::new(443).unwrap();
    assert_eq!(h.socket_hint(p), "example.com:443");
}
