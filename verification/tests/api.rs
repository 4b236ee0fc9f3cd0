use std::sync::Arc;

use netmon::api::{
    fleet_online, get_config, get_history, get_outages, get_stats, get_status, handle, health, refuse,
    ApiError, AppState, HistoryQuery, OutagesQuery, StatsQuery,
};
use netmon::config::Config;
use netmon::db::{Check, HistoryPlan, Store};
use netmon::domain::{CompactError, HistoryLimit, LatencyMs, ProbeOutcome, TargetName, UnixSecs};
use netmon::error::{DomainError, StoreError};
use netmon::lookback::{Double, LookbackHours};

fn check(id: i64, target: &str, ok: bool) -> Check {
    let outcome = if ok {
        ProbeOutcome::success(LatencyMs::new(5).unwrap())
    } else {
        ProbeOutcome::failure(CompactError::new("down"))
    };
    Check::new(
        id,
        UnixSecs::new(100),
        TargetName::new(target).unwrap(),
        outcome,
    )
}

fn state() -> AppState {
    let cfg = Config::defaults();
    let store = Store::new(cfg.db_path.clone());
    AppState { cfg: Arc::new(cfg), store }
}

fn hours(h: f64) -> Option<Double> {
    Some(Double { bits: h.to_bits(), shown: format!("{h:?}") })
}

#[test]
fn fleet_online_needs_at_least_one_success() {
    assert!(!fleet_online(&[]));
    assert!(!fleet_online(&[check(1, "a", false)]));
    assert!(fleet_online(&[check(1, "a", false), check(2, "b", true)]));
    assert!(fleet_online(&[check(1, "a", true)]));
}

#[test]
fn history_query_rejects_out_of_range_hours() {
    let parsed = serde_json::from_str::<f64>("5000.0").unwrap();
    let bad = HistoryQuery::new(hours(parsed), None, None);
    assert!(bad.is_err());
    let ok = HistoryQuery::new(hours(6.0), None, Some(50)).unwrap();
    assert_eq!(f64::from_bits(ok.hours.unwrap().hours()), 6.0);
    assert_eq!(ok.limit.unwrap().get(), 50);
}

#[test]
fn history_query_rejects_empty_target_name() {
    let bad = HistoryQuery::new(None, Some("   "), None);
    assert!(bad.is_err());
}

#[test]
fn refused_queries_are_unprocessable() {
    let e = StatsQuery::new(hours(721.0)).unwrap_err();
    assert_eq!(e, DomainError::InvalidLookback { hours: hours(721.0).unwrap() });
    assert_eq!(
        refuse(&e),
        (422, "invalid lookback 721.0h: must be 0.05..=720".to_string())
    );
    assert_eq!(refuse(&OutagesQuery::new(hours(0.0)).unwrap_err()).0, 422);
    let e = HistoryQuery::new(None, Some(""), Some(0)).unwrap_err();
    assert_eq!(e, DomainError::EmptyTargetName);
    assert_eq!(refuse(&e), (422, "target name must not be empty".to_string()));
    let e = HistoryQuery::new(hours(1.0), Some("a"), Some(0)).unwrap_err();
    assert_eq!(e, DomainError::InvalidHistoryLimit { n: 0 });
    let e = HistoryQuery::new(hours(f64::NAN), Some(""), Some(0)).unwrap_err();
    assert!(matches!(e, DomainError::InvalidLookback { hours } if hours.shown == "NaN"));
}

#[test]
fn status_reflects_the_latest_checks() {
    let now = UnixSecs::new(1234);
    let s = get_status(Ok(vec![]), Ok(0), now).unwrap();
    assert!(!s.online);
    assert!(s.targets.is_empty());
    let s = get_status(Ok(vec![check(1, "web", true)]), Ok(1), now).unwrap();
    assert!(s.online);
    assert_eq!(s.total_checks, 1);
    assert_eq!(s.checked_at, 1234);
    assert_eq!(s.targets[0].id, 1);
    // An unknown number of checks is given as zero.
    let failed = Err(StoreError::Sqlite("locked".to_string()));
    let s = get_status(Ok(vec![check(1, "web", false)]), failed, now).unwrap();
    assert_eq!(s.total_checks, 0);
    assert!(!s.online);
}

#[test]
fn store_failure_maps_to_500() {
    let failed = || StoreError::Sqlite("unable to open database file".to_string());
    let err = get_status(Err(failed()), Ok(3), UnixSecs::new(0)).unwrap_err();
    assert_eq!(
        err.into_response(),
        (500, "sqlite error: unable to open database file".to_string())
    );
    let r: Result<Vec<Check>, ApiError> = handle(Err(failed()));
    assert_eq!(r.unwrap_err().into_response().0, 500);
    assert_eq!(handle::<i64>(Ok(1)).unwrap(), 1);
    let e = ApiError::from(StoreError::from(DomainError::NoTargets));
    assert_eq!(
        e.into_response(),
        (500, "at least one monitor target is required".to_string())
    );
}

#[test]
fn history_requests_become_plans() {
    let s = state();
    let now = UnixSecs::new(10_000);
    let q = HistoryQuery { hours: None, target: None, limit: None };
    assert_eq!(get_history(&s, &q, now), HistoryPlan::All { limit: 2000 });
    let q = HistoryQuery {
        hours: Some(LookbackHours::new(hours(1.0).unwrap()).unwrap()),
        target: Some(TargetName::new("web").unwrap()),
        limit: Some(HistoryLimit::new(5).unwrap()),
    };
    assert_eq!(
        get_history(&s, &q, now),
        HistoryPlan::SinceTarget { since: 6400, target: "web".to_string(), limit: 5 }
    );
}

#[test]
fn ranges_default_to_one_day() {
    let s = state();
    let now = UnixSecs::new(1_000_000);
    let q = StatsQuery { hours: None };
    assert_eq!(get_stats(&q, now).as_i64(), 1_000_000 - 86_400);
    let q = StatsQuery::new(hours(1.0)).unwrap();
    assert_eq!(get_stats(&q, now).as_i64(), 1_000_000 - 3600);
    let q = OutagesQuery { hours: None };
    assert_eq!(get_outages(&s, &q, now), (1_000_000 - 86_400, 2000));
    let q = OutagesQuery::new(hours(720.0)).unwrap();
    assert_eq!(get_outages(&s, &q, now), (0, 2000));
}

#[test]
fn config_and_health_are_answered() {
    let c = get_config(&state());
    assert_eq!(c.port, 3000);
    assert_eq!((c.check_interval_secs, c.check_timeout_secs), (10, 5));
    assert_eq!(c.targets.len(), 3);
    assert_eq!(c.targets[0].name.as_str(), "Google DNS");
    assert!(health().ok);
    assert_eq!(state().clone().store.db_path().as_path(), "netmon.db");
}
