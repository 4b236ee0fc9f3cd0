use netmon::db::{
    group_outages, history_plan, insert_columns, outages_plan, read_checks, read_outages,
    read_stats, row_to_check, target_stats, Check, CheckColumns, HistoryPlan, Outage, StatsRow,
    Store, TargetStats,
};
use netmon::domain::{
    CompactError, DbPath, HistoryLimit, LatencyMs, ProbeOutcome, Share, TargetName, UnixSecs,
};
use netmon::error::StoreError;
use rusqlite::Connection;

const SCHEMA: &str = "CREATE TABLE checks (
    id INTEGER PRIMARY KEY AUTOINCREMENT,
    ts INTEGER NOT NULL,
    target TEXT NOT NULL,
    success INTEGER NOT NULL,
    latency_ms INTEGER,
    error TEXT
);";

const COLUMNS: &str = "SELECT id, ts, target, success, latency_ms, error FROM checks";

fn database() -> Connection {
    let conn = Connection::open_in_memory().unwrap();
    conn.execute_batch(SCHEMA).unwrap();
    conn
}

fn insert(conn: &Connection, ts: UnixSecs, target: &TargetName, outcome: &ProbeOutcome) {
    let c = insert_columns(ts, target, outcome);
    conn.execute(
        "INSERT INTO checks (ts, target, success, latency_ms, error) VALUES (?1, ?2, ?3, ?4, ?5)",
        (c.ts, c.target, c.success, c.latency_ms, c.error),
    )
    .unwrap();
}

fn columns(row: &rusqlite::Row) -> rusqlite::Result<(i64, CheckColumns)> {
    Ok((
        row.get(0)?,
        CheckColumns {
            ts: row.get(1)?,
            target: row.get(2)?,
            success: row.get(3)?,
            latency_ms: row.get(4)?,
            error: row.get(5)?,
        },
    ))
}

fn checks<P: rusqlite::Params>(conn: &Connection, rest: &str, params: P) -> Vec<Check> {
    let mut stmt = conn.prepare(&format!("{COLUMNS} {rest}")).unwrap();
    let rows = stmt
        .query_map(params, columns)
        .unwrap()
        .map(|r| r.map_err(|e| e.to_string()))
        .collect();
    read_checks(rows).unwrap()
}

fn latest_per_target(conn: &Connection) -> Vec<Check> {
    checks(
        conn,
        "WHERE id IN (SELECT MAX(id) FROM checks GROUP BY target) ORDER BY target",
        (),
    )
}

fn history(
    conn: &Connection,
    since: Option<UnixSecs>,
    target: Option<TargetName>,
    limit: HistoryLimit,
) -> Vec<Check> {
    let order = "ORDER BY ts DESC, id DESC LIMIT";
    match history_plan(since, &target, limit) {
        HistoryPlan::SinceTarget { since, target, limit } => checks(
            conn,
            &format!("WHERE ts >= ?1 AND target = ?2 {order} ?3"),
            (since, target, limit),
        ),
        HistoryPlan::Since { since, limit } => {
            checks(conn, &format!("WHERE ts >= ?1 {order} ?2"), (since, limit))
        }
        HistoryPlan::Target { target, limit } => {
            checks(conn, &format!("WHERE target = ?1 {order} ?2"), (target, limit))
        }
        HistoryPlan::All { limit } => checks(conn, &format!("{order} ?1"), (limit,)),
    }
}

fn stats(conn: &Connection, since: UnixSecs) -> Vec<TargetStats> {
    let mut stmt = conn
        .prepare(
            "SELECT target, COUNT(*), SUM(success),
                AVG(CASE WHEN success = 1 THEN latency_ms END),
                MAX(CASE WHEN success = 1 THEN ts END),
                MAX(CASE WHEN success = 0 THEN ts END)
            FROM checks WHERE ts >= ?1 GROUP BY target ORDER BY target",
        )
        .unwrap();
    let mut rows: Vec<StatsRow> = stmt
        .query_map((since.as_i64(),), |row| {
            Ok(StatsRow {
                target: row.get(0)?,
                total: row.get(1)?,
                success: row.get(2)?,
                avg_latency_bits: row.get::<_, Option<f64>>(3)?.map(f64::to_bits),
                last_ok: row.get(4)?,
                last_fail: row.get(5)?,
                latest_success: None,
            })
        })
        .unwrap()
        .map(|r| r.unwrap())
        .collect();
    for row in &mut rows {
        row.latest_success = conn
            .query_row(
                "SELECT success FROM checks WHERE target = ?1 AND ts >= ?2
                ORDER BY ts DESC, id DESC LIMIT 1",
                (&row.target, since.as_i64()),
                |r| r.get(0),
            )
            .ok();
    }
    read_stats(rows.into_iter().map(Ok).collect()).unwrap()
}

fn percent(share: Share) -> f64 {
    share.part as f64 / share.total as f64 * 100.0
}

fn target(name: &str) -> TargetName {
    TargetName::new(name).unwrap()
}

fn ok(ms: i64) -> ProbeOutcome {
    ProbeOutcome::success(LatencyMs::new(ms).unwrap())
}

fn fail(msg: &str) -> ProbeOutcome {
    ProbeOutcome::failure(CompactError::new(msg))
}

fn row(name: &str, ts: i64, success: bool) -> (String, i64, bool) {
    (name.to_string(), ts, success)
}

#[test]
fn insert_and_latest_round_trip() {
    let conn = database();
    let ts = UnixSecs::new(1_000);
    insert(&conn, ts, &target("a"), &ok(10));
    insert(&conn, ts, &target("b"), &fail("boom"));
    let latest = latest_per_target(&conn);
    assert_eq!(latest.len(), 2);
    let b = latest.iter().find(|c| c.target.as_str() == "b").unwrap();
    assert!(!b.success());
    assert_eq!(b.error().as_deref(), Some("boom"));
    let count: i64 = conn
        .query_row("SELECT COUNT(*) FROM checks", (), |r| r.get(0))
        .unwrap();
    assert_eq!(count, 2);
}

#[test]
fn history_filters_by_target_and_since() {
    let conn = database();
    insert(&conn, UnixSecs::new(100), &target("a"), &ok(5));
    insert(&conn, UnixSecs::new(200), &target("b"), &ok(6));
    insert(&conn, UnixSecs::new(300), &target("a"), &fail("x"));

    let all = history(&conn, None, None, HistoryLimit::new(10).unwrap());
    assert_eq!(all.len(), 3);
    // DESC order
    assert_eq!(all[0].ts.as_i64(), 300);

    let a_only = history(&conn, None, Some(target("a")), HistoryLimit::new(10).unwrap());
    assert_eq!(a_only.len(), 2);

    let recent = history(
        &conn,
        Some(UnixSecs::new(250)),
        None,
        HistoryLimit::new(10).unwrap(),
    );
    assert_eq!(recent.len(), 1);
}

#[test]
fn stats_compute_loss_and_avg() {
    let conn = database();
    let t = target("a");
    insert(&conn, UnixSecs::new(100), &t, &ok(10));
    insert(&conn, UnixSecs::new(110), &t, &ok(30));
    insert(&conn, UnixSecs::new(120), &t, &fail("down"));
    let stats = stats(&conn, UnixSecs::new(0));
    assert_eq!(stats.len(), 1);
    assert_eq!(stats[0].total, 3);
    assert!((percent(stats[0].loss_pct) - 100.0 / 3.0).abs() < 1e-9);
    assert!((f64::from_bits(stats[0].avg_latency_bits.unwrap()) - 20.0).abs() < 1e-9);
    assert_eq!(stats[0].currently_up, Some(false));
}

#[test]
fn outages_group_closed_and_ongoing() {
    // closed: F F S
    let rows = vec![
        ("a".to_string(), 100, false),
        ("a".to_string(), 110, false),
        ("a".to_string(), 120, true),
    ];
    let out = group_outages(&rows);
    assert_eq!(out.len(), 1);
    assert!(!out[0].ongoing);
    assert_eq!(out[0].failed_checks, 2);
    assert_eq!(out[0].duration_secs, Some(20));

    // ongoing: F F (no recovery)
    let rows = vec![("a".to_string(), 100, false), ("a".to_string(), 110, false)];
    let out = group_outages(&rows);
    assert_eq!(out.len(), 1);
    assert!(out[0].ongoing);
}

#[test]
fn outages_separate_targets_and_sort_newest_first() {
    let rows = vec![
        ("a".to_string(), 100, false),
        ("a".to_string(), 110, true),
        ("b".to_string(), 500, false),
        ("b".to_string(), 510, true),
    ];
    let out = group_outages(&rows);
    assert_eq!(out.len(), 2);
    assert_eq!(out[0].target.as_str(), "b");
}

#[test]
fn outages_empty_input() {
    assert!(group_outages(&[]).is_empty());
}

#[test]
fn store_outages_end_to_end() {
    let conn = database();
    let t = target("web");
    insert(&conn, UnixSecs::new(100), &t, &fail("d1"));
    insert(&conn, UnixSecs::new(110), &t, &fail("d2"));
    insert(&conn, UnixSecs::new(120), &t, &ok(5));
    let plan = outages_plan(UnixSecs::new(0), HistoryLimit::new(100).unwrap());
    assert_eq!(plan, (0, 100));
    let mut stmt = conn
        .prepare(
            "SELECT target, ts, success FROM checks WHERE ts >= ?1
            ORDER BY target, ts, id LIMIT ?2",
        )
        .unwrap();
    let rows = stmt
        .query_map(plan, |r| Ok((r.get(0)?, r.get(1)?, r.get(2)?)))
        .unwrap()
        .map(|r| r.map_err(|e| e.to_string()))
        .collect();
    let out = read_outages(rows).unwrap();
    assert_eq!(out.len(), 1);
    assert_eq!(out[0].failed_checks, 2);
}

#[test]
fn check_serializes_to_legacy_json_shape() {
    let c = Check::new(7, UnixSecs::new(123), target("a"), ok(9));
    assert_eq!(c.id, 7);
    assert_eq!(c.ts.as_i64(), 123);
    assert_eq!(c.target.as_str(), "a");
    assert_eq!(c.success(), true);
    assert_eq!(c.latency_ms(), Some(9));
    assert!(c.error().is_none());
    assert_eq!(c.timestamp.to_rfc3339(), "1970-01-01T00:02:03Z");
}

#[test]
fn stats_on_empty_db_and_all_failures() {
    let conn = database();
    assert!(stats(&conn, UnixSecs::new(0)).is_empty());

    let t = target("solo");
    insert(&conn, UnixSecs::new(100), &t, &fail("d1"));
    insert(&conn, UnixSecs::new(110), &t, &fail("d2"));
    let found = stats(&conn, UnixSecs::new(0));
    assert_eq!(found.len(), 1);
    assert_eq!(found[0].failed, 2);
    assert!(found[0].avg_latency_bits.is_none());
    assert!(found[0].last_success.is_none());
    assert!(found[0].last_failure.is_some());
    assert_eq!(found[0].currently_up, Some(false));
    // Window excluding all rows → empty, not NaN.
    assert!(stats(&conn, UnixSecs::new(10_000)).is_empty());

    assert_eq!(found[0].target.as_str(), "solo");
}

#[test]
fn corrupt_rows_degrade_gracefully() {
    let conn = database();
    // Bypass the typed API: empty target + success-with-error is
    // inconsistent, and must not fail the whole query.
    conn.execute(
        "INSERT INTO checks (ts, target, success, latency_ms, error) VALUES (100, '', 1, NULL, 'stale')",
        (),
    )
    .unwrap();
    let latest = latest_per_target(&conn);
    assert_eq!(latest.len(), 1);
    assert_eq!(latest[0].target.as_str(), "unknown");
    assert!(!latest[0].success());
    // Stats fall back the same way.
    let stats = stats(&conn, UnixSecs::new(0));
    assert_eq!(stats[0].target.as_str(), "unknown");
}

#[test]
fn group_outages_edge_cases() {
    // Open outage flushed when the target changes.
    let rows = vec![
        ("a".to_string(), 100, false),
        ("b".to_string(), 200, false),
        ("b".to_string(), 210, true),
    ];
    let out = group_outages(&rows);
    assert_eq!(out.len(), 2);
    assert!(out.iter().any(|o| o.target.as_str() == "a" && o.ongoing));

    // Leading successes with no open outage are ignored.
    let rows = vec![
        ("a".to_string(), 100, true),
        ("a".to_string(), 110, false),
        ("a".to_string(), 120, true),
    ];
    let out = group_outages(&rows);
    assert_eq!(out.len(), 1);
    assert_eq!(out[0].failed_checks, 1);

    // Two separate outages on one target, newest first.
    let rows = vec![
        ("a".to_string(), 100, false),
        ("a".to_string(), 110, true),
        ("a".to_string(), 200, false),
        ("a".to_string(), 230, true),
    ];
    let out = group_outages(&rows);
    assert_eq!(out.len(), 2);
    assert_eq!(out[0].start_ts.as_i64(), 200);
    assert_eq!(out[0].duration_secs, Some(30));

    // Success-only input → no outages.
    let rows = vec![("a".to_string(), 100, true)];
    assert!(group_outages(&rows).is_empty());

    // Outage shape for the dashboard.
    assert_eq!(out[0].ongoing, false);
    assert_eq!(out[0].failed_checks, 1);
}

#[test]
fn check_accessors_and_failure_json() {
    let failed = Check::new(3, UnixSecs::new(50), target("w"), fail("kaput"));
    assert!(!failed.success());
    assert!(failed.latency_ms().is_none());
    assert_eq!(failed.error().as_deref(), Some("kaput"));

    let succeeded = Check::new(4, UnixSecs::new(51), target("w"), ok(11));
    assert!(succeeded.success());
    assert_eq!(succeeded.latency_ms(), Some(11));
    assert!(succeeded.error().is_none());
    assert_eq!(succeeded.clone().id, 4);
}

#[test]
fn store_knows_its_path() {
    let s = Store::new(DbPath::new("/data/x.db").unwrap());
    assert_eq!(s.db_path().as_path(), "/data/x.db");
    assert_eq!(s.clone().db_path().as_path(), "/data/x.db");
}

#[test]
fn written_checks_are_read_back() {
    for outcome in [ok(0), ok(i64::MAX), fail("boom"), fail("")] {
        let c = insert_columns(UnixSecs::new(77), &target("a b"), &outcome);
        let check = row_to_check(5, c);
        assert_eq!(check.id, 5);
        assert_eq!(check.ts.as_i64(), 77);
        assert_eq!(check.timestamp.timestamp(), 77);
        assert_eq!(check.target, target("a b"));
        assert_eq!(check.outcome, outcome);
    }
    // A text cut off behind white space loses it.
    let cut = fail(&("x".repeat(199) + " y"));
    let check = row_to_check(5, insert_columns(UnixSecs::new(77), &target("a"), &cut));
    assert!(!check.success());
    assert_eq!(check.error(), Some("x".repeat(199)));
}

#[test]
fn any_row_reads_as_a_valid_check() {
    let check = row_to_check(
        1,
        CheckColumns {
            ts: -5,
            target: " padded ".to_string(),
            success: 1,
            latency_ms: Some(-1),
            error: None,
        },
    );
    assert_eq!(check.ts.as_i64(), 0);
    assert_eq!(check.target.as_str(), "padded");
    assert_eq!(check.error().as_deref(), Some("inconsistent row"));
    let check = row_to_check(
        2,
        CheckColumns {
            ts: 9,
            target: "x".repeat(65),
            success: 7,
            latency_ms: None,
            error: None,
        },
    );
    assert_eq!(check.target.as_str(), "unknown");
    assert_eq!(check.latency_ms(), Some(0));
}

#[test]
fn the_first_unreadable_row_is_reported() {
    let good = || {
        Ok((
            1,
            CheckColumns {
                ts: 1,
                target: "a".to_string(),
                success: 0,
                latency_ms: None,
                error: None,
            },
        ))
    };
    let rows = vec![good(), Err("first".to_string()), good(), Err("second".to_string())];
    assert!(matches!(read_checks(rows).unwrap_err(), StoreError::Sqlite(m) if m == "first"));
    let read = read_checks(vec![good(), good()]).unwrap();
    assert_eq!(read.len(), 2);
    assert_eq!(read[1].error().as_deref(), Some("check failed"));
    assert!(read_outages(vec![Err("x".to_string())]).is_err());
    assert!(read_stats(vec![Err("x".to_string())]).is_err());
}

#[test]
fn history_plans_carry_every_filter() {
    let n = |k: usize| HistoryLimit::new(k).unwrap();
    assert_eq!(history_plan(None, &None, n(10_000)), HistoryPlan::All { limit: 10_000 });
    assert_eq!(
        history_plan(Some(UnixSecs::new(4)), &None, n(1)),
        HistoryPlan::Since { since: 4, limit: 1 }
    );
    assert_eq!(
        history_plan(None, &Some(target("a")), n(2)),
        HistoryPlan::Target { target: "a".to_string(), limit: 2 }
    );
    assert_eq!(
        history_plan(Some(UnixSecs::new(4)), &Some(target("a")), n(3)),
        HistoryPlan::SinceTarget { since: 4, target: "a".to_string(), limit: 3 }
    );
}

#[test]
fn stats_come_from_their_row() {
    let row = StatsRow {
        target: "a".to_string(),
        total: 4,
        success: Some(3),
        avg_latency_bits: Some((12.5f64).to_bits()),
        last_ok: Some(60),
        last_fail: Some(-1),
        latest_success: Some(1),
    };
    let s = target_stats(&row);
    assert_eq!((s.total, s.success, s.failed), (4, 3, 1));
    assert_eq!(s.loss_pct, Share { part: 1, total: 4 });
    assert_eq!(s.uptime_pct, Share { part: 3, total: 4 });
    assert_eq!(s.clone().uptime_pct, s.uptime_pct);
    assert_eq!(s.avg_latency_bits.map(f64::from_bits), Some(12.5));
    assert_eq!(s.last_success.unwrap().timestamp(), 60);
    assert_eq!(s.last_failure.unwrap().timestamp(), 0);
    assert_eq!(s.currently_up, Some(true));
}

#[test]
fn loss_is_a_share_and_never_negative() {
    let row = |total: i64, success: Option<i64>| StatsRow {
        target: "a".to_string(),
        total,
        success,
        avg_latency_bits: None,
        last_ok: None,
        last_fail: None,
        latest_success: None,
    };
    let s = target_stats(&row(5, None));
    assert_eq!((s.success, s.failed), (0, 5));
    assert_eq!(percent(s.loss_pct), 100.0);
    assert_eq!(percent(s.uptime_pct), 0.0);
    assert_eq!(s.currently_up, None);
    let s = target_stats(&row(3, Some(5)));
    assert_eq!((s.failed, percent(s.loss_pct)), (0, 0.0));
    assert_eq!(percent(s.uptime_pct), 100.0);
    let s = target_stats(&row(0, None));
    assert_eq!((s.failed, percent(s.loss_pct)), (0, 0.0));
    assert_eq!(percent(s.uptime_pct), 100.0);
    // More than all is lost where the successes are negative.
    let s = target_stats(&row(4, Some(-4)));
    assert_eq!((percent(s.loss_pct), percent(s.uptime_pct)), (200.0, -100.0));
}

fn failed_sum(out: &[Outage]) -> i64 {
    out.iter().map(|o| o.failed_checks).sum()
}

#[test]
fn every_failure_is_in_one_outage() {
    let rows = vec![
        row("a", 1, false),
        row("a", 2, true),
        row("a", 3, false),
        row("a", 4, false),
        row("b", 1, false),
        row("b", 2, false),
        row("c", 9, true),
        row("c", 10, false),
    ];
    let out = group_outages(&rows);
    assert_eq!(out.len(), 4);
    assert_eq!(failed_sum(&out), 6);
    let starts: Vec<i64> = out.iter().map(|o| o.start_ts.as_i64()).collect();
    assert_eq!(starts, vec![10, 3, 1, 1]);
    // Equal starts stay in the order of the rows.
    assert_eq!(out[2].target.as_str(), "a");
    assert_eq!(out[3].target.as_str(), "b");
    for o in &out {
        assert_eq!(o.ongoing, o.end_ts.is_none());
        assert_eq!(o.ongoing, o.end.is_none());
        assert_eq!(o.ongoing, o.duration_secs.is_none());
        assert!(o.failed_checks >= 1);
    }
}

#[test]
fn outages_survive_a_clock_that_goes_back() {
    let out = group_outages(&[row("a", 100, false), row("a", 40, true)]);
    assert_eq!(out[0].duration_secs, Some(0));
    assert_eq!(out[0].end_ts.unwrap().as_i64(), 40);
    assert_eq!(out[0].end.unwrap().timestamp(), 40);
    assert_eq!(out[0].start.timestamp(), 100);
    let out = group_outages(&[row("a", -100, false), row("a", i64::MAX, true)]);
    assert_eq!(out[0].start_ts.as_i64(), 0);
    assert_eq!(out[0].duration_secs, Some(i64::MAX));
    assert_eq!(out[0].end.unwrap().timestamp(), 0);
}

#[test]
fn failures_of_one_target_merge_however_it_is_stored() {
    let out = group_outages(&[row("", 100, false), row("", 110, false), row("", 120, true)]);
    assert_eq!(out.len(), 1);
    assert_eq!(out[0].target.as_str(), "unknown");
    assert_eq!(out[0].start_ts.as_i64(), 100);
    assert_eq!(out[0].end_ts.map(|t| t.as_i64()), Some(120));
    assert_eq!(out[0].failed_checks, 2);
    assert_eq!(out[0].duration_secs, Some(20));
    assert!(!out[0].ongoing);
    let out = group_outages(&[row(" a", 1, false), row("a", 2, false), row("a ", 3, true)]);
    assert_eq!(out.len(), 1);
    assert_eq!(out[0].target.as_str(), "a");
    assert_eq!(out[0].failed_checks, 2);
    assert_eq!(out[0].duration_secs, Some(2));
    // A success of another target ends nothing.
    let out = group_outages(&[row("", 1, false), row("a", 2, true)]);
    assert_eq!(out.len(), 1);
    assert!(out[0].ongoing);
}

#[test]
fn different_stored_names_do_not_merge() {
    // Both are shown as `unknown`, but they are different targets.
    let out = group_outages(&[row("", 100, false), row(" ", 50, true)]);
    assert_eq!(out.len(), 1);
    assert!(out[0].ongoing);
    assert_eq!(out[0].start_ts.as_i64(), 100);
    let (long, longer) = ("x".repeat(65), "x".repeat(66));
    let out = group_outages(&[row(&long, 1, false), row(&longer, 2, false)]);
    assert_eq!(out.len(), 2);
    assert!(out.iter().all(|o| o.ongoing && o.target.as_str() == "unknown"));
    let out = group_outages(&[row("", 1, false), row("unknown", 2, false)]);
    assert_eq!(out.len(), 2);
    assert_eq!(out[0].clone().failed_checks, 1);
}
