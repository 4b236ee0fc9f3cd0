//! Laws of the views: what is stated of a value over plain values is stated of
//! its own fields, each under its name, and of a list item by item.

use vstd::prelude::*;

use crate::api::{is_range_of, limit_of, pattern_of, StatusResponse};
use crate::config::{Config, EnvVars, FileConfig};
use crate::db::{
    checks_data, name_of, row_values, stats_data, time_of, Check, CheckColumns, TargetStats,
};
use crate::domain::{
    string_of, targets_data, HistoryLimit, MonitorTarget, OutcomeData, ProbeOutcome, TargetName,
    UnixSecs,
};
use crate::health::{arg_of, exchange_data};
use crate::lookback::{Double, LookbackHours};
use crate::monitor::{jobs_data, ProbeJob};
use crate::outages::{outages_data, rows_data, Outage};
use crate::text::{text_of, texts};

verus! {

/// A parameter is taken over where it is there, and absent where it is not.
pub proof fn law_parameters_are_taken_over(
    name: TargetName,
    t: UnixSecs,
    h: LookbackHours,
    range: Option<LookbackHours>,
    d: Double,
    l: HistoryLimit,
    s: String,
)
    ensures
        name_of(Some(name)) == Some(name@) && name_of(None) is None,
        time_of(Some(t)) == Some(t@) && time_of(None) is None,
        pattern_of(Some(h)) == Some(h@) && pattern_of(None) is None,
        limit_of(Some(l)) == Some(l@) && limit_of(None) is None,
        string_of(Some(s)) == Some(s@) && string_of(None) is None,
        arg_of(Some(&s)) == Some(s@) && arg_of(None) is None,
        is_range_of(range, Some(d)) <==> range is Some && range->0@ == d.bits,
        is_range_of(range, None) <==> range is None,
{
}

/// A piece of text is taken over where it is there, and absent where it is not;
/// so are the bytes of a reply and the message of a failure.
pub proof fn law_texts_are_taken_over(s: &str, bytes: Vec<u8>, m: String)
    ensures
        text_of(Some(s)) == Some(s@) && text_of(None) is None,
        exchange_data(Ok(bytes)) == Ok::<Seq<u8>, Seq<char>>(bytes@),
        exchange_data(Err(m)) == Err::<Seq<u8>, Seq<char>>(m@),
{
}

/// A list says what its items say, each in its place, and no more.
pub proof fn law_lists_say_what_their_items_say(
    checks: Seq<Check>,
    outages: Seq<Outage>,
    stats: Seq<TargetStats>,
    targets: Seq<MonitorTarget>,
    jobs: Seq<ProbeJob>,
    i: int,
)
    ensures
        checks_data(checks).len() == checks.len(),
        outages_data(outages).len() == outages.len(),
        stats_data(stats).len() == stats.len(),
        targets_data(targets).len() == targets.len(),
        jobs_data(jobs).len() == jobs.len(),
        0 <= i < checks.len() ==> checks_data(checks)[i] == checks[i]@,
        0 <= i < outages.len() ==> outages_data(outages)[i] == outages[i]@,
        0 <= i < stats.len() ==> stats_data(stats)[i] == stats[i]@,
        0 <= i < targets.len() ==> targets_data(targets)[i] == targets[i]@,
        0 <= i < jobs.len() ==> jobs_data(jobs)[i] == jobs[i]@,
{
}

/// Rows and pieces of text are taken over in order, each as it is.
pub proof fn law_rows_are_taken_over(
    rows: Seq<(String, i64, bool)>,
    pieces: Seq<&str>,
    results: Seq<Result<i64, String>>,
    i: int,
)
    ensures
        rows_data(rows).len() == rows.len(),
        texts(pieces).len() == pieces.len(),
        row_values(results).len() == results.len(),
        0 <= i < rows.len() ==> rows_data(rows)[i] == (rows[i].0@, rows[i].1, rows[i].2),
        0 <= i < pieces.len() ==> texts(pieces)[i] == pieces[i]@,
        0 <= i < results.len() ==> row_values(results)[i] == results[i]->Ok_0,
{
}

/// An outage says what its fields hold.
pub proof fn law_outage_says_its_fields(o: Outage)
    ensures
        o@.target == o.target@,
        o@.start_ts == o.start_ts@,
        o@.start == o.start@,
        o@.end_ts is Some <==> o.end_ts is Some,
        o.end_ts is Some ==> o@.end_ts->0 == o.end_ts->0@,
        o@.end is Some <==> o.end is Some,
        o.end is Some ==> o@.end->0 == o.end->0@,
        o@.failed_checks == o.failed_checks,
        o@.duration_secs is Some <==> o.duration_secs is Some,
        o.duration_secs is Some ==> o@.duration_secs->0 == o.duration_secs->0,
        o@.ongoing == o.ongoing,
{
}

/// The statistics of a target say what their fields hold.
pub proof fn law_statistics_say_their_fields(s: TargetStats)
    ensures
        s@.target == s.target@,
        s@.total == s.total,
        s@.success == s.success,
        s@.failed == s.failed,
        s@.loss == (s.loss_pct.part as int, s.loss_pct.total as int),
        s@.uptime == (s.uptime_pct.part as int, s.uptime_pct.total as int),
        s@.avg_latency_bits == s.avg_latency_bits,
        s@.last_success is Some <==> s.last_success is Some,
        s.last_success is Some ==> s@.last_success->0 == s.last_success->0@,
        s@.last_failure is Some <==> s.last_failure is Some,
        s.last_failure is Some ==> s@.last_failure->0 == s.last_failure->0@,
        s@.currently_up == s.currently_up,
{
}

/// A check, its columns and its outcome say what their fields hold.
pub proof fn law_check_says_its_fields(c: Check, row: CheckColumns, o: ProbeOutcome)
    ensures
        c@.id == c.id,
        c@.ts == c.ts@,
        c@.timestamp == c.timestamp@,
        c@.target == c.target@,
        c@.outcome == c.outcome@,
        row@.ts == row.ts,
        row@.target == row.target@,
        row@.success == row.success,
        row@.latency_ms == row.latency_ms,
        row@.error == string_of(row.error),
        match o {
            ProbeOutcome::Success { latency } => {
                o@ == (OutcomeData::Success { latency: latency@ })
            },
            ProbeOutcome::Failure { error } => o@ == (OutcomeData::Failure { error: error@ }),
        },
{
}

/// The state of the fleet, a target and a job say what their fields hold.
pub proof fn law_state_says_its_fields(s: StatusResponse, t: MonitorTarget, j: ProbeJob)
    ensures
        s@.online == s.online,
        s@.checked_at == s.checked_at,
        s@.targets == checks_data(s.targets@),
        s@.total_checks == s.total_checks,
        t@.name == t.name@,
        t@.host == t.host@,
        t@.port == t.port@,
        j@.target == j.target@,
        j@.timeout == j.timeout@,
{
}

/// A configuration and its sources say what their fields hold.
pub proof fn law_configuration_says_its_fields(c: Config, f: FileConfig, e: EnvVars)
    ensures
        c@.port == c.port@,
        c@.db_path == c.db_path@,
        c@.interval == c.check_interval@,
        c@.timeout == c.check_timeout@,
        c@.limit == c.history_limit@,
        c@.targets == c.targets@,
        f@.port == f.port,
        f@.db_path == string_of(f.db_path),
        f@.interval == f.check_interval_secs,
        f@.timeout == f.check_timeout_secs,
        f.targets is None ==> f@.targets is None,
        f.targets is Some ==> f@.targets == Some(targets_data(f.targets->0@)),
        e@.port == string_of(e.port),
        e@.db_path == string_of(e.db_path),
        e@.interval == string_of(e.check_interval_secs),
        e@.timeout == string_of(e.check_timeout_secs),
        e@.targets == string_of(e.targets),
{
}

} // verus!
