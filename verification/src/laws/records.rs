//! Laws of what is stored: the rows of checks, the outages in them, and the
//! statistics over them.

use vstd::prelude::*;
use vstd::utf8::*;

use crate::db::{
    columns_of, first_unread, outages_planned, planned, probe_rows, row_check, row_stats,
    rows_checks, rows_stats, CheckColumns, ColumnsData, HistoryPlan, StatsRow,
};
use crate::domain::{name_fault, row_outcome, OutcomeData};
use crate::laws::texts::{has_clean_edges, is_blank_text, law_trimming_undoes_padding};
use crate::outages::{
    all_outages, breaks, continues, is_newest_first, lemma_outages_come_from_rows,
    lemma_run_recorded, outages_before, run_end, same_target, starts, stored_name, OutageData,
    RowData,
};

verus! {

/// The time that a stored timestamp stands for: a negative one is the epoch.
pub open spec fn time(ts: i64) -> i64 {
    if ts >= 0 {
        ts
    } else {
        0
    }
}

/// The date of a time, by its timestamp, as far as the calendar reaches.
pub open spec fn date(t: i64) -> i64 {
    if t <= 8_210_266_876_799 {
        t
    } else {
        0
    }
}

// ---------------------------------------------------------------------------
// Names
// ---------------------------------------------------------------------------

/// A stored name with white space around it is shown without; one that is blank,
/// or longer than 64 bytes, is shown as `unknown`.
pub proof fn law_stored_name(a: Seq<char>, s: Seq<char>, b: Seq<char>)
    requires
        is_blank_text(a),
        is_blank_text(b),
        has_clean_edges(s) || s.len() == 0,
    ensures
        s.len() > 0 && encode_utf8(s).len() <= 64 ==> stored_name(a + s + b) == s,
        s.len() == 0 || encode_utf8(s).len() > 64 ==> stored_name(a + s + b) == "unknown"@,
{
    law_trimming_undoes_padding(a, s, b);
}

/// Two stored names are of one target where they are equal, or where both are
/// shown as the same valid name. Names that are none are of one target only
/// where they are equal.
pub proof fn law_same_target(a: Seq<char>, b: Seq<char>)
    ensures
        same_target(a, a),
        same_target(a, b) == same_target(b, a),
        name_fault(a) is None && name_fault(b) is None ==> (same_target(a, b) <==> stored_name(a)
            == stored_name(b)),
        name_fault(a) is Some ==> (same_target(a, b) <==> a == b),
{
}

// ---------------------------------------------------------------------------
// Outages
// ---------------------------------------------------------------------------

/// Are the rows from `a` up to `e` a run of failures of one target that cannot be
/// made longer?
pub open spec fn is_run(rows: Seq<RowData>, a: int, e: int) -> bool {
    &&& 0 <= a < e <= rows.len()
    &&& forall|j: int| a <= j < e ==> !(#[trigger] rows[j]).2
    &&& forall|j: int| a < j < e ==> same_target(rows[j - 1].0, (#[trigger] rows[j]).0)
    &&& a == 0 || rows[a - 1].2 || !same_target(rows[a - 1].0, rows[a].0)
    &&& e == rows.len() || rows[e].2 || !same_target(rows[e - 1].0, rows[e].0)
}

/// What is told of the run from `a` up to `e`: the target and the time of its
/// first failure, how many failures it has, and, where a success of the same
/// target follows, the time of that success and the time from the one to the
/// other.
pub open spec fn told(rows: Seq<RowData>, a: int, e: int) -> OutageData {
    let start = time(rows[a].1);
    let over = e < rows.len() && same_target(rows[e - 1].0, rows[e].0);
    let end = time(rows[e].1);
    OutageData {
        target: stored_name(rows[a].0),
        start_ts: start,
        start: date(start),
        end_ts: if over {
            Some(end)
        } else {
            None
        },
        end: if over {
            Some(date(end))
        } else {
            None
        },
        failed_checks: e - a,
        duration_secs: if !over {
            None
        } else if end >= start {
            Some(end - start)
        } else {
            Some(0)
        },
        ongoing: !over,
    }
}

proof fn lemma_earlier_outages_stay(rows: Seq<RowData>, m: nat, n: nat)
    requires
        m <= n <= rows.len(),
    ensures
        outages_before(rows, m).len() <= outages_before(rows, n).len(),
        forall|k: int|
            0 <= k < outages_before(rows, m).len() ==> #[trigger] outages_before(rows, n)[k]
                == outages_before(rows, m)[k],
    decreases n,
{
    if m < n {
        lemma_earlier_outages_stay(rows, m, (n - 1) as nat);
    }
}

proof fn lemma_run_is_told(rows: Seq<RowData>, a: int, e: int)
    requires
        is_run(rows, a, e),
    ensures
        starts(rows, a),
        run_end(rows, a) == e,
        outages_before(rows, e as nat) == outages_before(rows, a as nat).push(told(rows, a, e)),
{
    assert(!rows[a].2);
    assert(starts(rows, a));
    assert forall|j: int| a < j < e implies continues(rows, j) by {
        assert(!rows[j].2);
    }
    if e < rows.len() {
        assert(!continues(rows, e));
    }
    lemma_run_recorded(rows, a, e);
}

/// Every run of failures of one target is one outage, told as the run is: it
/// starts at the time of its first failure and ends at the success behind it.
/// Outages come in the order of their runs.
pub proof fn law_every_run_is_an_outage(rows: Seq<RowData>, a: int, e: int, b: int, f: int)
    requires
        is_run(rows, a, e),
        is_run(rows, b, f),
        a < b,
    ensures
        exists|k: int, l: int|
            0 <= k < l < all_outages(rows).len() && #[trigger] all_outages(rows)[k] == told(
                rows,
                a,
                e,
            ) && #[trigger] all_outages(rows)[l] == told(rows, b, f),
{
    lemma_run_is_told(rows, a, e);
    lemma_run_is_told(rows, b, f);
    assert(e <= b) by {
        if b < e {
            assert(same_target(rows[b - 1].0, rows[b].0));
            assert(!rows[b - 1].2);
        }
    }
    let k = outages_before(rows, a as nat).len() as int;
    let l = outages_before(rows, b as nat).len() as int;
    lemma_earlier_outages_stay(rows, e as nat, rows.len());
    lemma_earlier_outages_stay(rows, e as nat, b as nat);
    lemma_earlier_outages_stay(rows, f as nat, rows.len());
    assert(all_outages(rows)[k] == told(rows, a, e));
    assert(all_outages(rows)[l] == told(rows, b, f));
}

/// A run of failures is an outage, also where it is the only one.
pub proof fn law_a_run_is_an_outage(rows: Seq<RowData>, a: int, e: int)
    requires
        is_run(rows, a, e),
    ensures
        all_outages(rows).contains(told(rows, a, e)),
{
    lemma_run_is_told(rows, a, e);
    lemma_earlier_outages_stay(rows, e as nat, rows.len());
    let k = outages_before(rows, a as nat).len() as int;
    assert(outages_before(rows, e as nat)[k] == told(rows, a, e));
    assert(all_outages(rows)[k] == told(rows, a, e));
}

proof fn lemma_start_begins_a_run(rows: Seq<RowData>, i: int)
    requires
        0 <= i < rows.len(),
        starts(rows, i),
    ensures
        is_run(rows, i, run_end(rows, i)),
{
    crate::outages::law_run_is_of_one_target(rows, i);
    let e = run_end(rows, i);
    lemma_run_is_joined(rows, i);
    if e < rows.len() {
        assert(breaks(rows, e) || rows[e].2);
    }
}

proof fn lemma_run_is_joined(rows: Seq<RowData>, i: int)
    requires
        0 <= i < rows.len(),
    ensures
        forall|j: int|
            i < j < run_end(rows, i) ==> same_target(rows[j - 1].0, (#[trigger] rows[j]).0),
    decreases rows.len() - i,
{
    if i + 1 < rows.len() && continues(rows, i + 1) {
        lemma_run_is_joined(rows, i + 1);
    }
}

/// There is no other outage than the runs of failures.
pub proof fn law_every_outage_is_a_run(rows: Seq<RowData>, k: int)
    requires
        0 <= k < all_outages(rows).len(),
    ensures
        exists|a: int, e: int| #[trigger]
            is_run(rows, a, e) && all_outages(rows)[k] == told(rows, a, e),
{
    lemma_outages_come_from_rows(rows, rows.len(), k);
    let i = choose|i: int|
        0 <= i < rows.len() && #[trigger] starts(rows, i) && all_outages(rows)[k]
            == crate::outages::outage_from(rows, i);
    let e = run_end(rows, i);
    lemma_start_begins_a_run(rows, i);
    lemma_run_is_told(rows, i, e);
    let before = outages_before(rows, i as nat);
    lemma_earlier_outages_stay(rows, (i + 1) as nat, e as nat);
    assert(outages_before(rows, (i + 1) as nat) == before.push(
        crate::outages::outage_from(rows, i),
    ));
    let at = before.len() as int;
    assert(outages_before(rows, e as nat)[at] == outages_before(rows, (i + 1) as nat)[at]);
    assert(is_run(rows, i, e) && all_outages(rows)[k] == told(rows, i, e));
}

/// Outages are given newest first, and those that start at the same time in the
/// order of their rows.
pub proof fn law_newest_first(r: Seq<OutageData>, s: Seq<OutageData>, t: i64)
    requires
        is_newest_first(r, s),
    ensures
        forall|i: int, j: int| 0 <= i < j < r.len() ==> r[i].start_ts >= r[j].start_ts,
        r.filter(|o: OutageData| o.start_ts == t) == s.filter(|o: OutageData| o.start_ts == t),
{
    assert(crate::outages::starting_at(r, t) == crate::outages::starting_at(s, t));
}

// ---------------------------------------------------------------------------
// Checks
// ---------------------------------------------------------------------------

/// A probe is stored with its time, its target and its outcome: a success as one
/// with its latency, a failure as zero with its error.
pub proof fn law_probe_is_stored(ts: i64, target: Seq<char>, latency: i64, error: Seq<char>)
    ensures
        columns_of(ts, target, OutcomeData::Success { latency }) == (ColumnsData {
            ts,
            target,
            success: 1,
            latency_ms: Some(latency),
            error: None,
        }),
        columns_of(ts, target, OutcomeData::Failure { error }) == (ColumnsData {
            ts,
            target,
            success: 0,
            latency_ms: None,
            error: Some(error),
        }),
{
}

/// A row is read with its number, its time and the date of that, its name as it
/// is shown, and the outcome that its columns tell, or a failure where they
/// contradict each other.
pub proof fn law_row_is_read(id: i64, c: ColumnsData)
    ensures
        ({
            let check = row_check(id, c);
            &&& check.id == id
            &&& check.ts == time(c.ts)
            &&& check.timestamp == date(time(c.ts))
            &&& check.target == stored_name(c.target)
            &&& match row_outcome(c.success != 0, c.latency_ms, c.error) {
                Ok(o) => check.outcome == o,
                Err(_) => check.outcome == (OutcomeData::Failure { error: "inconsistent row"@ }),
            }
        }),
{
}

/// Every row gives one check, or one line of statistics, or one probe to group,
/// in its place; what it gives depends on that row alone.
pub proof fn law_rows_are_read_one_by_one(
    checks: Seq<Result<(i64, CheckColumns), String>>,
    stats: Seq<Result<StatsRow, String>>,
    probes: Seq<Result<(String, i64, i64), String>>,
    i: int,
)
    ensures
        rows_checks(checks).len() == checks.len(),
        rows_stats(stats).len() == stats.len(),
        probe_rows(probes).len() == probes.len(),
        0 <= i < checks.len() ==> rows_checks(checks)[i] == row_check(
            checks[i]->Ok_0.0,
            checks[i]->Ok_0.1@,
        ),
        0 <= i < stats.len() ==> rows_stats(stats)[i] == row_stats(stats[i]->Ok_0),
        0 <= i < probes.len() ==> probe_rows(probes)[i].0 == probes[i]->Ok_0.0@,
        0 <= i < probes.len() ==> probe_rows(probes)[i].1 == probes[i]->Ok_0.1,
        0 <= i < probes.len() ==> (probe_rows(probes)[i].2 <==> probes[i]->Ok_0.2 != 0),
{
}

/// The first row that could not be read is the one that is reported.
pub proof fn law_first_unreadable_row_is_reported<T>(rows: Seq<Result<T, String>>, k: int)
    requires
        0 <= k < rows.len(),
        rows[k] is Err,
        forall|i: int| 0 <= i < k ==> (#[trigger] rows[i]) is Ok,
    ensures
        first_unread(rows) == Some(rows[k]->Err_0@),
    decreases rows.len(),
{
    let rest = rows.drop_last();
    if k < rest.len() {
        assert(rest[k] == rows[k]);
        law_first_unreadable_row_is_reported(rest, k);
    } else {
        crate::db::lemma_all_read(rest);
        assert forall|i: int| 0 <= i < rest.len() implies (#[trigger] rest[i]) is Ok by {
            assert(rest[i] == rows[i]);
        }
    }
}

/// A query asks for what its statement says: a statement with a time asks from
/// that time on, one with a target for that target, and none for more rows than
/// its limit.
pub proof fn law_plan_asks_for_what_it_says(plan: HistoryPlan)
    ensures
        match plan {
            HistoryPlan::SinceTarget { since, target, limit } => {
                &&& plan@.since == Some(since)
                &&& plan@.target == Some(target@)
                &&& plan@.limit == limit
            },
            HistoryPlan::Since { since, limit } => {
                &&& plan@.since == Some(since)
                &&& plan@.target is None
                &&& plan@.limit == limit
            },
            HistoryPlan::Target { target, limit } => {
                &&& plan@.since is None
                &&& plan@.target == Some(target@)
                &&& plan@.limit == limit
            },
            HistoryPlan::All { limit } => {
                &&& plan@.since is None
                &&& plan@.target is None
                &&& plan@.limit == limit
            },
        },
{
}

/// A query keeps every filter that it is given, and asks for as many rows as its
/// limit says.
pub proof fn law_query_keeps_its_filters(
    since: Option<i64>,
    target: Option<Seq<char>>,
    limit: usize,
    from: i64,
)
    requires
        limit <= 10_000,
    ensures
        planned(since, target, limit).since == since,
        planned(since, target, limit).target == target,
        planned(since, target, limit).limit == limit,
        outages_planned(from, limit).0 == from,
        outages_planned(from, limit).1 == limit,
{
}

// ---------------------------------------------------------------------------
// Statistics
// ---------------------------------------------------------------------------

/// A target is up where its latest probe succeeded, down where it failed, and
/// neither where there is none. Nothing but that probe decides.
pub proof fn law_latest_probe_decides(row: StatsRow, other: StatsRow)
    ensures
        row_stats(row).currently_up == Some(true) <==> row.latest_success is Some
            && row.latest_success->0 != 0,
        row_stats(row).currently_up == Some(false) <==> row.latest_success == Some(0i64),
        row_stats(row).currently_up is None <==> row.latest_success is None,
        row.latest_success == other.latest_success ==> row_stats(row).currently_up == row_stats(
            other,
        ).currently_up,
{
}

/// The number of successes that a row counts; none where it counts none.
pub open spec fn successes(row: StatsRow) -> int {
    match row.success {
        Some(n) => n as int,
        None => 0,
    }
}

/// The statistics of a target count its probes: all of them, those that
/// succeeded, and the rest as failed. Loss is the part of them that failed and
/// uptime the part that did not; without probes nothing was lost.
pub proof fn law_statistics_count_probes(row: StatsRow)
    ensures
        ({
            let s = row_stats(row);
            &&& s.target == stored_name(row.target@)
            &&& s.total == row.total
            &&& s.success == successes(row)
            &&& successes(row) <= row.total ==> s.failed == row.total - successes(row)
            &&& successes(row) > row.total ==> s.failed == 0
            &&& row.total > 0 ==> s.loss == (s.failed, row.total as int)
            &&& row.total > 0 ==> s.uptime == (row.total - s.failed, row.total as int)
            &&& row.total <= 0 ==> s.loss == (0int, 1int) && s.uptime == (1int, 1int)
        }),
{
}

/// The average latency is the one that was stored, and the last success and the
/// last failure are those of their own columns.
pub proof fn law_statistics_keep_their_columns(row: StatsRow)
    ensures
        ({
            let s = row_stats(row);
            &&& s.avg_latency_bits == row.avg_latency_bits
            &&& s.last_success == (match row.last_ok {
                Some(t) => Some(date(time(t))),
                None => None,
            })
            &&& s.last_failure == (match row.last_fail {
                Some(t) => Some(date(time(t))),
                None => None,
            })
        }),
{
}

} // verus!
