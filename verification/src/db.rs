//! Checks as the database stores them: what is written for a probe, what is read
//! back, which rows a query asks for, and what its rows add up to. Running the
//! statements is left to the caller; a row that could not be read comes with the
//! database's own message.

use vstd::prelude::*;

pub use crate::outages::{group_outages, Outage};

use crate::domain::{
    clamped, date_secs, failed_count, failures, is_name, is_outcome, law_outcome_round_trip,
    loss_pct, outcome_row, row_outcome, string_of, uptime_pct, CompactError, DbPath, HistoryLimit,
    OutcomeData, ProbeOutcome, Share, TargetName, UnixSecs, UtcDateTime,
};
use crate::error::StoreError;
use crate::outages::{
    all_outages, is_newest_first, lemma_stored_name, outages_data, stored_name, stored_target,
    RowData,
};
use crate::text::is_white_space;

verus! {

// ---------------------------------------------------------------------------
// Store
// ---------------------------------------------------------------------------

/// The database of checks, known by its path.
#[derive(Debug)]
pub struct Store {
    db_path: DbPath,
}

impl View for Store {
    type V = Seq<char>;

    /// The path of the database.
    closed spec fn view(&self) -> Seq<char> {
        self.db_path@
    }
}

impl Store {
    /// The store at `db_path`.
    pub fn new(db_path: DbPath) -> (r: Self)
        ensures
            r@ == db_path@,
    {
        Store { db_path }
    }

    /// The path of the database.
    pub fn db_path(&self) -> (r: &DbPath)
        ensures
            r@ == self@,
    {
        &self.db_path
    }
}

impl Clone for Store {
    fn clone(&self) -> (r: Self)
        ensures
            r == *self,
    {
        Store { db_path: self.db_path.clone() }
    }
}

// ---------------------------------------------------------------------------
// Check
// ---------------------------------------------------------------------------

/// One probe of one target, as it is stored.
#[derive(Debug)]
pub struct Check {
    pub id: i64,
    pub ts: UnixSecs,
    pub timestamp: UtcDateTime,
    pub target: TargetName,
    pub outcome: ProbeOutcome,
}

/// What a [`Check`] says, over plain values.
pub struct CheckData {
    pub id: i64,
    pub ts: i64,
    pub timestamp: i64,
    pub target: Seq<char>,
    pub outcome: OutcomeData,
}

impl View for Check {
    type V = CheckData;

    open spec fn view(&self) -> CheckData {
        CheckData {
            id: self.id,
            ts: self.ts@,
            timestamp: self.timestamp@,
            target: self.target@,
            outcome: self.outcome@,
        }
    }
}

/// What each check of a sequence says.
pub open spec fn checks_data(s: Seq<Check>) -> Seq<CheckData> {
    Seq::new(s.len(), |i: int| s[i]@)
}

/// The check `id` of `target` at `ts`.
pub open spec fn check_data(
    id: i64,
    ts: i64,
    target: Seq<char>,
    outcome: OutcomeData,
) -> CheckData {
    CheckData { id, ts, timestamp: date_secs(ts), target, outcome }
}

impl Check {
    /// The check `id` of `target` at `ts`.
    pub fn new(id: i64, ts: UnixSecs, target: TargetName, outcome: ProbeOutcome) -> (r: Self)
        ensures
            r@ == check_data(id, ts@, target@, outcome@),
    {
        Check { id, ts, timestamp: ts.as_datetime(), target, outcome }
    }

    /// Did the target answer?
    pub fn success(&self) -> (r: bool)
        ensures
            r == (self@.outcome is Success),
    {
        self.outcome.is_success()
    }

    /// The latency of a success, in milliseconds.
    pub fn latency_ms(&self) -> (r: Option<i64>)
        ensures
            r == outcome_row(self@.outcome).1,
    {
        match self.outcome.latency() {
            Some(l) => Some(l.as_i64()),
            None => None,
        }
    }

    /// The error of a failure.
    pub fn error(&self) -> (r: Option<String>)
        ensures
            string_of(r) == outcome_row(self@.outcome).2,
    {
        match self.outcome.error() {
            Some(e) => Some(e.to_string()),
            None => None,
        }
    }
}

impl Clone for Check {
    fn clone(&self) -> (r: Self)
        ensures
            r == *self,
    {
        Check {
            id: self.id,
            ts: self.ts,
            timestamp: self.timestamp,
            target: self.target.clone(),
            outcome: self.outcome.clone(),
        }
    }
}

// ---------------------------------------------------------------------------
// Rows of checks
// ---------------------------------------------------------------------------

/// The columns of a check, without the number that the database gives it.
#[derive(Debug, PartialEq, Eq)]
pub struct CheckColumns {
    pub ts: i64,
    pub target: String,
    pub success: i64,
    pub latency_ms: Option<i64>,
    pub error: Option<String>,
}

/// What [`CheckColumns`] hold, over plain values.
pub struct ColumnsData {
    pub ts: i64,
    pub target: Seq<char>,
    pub success: i64,
    pub latency_ms: Option<i64>,
    pub error: Option<Seq<char>>,
}

impl View for CheckColumns {
    type V = ColumnsData;

    open spec fn view(&self) -> ColumnsData {
        ColumnsData {
            ts: self.ts,
            target: self.target@,
            success: self.success,
            latency_ms: self.latency_ms,
            error: string_of(self.error),
        }
    }
}

/// The columns in which a probe is stored.
pub open spec fn columns_of(ts: i64, target: Seq<char>, outcome: OutcomeData) -> ColumnsData {
    let (success, latency_ms, error) = outcome_row(outcome);
    ColumnsData { ts, target, success, latency_ms, error }
}

/// The outcome that a row stands for: what its columns say, or a failure where
/// they contradict each other.
pub open spec fn stored_outcome(c: ColumnsData) -> OutcomeData {
    match row_outcome(c.success != 0, c.latency_ms, c.error) {
        Ok(o) => o,
        Err(_) => OutcomeData::Failure { error: "inconsistent row"@ },
    }
}

/// The check that row `id` with these columns stands for.
pub open spec fn row_check(id: i64, c: ColumnsData) -> CheckData {
    check_data(id, clamped(c.ts), stored_name(c.target), stored_outcome(c))
}

/// The columns to store for a probe.
pub fn insert_columns(ts: UnixSecs, target: &TargetName, outcome: &ProbeOutcome) -> (r:
    CheckColumns)
    ensures
        r@ == columns_of(ts@, target@, outcome@),
{
    let (success, latency_ms, error) = outcome.as_row();
    CheckColumns {
        ts: ts.as_i64(),
        target: target.to_string(),
        success,
        latency_ms,
        error: match error {
            Some(e) => Some(e.to_string()),
            None => None,
        },
    }
}

proof fn lemma_inconsistent_row_is_compact()
    ensures
        crate::domain::compacted("inconsistent row"@) == "inconsistent row"@,
{
    reveal_strlit("inconsistent row");
    crate::domain::law_compacting_is_stable("inconsistent row"@);
}

/// The check that a stored row stands for. No row is refused: a name that is none
/// reads as `unknown`, a negative time as zero, and columns that contradict each
/// other as a failure.
pub fn row_to_check(id: i64, c: CheckColumns) -> (r: Check)
    ensures
        r@ == row_check(id, c@),
{
    let target = stored_target(c.target.as_str());
    let outcome = match ProbeOutcome::from_row(c.success != 0, c.latency_ms, c.error) {
        Ok(o) => o,
        Err(_) => {
            proof {
                lemma_inconsistent_row_is_compact();
            }
            ProbeOutcome::failure(CompactError::new("inconsistent row"))
        },
    };
    Check::new(id, UnixSecs::new(c.ts), target, outcome)
}

// ---------------------------------------------------------------------------
// Reading rows
// ---------------------------------------------------------------------------

/// The message of the first row that could not be read.
pub open spec fn first_unread<T>(rows: Seq<Result<T, String>>) -> Option<Seq<char>>
    decreases rows.len(),
{
    if rows.len() == 0 {
        None
    } else {
        match first_unread(rows.drop_last()) {
            Some(m) => Some(m),
            None => match rows.last() {
                Ok(_) => None,
                Err(m) => Some(m@),
            },
        }
    }
}

/// The values of rows that could all be read.
pub open spec fn row_values<T>(rows: Seq<Result<T, String>>) -> Seq<T> {
    Seq::new(rows.len(), |i: int| rows[i]->Ok_0)
}

proof fn lemma_unread_in_prefix<T>(rows: Seq<Result<T, String>>, k: int)
    requires
        0 <= k <= rows.len(),
        first_unread(rows.take(k)) is Some,
    ensures
        first_unread(rows) == first_unread(rows.take(k)),
    decreases rows.len(),
{
    if k < rows.len() {
        assert(rows.drop_last().take(k) =~= rows.take(k));
        lemma_unread_in_prefix(rows.drop_last(), k);
    } else {
        assert(rows.take(k) =~= rows);
    }
}

/// The values of the rows, or the message of the first that could not be read.
fn read_all<T>(rows: Vec<Result<T, String>>) -> (r: Result<Vec<T>, StoreError>)
    ensures
        match r {
            Ok(v) => first_unread(rows@) is None && v@ == row_values(rows@),
            Err(e) => e is Sqlite && first_unread(rows@) == Some(e->Sqlite_0@),
        },
{
    let ghost all = rows@;
    let mut out: Vec<T> = Vec::new();
    assert(all.take(0) =~= Seq::empty());
    for row in it: rows
        invariant
            it.seq() == all,
            first_unread(all.take(it.index() as int)) is None,
            out@ == row_values(all).take(it.index() as int),
    {
        let ghost n = it.index() as int;
        assert(all.take(n + 1).drop_last() =~= all.take(n));
        assert(all.take(n + 1).last() == row);
        match row {
            Ok(v) => {
                out.push(v);
                assert(out@ =~= row_values(all).take(n + 1));
            },
            Err(m) => {
                proof {
                    lemma_unread_in_prefix(all, n + 1);
                }
                return Err(StoreError::Sqlite(m));
            },
        }
    }
    assert(all.take(all.len() as int) =~= all);
    assert(row_values(all).take(all.len() as int) =~= row_values(all));
    Ok(out)
}

/// What rows of checks that could all be read stand for, in order.
pub open spec fn rows_checks(rows: Seq<Result<(i64, CheckColumns), String>>) -> Seq<CheckData> {
    Seq::new(rows.len(), |i: int| row_check(rows[i]->Ok_0.0, rows[i]->Ok_0.1@))
}

/// The checks that stored rows stand for, in order, unless one could not be read.
pub fn read_checks(rows: Vec<Result<(i64, CheckColumns), String>>) -> (r: Result<
    Vec<Check>,
    StoreError,
>)
    ensures
        match r {
            Ok(v) => first_unread(rows@) is None && checks_data(v@) == rows_checks(rows@),
            Err(e) => e is Sqlite && first_unread(rows@) == Some(e->Sqlite_0@),
        },
{
    let ghost all = rows@;
    let values = match read_all(rows) {
        Ok(v) => v,
        Err(e) => {
            return Err(e);
        },
    };
    let mut out: Vec<Check> = Vec::new();
    for row in it: values
        invariant
            it.seq() == row_values(all),
            checks_data(out@) == rows_checks(all).take(it.index() as int),
    {
        let ghost before = checks_data(out@);
        let ghost n = it.index() as int;
        assert(row == row_values(all)[n]);
        let (id, c) = row;
        let check = row_to_check(id, c);
        assert(check@ == rows_checks(all)[n]);
        out.push(check);
        assert(checks_data(out@) =~= before.push(check@));
        assert(checks_data(out@) =~= rows_checks(all).take(n + 1));
    }
    assert(rows_checks(all).take(all.len() as int) =~= rows_checks(all));
    Ok(out)
}

// ---------------------------------------------------------------------------
// Queries
// ---------------------------------------------------------------------------

/// The most checks that a history query returns.
pub const MAX_HISTORY_ROWS: usize = 10_000;

/// The most rows that outages are grouped from.
pub const MAX_OUTAGE_ROWS: usize = 20_000;

/// Which checks a history query asks for, newest first: those no older than
/// `since`, those of `target`, and no more than `limit`.
#[derive(Debug, PartialEq, Eq)]
pub enum HistoryPlan {
    /// Restricted in time and to one target.
    SinceTarget { since: i64, target: String, limit: i64 },
    /// Restricted in time.
    Since { since: i64, limit: i64 },
    /// Restricted to one target.
    Target { target: String, limit: i64 },
    /// Not restricted.
    All { limit: i64 },
}

/// What a query asks for, over plain values: the oldest time, the target and the
/// number of rows.
pub struct PlanData {
    pub since: Option<i64>,
    pub target: Option<Seq<char>>,
    pub limit: i64,
}

impl View for HistoryPlan {
    type V = PlanData;

    open spec fn view(&self) -> PlanData {
        match *self {
            HistoryPlan::SinceTarget { since, target, limit } => PlanData {
                since: Some(since),
                target: Some(target@),
                limit,
            },
            HistoryPlan::Since { since, limit } => PlanData {
                since: Some(since),
                target: None,
                limit,
            },
            HistoryPlan::Target { target, limit } => PlanData {
                since: None,
                target: Some(target@),
                limit,
            },
            HistoryPlan::All { limit } => PlanData { since: None, target: None, limit },
        }
    }
}

/// The timestamp, where there is one.
pub open spec fn time_of(t: Option<UnixSecs>) -> Option<i64> {
    match t {
        Some(t) => Some(t@),
        None => None,
    }
}

/// The name, where there is one.
pub open spec fn name_of(t: Option<TargetName>) -> Option<Seq<char>> {
    match t {
        Some(t) => Some(t@),
        None => None,
    }
}

/// What a history query asks for, given the oldest time, the target and the
/// limit.
pub open spec fn planned(since: Option<i64>, target: Option<Seq<char>>, limit: usize) -> PlanData {
    PlanData { since, target, limit: limit as i64 }
}

/// Which checks a history query asks for.
pub fn history_plan(
    since: Option<UnixSecs>,
    target: &Option<TargetName>,
    limit: HistoryLimit,
) -> (r: HistoryPlan)
    ensures
        r@ == (PlanData {
            since: time_of(since),
            target: name_of(*target),
            limit: limit@ as i64,
        }),
        r@ == planned(time_of(since), name_of(*target), limit@),
        1 <= r@.limit <= MAX_HISTORY_ROWS,
{
    let n: usize = limit.get();
    let limit: i64 = if n > MAX_HISTORY_ROWS {
        MAX_HISTORY_ROWS as i64
    } else {
        n as i64
    };
    match since {
        Some(s) => match target {
            Some(t) => HistoryPlan::SinceTarget {
                since: s.as_i64(),
                target: t.to_string(),
                limit,
            },
            None => HistoryPlan::Since { since: s.as_i64(), limit },
        },
        None => match target {
            Some(t) => HistoryPlan::Target { target: t.to_string(), limit },
            None => HistoryPlan::All { limit },
        },
    }
}

/// Which rows outages are grouped from, given the oldest time and the limit.
pub open spec fn outages_planned(since: i64, limit: usize) -> (i64, i64) {
    (since, limit as i64)
}

/// Which rows outages are grouped from: the oldest time, and how many at most.
pub fn outages_plan(since: UnixSecs, limit: HistoryLimit) -> (r: (i64, i64))
    ensures
        r == (since@, limit@ as i64),
        r == outages_planned(since@, limit@),
        1 <= r.1 <= MAX_OUTAGE_ROWS,
{
    let n: usize = limit.get();
    let rows: i64 = if n > MAX_OUTAGE_ROWS {
        MAX_OUTAGE_ROWS as i64
    } else {
        n as i64
    };
    (since.as_i64(), rows)
}

// ---------------------------------------------------------------------------
// Outages
// ---------------------------------------------------------------------------

/// Rows of target name, timestamp and success (any number but zero), as they
/// are grouped.
pub open spec fn probe_rows(rows: Seq<Result<(String, i64, i64), String>>) -> Seq<RowData> {
    Seq::new(rows.len(), |i: int| (rows[i]->Ok_0.0@, rows[i]->Ok_0.1, rows[i]->Ok_0.2 != 0))
}

/// The outages in stored rows, newest first, unless a row could not be read. The
/// rows come sorted by target and then by time.
pub fn read_outages(rows: Vec<Result<(String, i64, i64), String>>) -> (r: Result<
    Vec<Outage>,
    StoreError,
>)
    requires
        rows@.len() <= i64::MAX,
    ensures
        match r {
            Ok(v) => {
                &&& first_unread(rows@) is None
                &&& is_newest_first(outages_data(v@), all_outages(probe_rows(rows@)))
                &&& outages_data(v@).to_multiset() == all_outages(
                    probe_rows(rows@),
                ).to_multiset()
            },
            Err(e) => e is Sqlite && first_unread(rows@) == Some(e->Sqlite_0@),
        },
{
    let ghost all = rows@;
    let values = match read_all(rows) {
        Ok(v) => v,
        Err(e) => {
            return Err(e);
        },
    };
    let mut probes: Vec<(String, i64, bool)> = Vec::new();
    for row in it: values
        invariant
            it.seq() == row_values(all),
            crate::outages::rows_data(probes@) == probe_rows(all).take(it.index() as int),
    {
        let ghost before = crate::outages::rows_data(probes@);
        let ghost n = it.index() as int;
        assert(row == row_values(all)[n]);
        let (target, ts, success) = row;
        probes.push((target, ts, success != 0));
        assert(crate::outages::rows_data(probes@) =~= before.push(probe_rows(all)[n]));
        assert(crate::outages::rows_data(probes@) =~= probe_rows(all).take(n + 1));
    }
    assert(probe_rows(all).take(all.len() as int) =~= probe_rows(all));
    Ok(group_outages(probes.as_slice()))
}

// ---------------------------------------------------------------------------
// Statistics
// ---------------------------------------------------------------------------

/// The aggregates of one target, as the database gives them: the number of
/// probes, how many succeeded, the bit pattern of the average latency (a
/// double-precision number of milliseconds), the times of the last success and
/// of the last failure, and the success column of its latest probe.
#[derive(Debug, PartialEq, Eq)]
pub struct StatsRow {
    pub target: String,
    pub total: i64,
    pub success: Option<i64>,
    pub avg_latency_bits: Option<u64>,
    pub last_ok: Option<i64>,
    pub last_fail: Option<i64>,
    pub latest_success: Option<i64>,
}

/// The statistics of one target.
#[derive(Debug)]
pub struct TargetStats {
    pub target: TargetName,
    pub total: i64,
    pub success: i64,
    pub failed: i64,
    pub loss_pct: Share,
    pub uptime_pct: Share,
    pub avg_latency_bits: Option<u64>,
    pub last_success: Option<UtcDateTime>,
    pub last_failure: Option<UtcDateTime>,
    pub currently_up: Option<bool>,
}

impl Clone for TargetStats {
    fn clone(&self) -> (r: Self)
        ensures
            r == *self,
    {
        TargetStats {
            target: self.target.clone(),
            total: self.total,
            success: self.success,
            failed: self.failed,
            loss_pct: self.loss_pct,
            uptime_pct: self.uptime_pct,
            avg_latency_bits: self.avg_latency_bits,
            last_success: self.last_success,
            last_failure: self.last_failure,
            currently_up: self.currently_up,
        }
    }
}

/// What [`TargetStats`] say, over plain values. The packet loss and the uptime
/// are shares, each a part and a whole.
pub struct StatsData {
    pub target: Seq<char>,
    pub total: i64,
    pub success: i64,
    pub failed: int,
    pub loss: (int, int),
    pub uptime: (int, int),
    pub avg_latency_bits: Option<u64>,
    pub last_success: Option<i64>,
    pub last_failure: Option<i64>,
    pub currently_up: Option<bool>,
}

impl View for TargetStats {
    type V = StatsData;

    open spec fn view(&self) -> StatsData {
        StatsData {
            target: self.target@,
            total: self.total,
            success: self.success,
            failed: self.failed as int,
            loss: (self.loss_pct.part as int, self.loss_pct.total as int),
            uptime: (self.uptime_pct.part as int, self.uptime_pct.total as int),
            avg_latency_bits: self.avg_latency_bits,
            last_success: match self.last_success {
                Some(t) => Some(t@),
                None => None,
            },
            last_failure: match self.last_failure {
                Some(t) => Some(t@),
                None => None,
            },
            currently_up: self.currently_up,
        }
    }
}

/// What each of a sequence of statistics says.
pub open spec fn stats_data(s: Seq<TargetStats>) -> Seq<StatsData> {
    Seq::new(s.len(), |i: int| s[i]@)
}

/// The number of successes in a row; a missing sum counts as zero.
pub open spec fn row_success(row: StatsRow) -> i64 {
    match row.success {
        Some(n) => n,
        None => 0,
    }
}

/// Can the number of failures in a row be held?
pub open spec fn countable(row: StatsRow) -> bool {
    i64::MIN <= row.total - row_success(row) <= i64::MAX
}

/// The date and time of a stored timestamp, by its own timestamp.
pub open spec fn stored_date(ts: Option<i64>) -> Option<i64> {
    match ts {
        Some(t) => Some(date_secs(clamped(t))),
        None => None,
    }
}

/// The statistics that a row of aggregates stands for. Without probes there is
/// no loss: none of one, and the uptime is one of one.
pub open spec fn row_stats(row: StatsRow) -> StatsData {
    let success = row_success(row);
    let failed = failures(row.total, success);
    StatsData {
        target: stored_name(row.target@),
        total: row.total,
        success,
        failed,
        loss: if row.total > 0 {
            (failed, row.total as int)
        } else {
            (0, 1)
        },
        uptime: if row.total > 0 {
            (row.total - failed, row.total as int)
        } else {
            (1, 1)
        },
        avg_latency_bits: row.avg_latency_bits,
        last_success: stored_date(row.last_ok),
        last_failure: stored_date(row.last_fail),
        currently_up: match row.latest_success {
            Some(s) => Some(s != 0),
            None => None,
        },
    }
}

/// The date and time of a stored timestamp.
fn date_of(ts: Option<i64>) -> (r: Option<UtcDateTime>)
    ensures
        stored_date(ts) == (match r {
            Some(t) => Some(t@),
            None => None,
        }),
{
    match ts {
        Some(t) => Some(UnixSecs::new(t).as_datetime()),
        None => None,
    }
}

/// The statistics that a row of aggregates stands for.
pub fn target_stats(row: &StatsRow) -> (r: TargetStats)
    requires
        countable(*row),
    ensures
        r@ == row_stats(*row),
{
    let success: i64 = match row.success {
        Some(n) => n,
        None => 0,
    };
    let loss: Share = loss_pct(row.total, success);
    TargetStats {
        target: stored_target(row.target.as_str()),
        total: row.total,
        success,
        failed: failed_count(row.total, success),
        loss_pct: loss,
        uptime_pct: uptime_pct(loss),
        avg_latency_bits: row.avg_latency_bits,
        last_success: date_of(row.last_ok),
        last_failure: date_of(row.last_fail),
        currently_up: match row.latest_success {
            Some(s) => Some(s != 0),
            None => None,
        },
    }
}

/// The statistics that rows of aggregates stand for, in order.
pub open spec fn rows_stats(rows: Seq<Result<StatsRow, String>>) -> Seq<StatsData> {
    Seq::new(rows.len(), |i: int| row_stats(rows[i]->Ok_0))
}

/// The statistics that rows of aggregates stand for, in order, unless a row
/// could not be read.
pub fn read_stats(rows: Vec<Result<StatsRow, String>>) -> (r: Result<
    Vec<TargetStats>,
    StoreError,
>)
    requires
        forall|i: int|
            0 <= i < rows@.len() && #[trigger] rows@[i] is Ok ==> countable(rows@[i]->Ok_0),
    ensures
        match r {
            Ok(v) => first_unread(rows@) is None && stats_data(v@) == rows_stats(rows@),
            Err(e) => e is Sqlite && first_unread(rows@) == Some(e->Sqlite_0@),
        },
{
    let ghost all = rows@;
    let values = match read_all(rows) {
        Ok(v) => v,
        Err(e) => {
            return Err(e);
        },
    };
    proof {
        lemma_all_read(all);
    }
    let mut out: Vec<TargetStats> = Vec::new();
    for row in it: values
        invariant
            it.seq() == row_values(all),
            forall|i: int|
                0 <= i < all.len() ==> (#[trigger] all[i]) is Ok && countable(all[i]->Ok_0),
            stats_data(out@) == rows_stats(all).take(it.index() as int),
    {
        let ghost before = stats_data(out@);
        let ghost n = it.index() as int;
        assert(row == row_values(all)[n]);
        assert(countable(all[n]->Ok_0));
        let stats = target_stats(&row);
        out.push(stats);
        assert(stats_data(out@) =~= before.push(rows_stats(all)[n]));
        assert(stats_data(out@) =~= rows_stats(all).take(n + 1));
    }
    assert(rows_stats(all).take(all.len() as int) =~= rows_stats(all));
    Ok(out)
}

/// There is no first row that could not be read exactly where all could be.
pub proof fn lemma_all_read<T>(rows: Seq<Result<T, String>>)
    ensures
        first_unread(rows) is None <==> forall|i: int|
            0 <= i < rows.len() ==> (#[trigger] rows[i]) is Ok,
    decreases rows.len(),
{
    if rows.len() > 0 {
        let rest = rows.drop_last();
        lemma_all_read(rest);
        if first_unread(rows) is None {
            assert forall|i: int| 0 <= i < rows.len() implies (#[trigger] rows[i]) is Ok by {
                if i < rest.len() {
                    assert(rest[i] == rows[i]);
                }
            }
        } else if forall|i: int| 0 <= i < rows.len() ==> (#[trigger] rows[i]) is Ok {
            assert forall|i: int| 0 <= i < rest.len() implies (#[trigger] rest[i]) is Ok by {
                assert(rest[i] == rows[i]);
            }
            assert(rows[rows.len() - 1] is Ok);
        }
    }
}

// ---------------------------------------------------------------------------
// Laws
// ---------------------------------------------------------------------------

/// What is written is read back: the row stored for a probe stands for that very
/// probe, under the number that the database gave it. (A failure text that ends
/// in white space loses it.)
pub proof fn law_written_is_read_back(id: i64, ts: i64, target: Seq<char>, outcome: OutcomeData)
    requires
        0 <= ts,
        is_name(target),
        is_outcome(outcome),
        outcome matches OutcomeData::Failure { error } ==> !is_white_space(error.last()),
    ensures
        row_check(id, columns_of(ts, target, outcome)) == check_data(id, ts, target, outcome),
{
    lemma_stored_name(target);
    law_outcome_round_trip(outcome);
}

/// Whether a probe succeeded, when and of which target is read back as it was
/// written, whatever the failure text.
pub proof fn law_success_is_read_back(id: i64, ts: i64, target: Seq<char>, outcome: OutcomeData)
    requires
        0 <= ts,
        is_name(target),
        is_outcome(outcome),
    ensures
        ({
            let read = row_check(id, columns_of(ts, target, outcome));
            &&& read.ts == ts
            &&& read.target == target
            &&& read.outcome is Success <==> outcome is Success
            &&& outcome is Success ==> read.outcome == outcome
        }),
{
    lemma_stored_name(target);
}

/// No row is too corrupt to be read: whatever it holds, the check it stands for
/// has a valid name, a time that is not negative and a valid outcome, and a
/// success only where the columns say so.
pub proof fn law_any_row_gives_a_valid_check(id: i64, c: ColumnsData)
    ensures
        ({
            let check = row_check(id, c);
            &&& is_name(check.target)
            &&& 0 <= check.ts
            &&& is_outcome(check.outcome)
            &&& check.outcome is Success ==> c.success != 0 && c.error is None
        }),
{
    lemma_stored_name(c.target);
    crate::domain::law_row_success_is_kept(c.success != 0, c.latency_ms, c.error);
    lemma_inconsistent_row_is_compact();
    crate::domain::lemma_compacted("inconsistent row"@);
}

/// Packet loss is a share between none and all, where no more probes succeeded
/// than there were and no number is negative; what did not succeed failed.
pub proof fn law_loss_is_a_share(row: StatsRow)
    requires
        0 <= row_success(row) <= row.total,
    ensures
        ({
            let s = row_stats(row);
            &&& 0 <= s.loss.0 <= s.loss.1
            &&& 0 <= s.uptime.0 <= s.uptime.1
            &&& s.uptime.0 == if s.total > 0 {
                s.success as int
            } else {
                1
            }
            &&& s.failed + s.success == s.total
        }),
{
}

/// Uptime is what is left of packet loss: as shares of one whole the two make it
/// up, even where the counts contradict each other.
pub proof fn law_uptime_is_the_rest(row: StatsRow)
    ensures
        ({
            let s = row_stats(row);
            &&& 0 < s.loss.1
            &&& s.uptime.1 == s.loss.1
            &&& s.loss.0 + s.uptime.0 == s.loss.1
        }),
{
}

/// Packet loss is never negative, even where the counts contradict each other.
pub proof fn law_loss_is_not_negative(row: StatsRow)
    ensures
        0 <= row_stats(row).loss.0,
        0 <= row_stats(row).failed,
        row.total <= row_success(row) ==> row_stats(row).loss.0 == 0,
{
}

} // verus!
