//! The HTTP interface: what a request asks of the store, and what it is
//! answered. Receiving requests and sending answers is left to the caller.

use std::sync::Arc;

use vstd::prelude::*;

use crate::config::Config;
use crate::db::{
    checks_data, history_plan, outages_plan, Check, CheckData, HistoryPlan, PlanData, Store,
};
use crate::domain::{
    clone_slice, limit_fault, name_fault, targets_data, HistoryLimit, MonitorTarget, TargetName,
    UnixSecs,
};
use crate::error::{domain_message, DomainError, DomainFault, StoreError};
use crate::lookback::{in_bounds, lookback_fault, looked_back, Double, LookbackHours};
use crate::text::{text_of, trimmed};

verus! {

/// What the request handlers share.
#[derive(Clone)]
pub struct AppState {
    pub cfg: Arc<Config>,
    pub store: Store,
}

// ---------------------------------------------------------------------------
// Answers
// ---------------------------------------------------------------------------

/// The HTTP status of an answer that holds what was asked for.
pub const STATUS_OK: u16 = 200;

/// The HTTP status for a query with a parameter out of range.
pub const STATUS_UNPROCESSABLE: u16 = 422;

/// The HTTP status for a failure of the store.
pub const STATUS_INTERNAL_ERROR: u16 = 500;

/// Why a request could not be answered.
#[derive(Debug)]
pub enum ApiError {
    /// The store failed.
    Store(StoreError),
}

impl From<StoreError> for ApiError {
    fn from(e: StoreError) -> (r: ApiError) {
        ApiError::Store(e)
    }
}

impl vstd::std_specs::convert::FromSpecImpl<StoreError> for ApiError {
    open spec fn obeys_from_spec() -> bool {
        true
    }

    open spec fn from_spec(e: StoreError) -> ApiError {
        ApiError::Store(e)
    }
}

/// The status and the body with which a failure is answered.
pub open spec fn failure_answer(e: ApiError) -> (u16, Seq<char>) {
    match e {
        ApiError::Store(e) => (STATUS_INTERNAL_ERROR, e.message()),
    }
}

impl ApiError {
    /// The status and the body of the answer.
    pub fn into_response(self) -> (r: (u16, String))
        ensures
            (r.0, r.1@) == failure_answer(self),
    {
        match self {
            ApiError::Store(e) => (STATUS_INTERNAL_ERROR, e.to_string()),
        }
    }
}

/// The status with which the result of a handler is answered.
pub open spec fn answer_status<T>(r: Result<T, ApiError>) -> u16 {
    match r {
        Ok(_) => STATUS_OK,
        Err(e) => failure_answer(e).0,
    }
}

/// The result of a query of the store, as the result of a handler.
pub open spec fn handled<T>(r: Result<T, StoreError>) -> Result<T, ApiError> {
    match r {
        Ok(v) => Ok(v),
        Err(e) => Err(ApiError::Store(e)),
    }
}

/// Hands on what the store gave, or its failure.
pub fn handle<T>(r: Result<T, StoreError>) -> (a: Result<T, ApiError>)
    ensures
        a == handled(r),
{
    match r {
        Ok(v) => Ok(v),
        Err(e) => Err(ApiError::from(e)),
    }
}

/// A failure of the store is never answered as a success: the answer has the
/// status for failures exactly where the store failed.
pub proof fn law_store_failure_is_answered<T>(r: Result<T, StoreError>)
    ensures
        answer_status(handled(r)) == STATUS_INTERNAL_ERROR <==> r is Err,
        answer_status(handled(r)) == STATUS_OK <==> r is Ok,
{
}

// ---------------------------------------------------------------------------
// Queries
// ---------------------------------------------------------------------------

/// The parameters of a history request.
#[derive(Debug)]
pub struct HistoryQuery {
    pub hours: Option<LookbackHours>,
    pub target: Option<TargetName>,
    pub limit: Option<HistoryLimit>,
}

/// The parameters of a statistics request.
#[derive(Debug)]
pub struct StatsQuery {
    pub hours: Option<LookbackHours>,
}

/// The parameters of an outages request.
#[derive(Debug)]
pub struct OutagesQuery {
    pub hours: Option<LookbackHours>,
}

/// Why a number of hours is refused; `None` where it is in bounds or absent.
pub open spec fn hours_fault(hours: Option<Double>) -> Option<DomainFault> {
    match hours {
        Some(h) => lookback_fault(h),
        None => None,
    }
}

/// Why the parameters of a history request are refused; `None` where each is
/// valid or absent. The hours are checked first, then the target, then the
/// limit.
pub open spec fn history_fault(
    hours: Option<Double>,
    target: Option<Seq<char>>,
    limit: Option<usize>,
) -> Option<DomainFault> {
    if hours_fault(hours) is Some {
        hours_fault(hours)
    } else if target is Some && name_fault(target->0) is Some {
        name_fault(target->0)
    } else if limit is Some {
        limit_fault(limit->0)
    } else {
        None
    }
}

/// Is `range` the range of `hours`, and absent where that is?
pub open spec fn is_range_of(range: Option<LookbackHours>, hours: Option<Double>) -> bool {
    match hours {
        Some(h) => range is Some && range->0@ == h.bits,
        None => range is None,
    }
}

/// Checks a number of hours, where there is one.
fn checked_hours(hours: Option<Double>) -> (r: Result<Option<LookbackHours>, DomainError>)
    ensures
        match r {
            Ok(range) => hours_fault(hours) is None && is_range_of(range, hours),
            Err(e) => hours_fault(hours) == Some(e@),
        },
{
    match hours {
        Some(h) => match LookbackHours::new(h) {
            Ok(range) => Ok(Some(range)),
            Err(e) => Err(e),
        },
        None => Ok(None),
    }
}

impl HistoryQuery {
    /// Checks the parameters of a history request.
    pub fn new(hours: Option<Double>, target: Option<&str>, limit: Option<usize>) -> (r: Result<
        Self,
        DomainError,
    >)
        ensures
            match r {
                Ok(q) => {
                    &&& history_fault(hours, text_of(target), limit) is None
                    &&& is_range_of(q.hours, hours)
                    &&& match target {
                        Some(t) => q.target is Some && q.target->0@ == trimmed(t@),
                        None => q.target is None,
                    }
                    &&& match limit {
                        Some(n) => q.limit is Some && q.limit->0@ == n,
                        None => q.limit is None,
                    }
                },
                Err(e) => history_fault(hours, text_of(target), limit) == Some(e@),
            },
    {
        let hours = match checked_hours(hours) {
            Ok(h) => h,
            Err(e) => {
                return Err(e);
            },
        };
        let target = match target {
            Some(t) => match TargetName::new(t) {
                Ok(n) => Some(n),
                Err(e) => {
                    return Err(e);
                },
            },
            None => None,
        };
        let limit = match limit {
            Some(n) => match HistoryLimit::new(n) {
                Ok(l) => Some(l),
                Err(e) => {
                    return Err(e);
                },
            },
            None => None,
        };
        Ok(HistoryQuery { hours, target, limit })
    }
}

impl StatsQuery {
    /// Checks the parameters of a statistics request.
    pub fn new(hours: Option<Double>) -> (r: Result<Self, DomainError>)
        ensures
            match r {
                Ok(q) => hours_fault(hours) is None && is_range_of(q.hours, hours),
                Err(e) => hours_fault(hours) == Some(e@),
            },
    {
        match checked_hours(hours) {
            Ok(hours) => Ok(StatsQuery { hours }),
            Err(e) => Err(e),
        }
    }
}

impl OutagesQuery {
    /// Checks the parameters of an outages request.
    pub fn new(hours: Option<Double>) -> (r: Result<Self, DomainError>)
        ensures
            match r {
                Ok(q) => hours_fault(hours) is None && is_range_of(q.hours, hours),
                Err(e) => hours_fault(hours) == Some(e@),
            },
    {
        match checked_hours(hours) {
            Ok(hours) => Ok(OutagesQuery { hours }),
            Err(e) => Err(e),
        }
    }
}

/// The status and the body with which a query is answered before any handler
/// runs, where it is refused.
pub open spec fn refusal(fault: Option<DomainFault>) -> Option<(u16, Seq<char>)> {
    match fault {
        Some(e) => Some((STATUS_UNPROCESSABLE, domain_message(e))),
        None => None,
    }
}

/// The status and the body with which a query is refused.
pub fn refuse(e: &DomainError) -> (r: (u16, String))
    ensures
        refusal(Some(e@)) == Some((r.0, r.1@)),
{
    (STATUS_UNPROCESSABLE, e.to_string())
}

/// A number of hours that is out of bounds is refused by every query that takes
/// one, and answered as such; so is a target that is no name, and a limit that is
/// out of range. Nothing else is refused.
pub proof fn law_invalid_query_is_refused(
    hours: Option<Double>,
    target: Option<Seq<char>>,
    limit: Option<usize>,
)
    ensures
        refusal(hours_fault(hours)) is Some <==> hours is Some && !in_bounds(hours->0.bits),
        refusal(history_fault(hours, target, limit)) is Some <==> {
            ||| hours is Some && !in_bounds(hours->0.bits)
            ||| target is Some && name_fault(target->0) is Some
            ||| limit is Some && limit_fault(limit->0) is Some
        },
        refusal(hours_fault(hours)) matches Some((status, _)) ==> status == STATUS_UNPROCESSABLE,
        refusal(history_fault(hours, target, limit)) matches Some((status, _)) ==> status
            == STATUS_UNPROCESSABLE,
{
}

// ---------------------------------------------------------------------------
// Handlers
// ---------------------------------------------------------------------------

/// The start of the range that ends at `now`; one day where no range is given.
pub open spec fn range_start(hours: Option<LookbackHours>, now: i64) -> int {
    match hours {
        Some(h) => looked_back(h@, now),
        None => looked_back(LookbackHours::DEFAULT_24H, now),
    }
}

/// The start of the range that ends at `now`; one day where no range is given.
fn start_of(hours: Option<LookbackHours>, now: UnixSecs) -> (r: UnixSecs)
    ensures
        r@ == range_start(hours, now@),
{
    match hours {
        Some(h) => h.since(now),
        None => LookbackHours::default_24h().since(now),
    }
}

/// The bit pattern of a range, where there is one.
pub open spec fn pattern_of(hours: Option<LookbackHours>) -> Option<u64> {
    match hours {
        Some(h) => Some(h@),
        None => None,
    }
}

/// The limit, where there is one.
pub open spec fn limit_of(limit: Option<HistoryLimit>) -> Option<usize> {
    match limit {
        Some(l) => Some(l@),
        None => None,
    }
}

/// What a history request asks for at `now`, given its range, its target and its
/// limit, and the limit for those that have none.
pub open spec fn history_asked(
    hours: Option<u64>,
    target: Option<Seq<char>>,
    limit: Option<usize>,
    usual_limit: usize,
    now: i64,
) -> PlanData {
    PlanData {
        since: match hours {
            Some(bits) => Some(looked_back(bits, now) as i64),
            None => None,
        },
        target,
        limit: match limit {
            Some(n) => n as i64,
            None => usual_limit as i64,
        },
    }
}

/// Which checks a history request asks for. Without a range none is too old;
/// without a limit the configured one holds.
pub fn get_history(s: &AppState, q: &HistoryQuery, now: UnixSecs) -> (r: HistoryPlan)
    ensures
        r@ == (PlanData {
            since: match q.hours {
                Some(h) => Some(looked_back(h@, now@) as i64),
                None => None,
            },
            target: crate::db::name_of(q.target),
            limit: match q.limit {
                Some(l) => l@ as i64,
                None => s.cfg@.limit as i64,
            },
        }),
        r@ == history_asked(
            pattern_of(q.hours),
            crate::db::name_of(q.target),
            limit_of(q.limit),
            s.cfg@.limit,
            now@,
        ),
        1 <= r@.limit <= crate::db::MAX_HISTORY_ROWS,
{
    let since = match q.hours {
        Some(h) => Some(h.since(now)),
        None => None,
    };
    let limit = match q.limit {
        Some(l) => l,
        None => s.cfg.history_limit,
    };
    history_plan(since, &q.target, limit)
}

/// The oldest time that a statistics request asks for.
pub fn get_stats(q: &StatsQuery, now: UnixSecs) -> (r: UnixSecs)
    ensures
        r@ == range_start(q.hours, now@),
{
    start_of(q.hours, now)
}

/// Which rows an outages request asks for: the oldest time, and how many at most.
pub fn get_outages(s: &AppState, q: &OutagesQuery, now: UnixSecs) -> (r: (i64, i64))
    ensures
        r == (range_start(q.hours, now@) as i64, s.cfg@.limit as i64),
        r == crate::db::outages_planned(range_start(q.hours, now@) as i64, s.cfg@.limit),
{
    outages_plan(start_of(q.hours, now), s.cfg.history_limit)
}

/// Every range starts between zero and now, and no range is longer than thirty
/// days.
pub proof fn law_range_is_bounded(hours: Option<LookbackHours>, now: i64)
    requires
        0 <= now,
        hours matches Some(h) ==> in_bounds(h@),
    ensures
        0 <= range_start(hours, now) <= now,
        now - range_start(hours, now) <= 2_592_000,
        hours is None && 86_400 <= now ==> range_start(hours, now) == now - 86_400,
{
    match hours {
        Some(h) => {
            crate::lookback::law_lookback_bounds(h@);
        },
        None => {
            crate::lookback::law_lookback_bounds(LookbackHours::DEFAULT_24H);
            crate::lookback::lemma_default_is_one_day();
        },
    }
}

/// The state of the fleet: whether it is online, when that was asked, the latest
/// check per target, and the number of all checks.
#[derive(Debug)]
pub struct StatusResponse {
    pub online: bool,
    pub checked_at: i64,
    pub targets: Vec<Check>,
    pub total_checks: i64,
}

/// What a [`StatusResponse`] says, over plain values.
pub struct StatusData {
    pub online: bool,
    pub checked_at: i64,
    pub targets: Seq<CheckData>,
    pub total_checks: i64,
}

impl View for StatusResponse {
    type V = StatusData;

    open spec fn view(&self) -> StatusData {
        StatusData {
            online: self.online,
            checked_at: self.checked_at,
            targets: checks_data(self.targets@),
            total_checks: self.total_checks,
        }
    }
}

/// The state of the fleet at `now`, from the latest check per target and the
/// number of all checks, where that is known.
pub open spec fn fleet_state(latest: Seq<CheckData>, total: Option<i64>, now: i64) -> StatusData {
    StatusData {
        online: any_success(latest),
        checked_at: now,
        targets: latest,
        total_checks: match total {
            Some(n) => n,
            None => 0,
        },
    }
}

/// Is some check a success?
pub open spec fn any_success(latest: Seq<CheckData>) -> bool {
    exists|i: int| 0 <= i < latest.len() && (#[trigger] latest[i]).outcome is Success
}

/// Is the fleet online, given the latest check per target? It is where at least
/// one of them succeeded.
pub fn fleet_online(latest: &[Check]) -> (r: bool)
    ensures
        r == any_success(checks_data(latest@)),
{
    let mut i: usize = 0;
    while i < latest.len()
        invariant
            i <= latest@.len(),
            forall|j: int|
                0 <= j < i ==> !((#[trigger] checks_data(latest@)[j]).outcome is Success),
        decreases latest@.len() - i,
    {
        assert(checks_data(latest@)[i as int] == latest@[i as int]@);
        if latest[i].success() {
            return true;
        }
        i += 1;
    }
    false
}

/// The state of the fleet, from the latest check per target and the number of
/// all checks. Without the former there is no answer; without the latter it is
/// given as zero.
pub fn get_status(
    latest: Result<Vec<Check>, StoreError>,
    total: Result<i64, StoreError>,
    now: UnixSecs,
) -> (r: Result<StatusResponse, ApiError>)
    ensures
        match latest {
            Ok(v) => {
                &&& r is Ok
                &&& r->Ok_0.online == any_success(checks_data(v@))
                &&& r->Ok_0.checked_at == now@
                &&& r->Ok_0.targets == v
                &&& r->Ok_0@ == fleet_state(checks_data(v@), total.ok(), now@)
                &&& r->Ok_0.total_checks == (match total {
                    Ok(n) => n,
                    Err(_) => 0,
                })
            },
            Err(e) => r == Err::<StatusResponse, ApiError>(ApiError::Store(e)),
        },
{
    let latest = match latest {
        Ok(v) => v,
        Err(e) => {
            return Err(ApiError::from(e));
        },
    };
    Ok(
        StatusResponse {
            online: fleet_online(latest.as_slice()),
            checked_at: now.as_i64(),
            targets: latest,
            total_checks: match total {
                Ok(n) => n,
                Err(_) => 0,
            },
        },
    )
}

/// The settings in effect.
#[derive(Debug)]
pub struct ConfigResponse {
    pub port: u16,
    pub check_interval_secs: u64,
    pub check_timeout_secs: u64,
    pub targets: Vec<MonitorTarget>,
}

/// The settings in effect.
pub fn get_config(s: &AppState) -> (r: ConfigResponse)
    ensures
        r.port == s.cfg@.port,
        r.check_interval_secs == s.cfg@.interval,
        r.check_timeout_secs == s.cfg@.timeout,
        targets_data(r.targets@) == s.cfg@.targets,
{
    ConfigResponse {
        port: s.cfg.port_u16(),
        check_interval_secs: s.cfg.interval_secs(),
        check_timeout_secs: s.cfg.timeout_secs(),
        targets: clone_slice(s.cfg.targets.as_slice()),
    }
}

/// The body of the answer to a health request.
pub struct HealthResponse {
    pub ok: bool,
}

/// The server answers: it is healthy.
pub fn health() -> (r: HealthResponse)
    ensures
        r.ok,
{
    HealthResponse { ok: true }
}

} // verus!
