//! Probing: the steps of one probe and of one round of probes. A probe looks its
//! host up and then tries to connect to each address in turn, until one works or
//! none is left; the time for all of it is bounded. Doing so is left to the
//! caller, who takes each step as it is given here and hands back what came of
//! it.

use vstd::prelude::*;

use crate::config::Config;
use crate::db::{columns_of, insert_columns, CheckColumns, ColumnsData};
use crate::domain::{
    compacted, elapsed_ms, hint_form, targets_fault, CompactError, LatencyMs, MonitorTarget,
    OutcomeData, ProbeOutcome, ProbeTimeout, TargetData, TimeSpan, UnixSecs,
};
use crate::error::StoreError;

verus! {

// ---------------------------------------------------------------------------
// One probe
// ---------------------------------------------------------------------------

/// A probe between two attempts to connect: the index of the address to try, and
/// the number of addresses.
#[derive(Debug, PartialEq, Eq)]
pub struct Attempt {
    index: usize,
    count: usize,
}

impl View for Attempt {
    type V = (int, int);

    /// The index of the address to try, and the number of addresses.
    closed spec fn view(&self) -> (int, int) {
        (self.index as int, self.count as int)
    }
}

/// What a probe does next.
#[derive(Debug, PartialEq, Eq)]
pub enum ProbeStep {
    /// Tries to connect to an address.
    Connect(Attempt),
    /// Ends.
    Finish(ProbeOutcome),
}

/// What a [`ProbeStep`] says, over plain values.
pub enum StepData {
    /// Tries to connect to the address with this index, of so many.
    Connect(int, int),
    /// Ends.
    Finish(OutcomeData),
}

impl View for ProbeStep {
    type V = StepData;

    open spec fn view(&self) -> StepData {
        match *self {
            ProbeStep::Connect(a) => StepData::Connect(a@.0, a@.1),
            ProbeStep::Finish(o) => StepData::Finish(o@),
        }
    }
}

/// A failure with the error text `m`.
pub open spec fn failed_with(m: Seq<char>) -> OutcomeData {
    OutcomeData::Failure { error: compacted(m) }
}

/// The step after the host was looked up: the first of `count` addresses.
pub open spec fn step_after_lookup(lookup: Result<int, Seq<char>>) -> StepData {
    match lookup {
        Ok(count) => if count > 0 {
            StepData::Connect(0, count)
        } else {
            StepData::Finish(failed_with("no addresses resolved"@))
        },
        Err(m) => StepData::Finish(failed_with(m)),
    }
}

/// The step after the address with this index, of so many, refused.
pub open spec fn step_after_refusal(index: int, count: int, m: Seq<char>) -> StepData {
    if index + 1 < count {
        StepData::Connect(index + 1, count)
    } else {
        StepData::Finish(failed_with(m))
    }
}

/// What is looked up for a target: `host:port`.
pub fn lookup_hint(target: &MonitorTarget) -> (r: String)
    ensures
        r@ == hint_form(target@.host, target@.port),
{
    target.socket_hint()
}

/// The step after the host was looked up: how many addresses it has, or why that
/// could not be told.
pub fn after_lookup(lookup: Result<usize, String>) -> (r: ProbeStep)
    ensures
        r@ == step_after_lookup(
            match lookup {
                Ok(n) => Ok(n as int),
                Err(m) => Err(m@),
            },
        ),
{
    match lookup {
        Ok(count) => if count > 0 {
            ProbeStep::Connect(Attempt { index: 0, count })
        } else {
            ProbeStep::Finish(ProbeOutcome::failure(CompactError::new("no addresses resolved")))
        },
        Err(m) => ProbeStep::Finish(ProbeOutcome::failure(CompactError::new(m.as_str()))),
    }
}

/// The outcome of a probe that connected so many nanoseconds after it began.
pub open spec fn reached_after(nanos: int) -> OutcomeData {
    OutcomeData::Success { latency: elapsed_ms(nanos) as i64 }
}

impl Attempt {
    /// What holds of every value of this type.
    #[verifier::type_invariant]
    pub open spec fn well_formed(self) -> bool {
        0 <= self@.0 < self@.1 <= usize::MAX
    }

    /// The index of the address to try.
    pub fn index(&self) -> (r: usize)
        ensures
            r == self@.0,
            r < self@.1,
    {
        proof {
            use_type_invariant(self);
        }
        self.index
    }

    /// The step after the address refused.
    pub fn refused(self, message: &str) -> (r: ProbeStep)
        ensures
            r@ == step_after_refusal(self@.0, self@.1, message@),
    {
        proof {
            use_type_invariant(&self);
        }
        if self.index + 1 < self.count {
            ProbeStep::Connect(Attempt { index: self.index + 1, count: self.count })
        } else {
            ProbeStep::Finish(ProbeOutcome::failure(CompactError::new(message)))
        }
    }

    /// The outcome after the address accepted, `elapsed` after the probe began.
    pub fn connected(self, elapsed: TimeSpan) -> (r: ProbeOutcome)
        ensures
            r@ == (OutcomeData::Success { latency: elapsed_ms(elapsed@) as i64 }),
            r@ == reached_after(elapsed@),
            0 <= elapsed_ms(elapsed@) <= i64::MAX,
    {
        let latency = LatencyMs::from_elapsed(elapsed);
        proof {
            use_type_invariant(&latency);
        }
        ProbeOutcome::success(latency)
    }
}

/// The outcome where the probe took too long.
pub fn timed_out() -> (r: ProbeOutcome)
    ensures
        r@ == (OutcomeData::Failure { error: "timeout"@ }),
{
    ProbeOutcome::failure(CompactError::timeout())
}

/// The step after the first of `count` addresses refused with the messages
/// `errors`, in order.
pub open spec fn step_after_refusals(count: int, errors: Seq<Seq<char>>) -> StepData
    decreases errors.len(),
{
    if errors.len() == 0 {
        step_after_lookup(Ok(count))
    } else {
        match step_after_refusals(count, errors.drop_last()) {
            StepData::Connect(index, count) => step_after_refusal(index, count, errors.last()),
            StepData::Finish(o) => StepData::Finish(o),
        }
    }
}

/// Every address is tried, in order, before a probe gives up: as long as fewer
/// than all refused the next is tried, and when all have, the probe fails with
/// the message of the last.
pub proof fn law_every_address_is_tried(count: int, errors: Seq<Seq<char>>)
    requires
        0 < count,
        errors.len() <= count,
    ensures
        errors.len() < count ==> step_after_refusals(count, errors) == StepData::Connect(
            errors.len() as int,
            count,
        ),
        errors.len() == count ==> step_after_refusals(count, errors) == StepData::Finish(
            failed_with(errors.last()),
        ),
    decreases errors.len(),
{
    if errors.len() > 0 {
        law_every_address_is_tried(count, errors.drop_last());
    }
}

/// A failed lookup, and a host without addresses, fail the probe at once.
pub proof fn law_failed_lookup_is_a_failure(lookup: Result<int, Seq<char>>)
    ensures
        step_after_lookup(lookup) is Finish <==> lookup is Err || lookup->Ok_0 <= 0,
        step_after_lookup(lookup) matches StepData::Finish(o) ==> o is Failure,
{
}

// ---------------------------------------------------------------------------
// One round
// ---------------------------------------------------------------------------

/// A probe to run.
#[derive(Debug)]
pub struct ProbeJob {
    pub target: MonitorTarget,
    pub timeout: ProbeTimeout,
}

/// What a [`ProbeJob`] asks for, over plain values.
pub struct JobData {
    pub target: TargetData,
    pub timeout: u64,
}

impl View for ProbeJob {
    type V = JobData;

    open spec fn view(&self) -> JobData {
        JobData { target: self.target@, timeout: self.timeout@ }
    }
}

/// What each job of a sequence asks for.
pub open spec fn jobs_data(s: Seq<ProbeJob>) -> Seq<JobData> {
    Seq::new(s.len(), |i: int| s[i]@)
}

/// The jobs of one round: one per target, in order, each with the same timeout.
pub open spec fn round_of(targets: Seq<TargetData>, timeout: u64) -> Seq<JobData> {
    Seq::new(targets.len(), |i: int| JobData { target: targets[i], timeout })
}

/// The jobs of one round.
pub fn round_jobs(cfg: &Config) -> (r: Vec<ProbeJob>)
    ensures
        jobs_data(r@) == round_of(cfg@.targets, cfg@.timeout),
{
    let targets = cfg.targets.as_slice();
    let ghost all = round_of(cfg@.targets, cfg@.timeout);
    let n: usize = targets.len();
    let mut jobs: Vec<ProbeJob> = Vec::new();
    let mut i: usize = 0;
    assert(jobs_data(jobs@) =~= all.take(0));
    while i < n
        invariant
            i <= n,
            n == targets@.len(),
            cfg@.targets == crate::domain::targets_data(targets@),
            all == round_of(cfg@.targets, cfg@.timeout),
            jobs_data(jobs@) == all.take(i as int),
        decreases n - i,
    {
        let ghost before = jobs_data(jobs@);
        jobs.push(ProbeJob { target: targets[i].clone(), timeout: cfg.check_timeout });
        assert(jobs_data(jobs@) =~= before.push(all[i as int]));
        assert(jobs_data(jobs@) =~= all.take(i + 1));
        i += 1;
    }
    assert(all.take(n as int) =~= all);
    jobs
}

/// How a job ended.
#[derive(Debug)]
pub enum JobEnd {
    /// With an outcome for the target.
    Finished(MonitorTarget, ProbeOutcome),
    /// It broke down.
    Panicked,
}

/// What a [`JobEnd`] says, over plain values.
pub enum EndData {
    /// With an outcome for the target.
    Finished(TargetData, OutcomeData),
    /// It broke down.
    Panicked,
}

impl View for JobEnd {
    type V = EndData;

    open spec fn view(&self) -> EndData {
        match *self {
            JobEnd::Finished(t, o) => EndData::Finished(t@, o@),
            JobEnd::Panicked => EndData::Panicked,
        }
    }
}

/// The columns to store for a job that ended at `now`: those of its outcome. A
/// job that broke down leaves nothing to store.
pub open spec fn end_columns(end: EndData, now: i64) -> Option<ColumnsData> {
    match end {
        EndData::Finished(t, o) => Some(columns_of(now, t.name, o)),
        EndData::Panicked => None,
    }
}

/// The columns to store for a job that ended at `now`.
pub fn job_columns(end: &JobEnd, now: UnixSecs) -> (r: Option<CheckColumns>)
    ensures
        end_columns(end@, now@) == (match r {
            Some(c) => Some(c@),
            None => None,
        }),
{
    match end {
        JobEnd::Finished(target, outcome) => Some(insert_columns(now, &target.name, outcome)),
        JobEnd::Panicked => None,
    }
}

/// A round between two jobs: the index of the job to wait for, and the number of
/// jobs.
#[derive(Debug)]
pub struct Waiting {
    index: usize,
    count: usize,
}

impl View for Waiting {
    type V = (int, int);

    /// The index of the job to wait for, and the number of jobs.
    closed spec fn view(&self) -> (int, int) {
        (self.index as int, self.count as int)
    }
}

/// A round with columns to store, of the job with an index among so many.
#[derive(Debug)]
pub struct Storing {
    index: usize,
    count: usize,
    columns: CheckColumns,
}

impl View for Storing {
    type V = (int, int, ColumnsData);

    /// The index of the job, the number of jobs, and the columns to store.
    closed spec fn view(&self) -> (int, int, ColumnsData) {
        (self.index as int, self.count as int, self.columns@)
    }
}

/// What a round does next.
#[derive(Debug)]
pub enum RoundStep {
    /// Waits for a job to end.
    Await(Waiting),
    /// Stores the columns of a job that finished.
    Insert(Storing),
    /// Ends.
    Done,
}

/// What a [`RoundStep`] says, over plain values.
pub enum RoundData {
    /// Waits for the job with this index, of so many.
    Await(int, int),
    /// Stores the columns of the job with this index, of so many.
    Insert(int, int, ColumnsData),
    /// Ends.
    Done,
}

impl View for RoundStep {
    type V = RoundData;

    open spec fn view(&self) -> RoundData {
        match *self {
            RoundStep::Await(w) => RoundData::Await(w@.0, w@.1),
            RoundStep::Insert(s) => RoundData::Insert(s@.0, s@.1, s@.2),
            RoundStep::Done => RoundData::Done,
        }
    }
}

/// The step with which the job with this index comes up, of so many.
pub open spec fn step_to_job(index: int, count: int) -> RoundData {
    if index < count {
        RoundData::Await(index, count)
    } else {
        RoundData::Done
    }
}

/// The step after the job with this index, of so many, ended at `now`.
pub open spec fn step_after_end(index: int, count: int, end: EndData, now: i64) -> RoundData {
    match end_columns(end, now) {
        Some(c) => RoundData::Insert(index, count, c),
        None => step_to_job(index + 1, count),
    }
}

/// The step after the columns of the job with this index, of so many, were
/// stored, or were not: the next job either way.
pub open spec fn step_after_insert(index: int, count: int, stored: bool) -> RoundData {
    step_to_job(index + 1, count)
}

/// The first step of a round of `count` jobs.
pub fn start_round(count: usize) -> (r: RoundStep)
    ensures
        r@ == step_to_job(0, count as int),
{
    if count > 0 {
        RoundStep::Await(Waiting { index: 0, count })
    } else {
        RoundStep::Done
    }
}

impl Waiting {
    /// What holds of every value of this type.
    #[verifier::type_invariant]
    pub open spec fn well_formed(self) -> bool {
        0 <= self@.0 < self@.1 <= usize::MAX
    }

    /// The index of the job to wait for.
    pub fn index(&self) -> (r: usize)
        ensures
            r == self@.0,
            r < self@.1,
    {
        proof {
            use_type_invariant(self);
        }
        self.index
    }

    /// The step after the job ended at `now`.
    pub fn ended(self, end: &JobEnd, now: UnixSecs) -> (r: RoundStep)
        ensures
            r@ == step_after_end(self@.0, self@.1, end@, now@),
    {
        proof {
            use_type_invariant(&self);
        }
        match job_columns(end, now) {
            Some(columns) => RoundStep::Insert(
                Storing { index: self.index, count: self.count, columns },
            ),
            None => if self.index + 1 < self.count {
                RoundStep::Await(Waiting { index: self.index + 1, count: self.count })
            } else {
                RoundStep::Done
            },
        }
    }
}

impl Storing {
    /// What holds of every value of this type.
    #[verifier::type_invariant]
    pub open spec fn well_formed(self) -> bool {
        0 <= self@.0 < self@.1 <= usize::MAX
    }

    /// The columns to store.
    pub fn columns(&self) -> (r: &CheckColumns)
        ensures
            r@ == self@.2,
    {
        &self.columns
    }

    /// The step after the store was asked to take the columns. Whether it did
    /// makes no difference: a failing store does not end a round.
    pub fn inserted(self, result: &Result<(), StoreError>) -> (r: RoundStep)
        ensures
            r@ == step_after_insert(self@.0, self@.1, *result is Ok),
    {
        proof {
            use_type_invariant(&self);
        }
        if self.index + 1 < self.count {
            RoundStep::Await(Waiting { index: self.index + 1, count: self.count })
        } else {
            RoundStep::Done
        }
    }
}

/// The columns that a round hands to the store from `step` on, in order, where
/// its jobs end as `ends` says, each at its time, and the store takes those of a
/// job or not, as `stored` says.
pub open spec fn inserts_from(
    step: RoundData,
    ends: Seq<(EndData, i64)>,
    stored: Seq<bool>,
) -> Seq<ColumnsData>
    decreases
        (match step {
            RoundData::Await(index, _) => 2 * (ends.len() - index) + 1,
            RoundData::Insert(index, _, _) => 2 * (ends.len() - index),
            RoundData::Done => 0,
        }),
{
    match step {
        RoundData::Await(index, count) => if 0 <= index < ends.len() {
            inserts_from(
                step_after_end(index, count, ends[index].0, ends[index].1),
                ends,
                stored,
            )
        } else {
            Seq::empty()
        },
        RoundData::Insert(index, count, c) => if 0 <= index < ends.len() {
            seq![c] + inserts_from(step_after_insert(index, count, stored[index]), ends, stored)
        } else {
            seq![c]
        },
        RoundData::Done => Seq::empty(),
    }
}

/// The columns of the first `n` jobs, in order, as far as they finished.
pub open spec fn finished_columns(ends: Seq<(EndData, i64)>, n: nat) -> Seq<ColumnsData>
    decreases n,
{
    if n == 0 {
        Seq::empty()
    } else {
        let before = finished_columns(ends, (n - 1) as nat);
        match end_columns(ends[n - 1].0, ends[n - 1].1) {
            Some(c) => before.push(c),
            None => before,
        }
    }
}

proof fn lemma_inserts_from_job(ends: Seq<(EndData, i64)>, stored: Seq<bool>, i: nat)
    requires
        stored.len() == ends.len(),
        i <= ends.len(),
    ensures
        finished_columns(ends, i) + inserts_from(
            step_to_job(i as int, ends.len() as int),
            ends,
            stored,
        ) == finished_columns(ends, ends.len()),
    decreases ends.len() - i,
{
    let n = ends.len() as int;
    let before = finished_columns(ends, i);
    let rest = inserts_from(step_to_job(i as int, n), ends, stored);
    if i < ends.len() {
        lemma_inserts_from_job(ends, stored, i + 1);
        let after = inserts_from(step_to_job((i + 1) as int, n), ends, stored);
        match end_columns(ends[i as int].0, ends[i as int].1) {
            Some(c) => {
                let step = RoundData::Insert(i as int, n, c);
                assert(inserts_from(step, ends, stored) == seq![c] + after);
                assert(rest == seq![c] + after);
                assert(before + rest =~= before.push(c) + after);
            },
            None => {
                assert(rest == after);
            },
        }
    } else {
        assert(before + rest =~= before);
    }
}

/// A round hands the columns of every job that finished to the store, once and in
/// order, and no others, whether or not the store takes them: neither a failing
/// store nor a job that broke down ends it.
pub proof fn law_every_finished_job_is_inserted_once(
    ends: Seq<(EndData, i64)>,
    stored: Seq<bool>,
)
    requires
        stored.len() == ends.len(),
    ensures
        inserts_from(step_to_job(0, ends.len() as int), ends, stored) == finished_columns(
            ends,
            ends.len(),
        ),
{
    lemma_inserts_from_job(ends, stored, 0);
    let all = inserts_from(step_to_job(0, ends.len() as int), ends, stored);
    assert(finished_columns(ends, 0) + all =~= all);
}

/// A round stores one row per target: where every job of a round finishes, each
/// row is for the target of its job, and no two are for the same target.
pub proof fn law_one_row_per_target(
    targets: Seq<TargetData>,
    timeout: u64,
    outcomes: Seq<OutcomeData>,
    times: Seq<i64>,
    i: int,
    j: int,
)
    requires
        targets_fault(targets) is None,
        outcomes.len() == targets.len(),
        times.len() == targets.len(),
        0 <= i < j < targets.len(),
    ensures
        ({
            let jobs = round_of(targets, timeout);
            let a = end_columns(EndData::Finished(jobs[i].target, outcomes[i]), times[i]);
            let b = end_columns(EndData::Finished(jobs[j].target, outcomes[j]), times[j]);
            &&& jobs.len() == targets.len()
            &&& a == Some(columns_of(times[i], targets[i].name, outcomes[i]))
            &&& b == Some(columns_of(times[j], targets[j].name, outcomes[j]))
            &&& a->0.target != b->0.target
        }),
{
    let names = crate::domain::names_of(targets);
    crate::domain::lemma_first_repeat(names);
    assert(names[i] != names[j]);
}

} // verus!
