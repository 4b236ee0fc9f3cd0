//! Outages: consecutive failures of one target, grouped.

use vstd::prelude::*;

use crate::domain::{
    clamped, date_secs, is_name, lemma_ascii_text, name_fault, TargetName, UnixSecs, UtcDateTime,
};
use crate::text::{lemma_trimmed_idempotent, same_text, trimmed};

verus! {

// ---------------------------------------------------------------------------
// Outage
// ---------------------------------------------------------------------------

/// A run of failed probes of one target, ended by a success or still going on.
#[derive(Debug)]
pub struct Outage {
    pub target: TargetName,
    pub start_ts: UnixSecs,
    pub start: UtcDateTime,
    pub end_ts: Option<UnixSecs>,
    pub end: Option<UtcDateTime>,
    pub failed_checks: i64,
    pub duration_secs: Option<i64>,
    pub ongoing: bool,
}

/// What an [`Outage`] says, over plain values.
pub struct OutageData {
    pub target: Seq<char>,
    pub start_ts: i64,
    pub start: i64,
    pub end_ts: Option<i64>,
    pub end: Option<i64>,
    pub failed_checks: int,
    pub duration_secs: Option<int>,
    pub ongoing: bool,
}

impl View for Outage {
    type V = OutageData;

    open spec fn view(&self) -> OutageData {
        OutageData {
            target: self.target@,
            start_ts: self.start_ts@,
            start: self.start@,
            end_ts: match self.end_ts {
                Some(t) => Some(t@),
                None => None,
            },
            end: match self.end {
                Some(t) => Some(t@),
                None => None,
            },
            failed_checks: self.failed_checks as int,
            duration_secs: match self.duration_secs {
                Some(d) => Some(d as int),
                None => None,
            },
            ongoing: self.ongoing,
        }
    }
}

/// The outage of `target` from `start` to `end`.
pub open spec fn closed_outage(
    target: Seq<char>,
    start: i64,
    end: i64,
    failed: int,
) -> OutageData {
    OutageData {
        target,
        start_ts: start,
        start: date_secs(start),
        end_ts: Some(end),
        end: Some(date_secs(end)),
        failed_checks: failed,
        duration_secs: Some(
            if end < start {
                0
            } else {
                end - start
            },
        ),
        ongoing: false,
    }
}

/// The outage of `target` since `start`.
pub open spec fn ongoing_outage(target: Seq<char>, start: i64, failed: int) -> OutageData {
    OutageData {
        target,
        start_ts: start,
        start: date_secs(start),
        end_ts: None,
        end: None,
        failed_checks: failed,
        duration_secs: None,
        ongoing: true,
    }
}

impl Clone for Outage {
    fn clone(&self) -> (r: Self)
        ensures
            r == *self,
    {
        Outage {
            target: self.target.clone(),
            start_ts: self.start_ts,
            start: self.start,
            end_ts: self.end_ts,
            end: self.end,
            failed_checks: self.failed_checks,
            duration_secs: self.duration_secs,
            ongoing: self.ongoing,
        }
    }
}

impl Outage {
    fn closed(target: TargetName, start: UnixSecs, end: UnixSecs, failed: i64) -> (r: Self)
        ensures
            r@ == closed_outage(target@, start@, end@, failed as int),
    {
        let length: i64 = end.as_i64() - start.as_i64();
        Outage {
            target,
            start_ts: start,
            start: start.as_datetime(),
            end_ts: Some(end),
            end: Some(end.as_datetime()),
            failed_checks: failed,
            duration_secs: Some(
                if length < 0 {
                    0
                } else {
                    length
                },
            ),
            ongoing: false,
        }
    }

    fn ongoing(target: TargetName, start: UnixSecs, failed: i64) -> (r: Self)
        ensures
            r@ == ongoing_outage(target@, start@, failed as int),
    {
        Outage {
            target,
            start_ts: start,
            start: start.as_datetime(),
            end_ts: None,
            end: None,
            failed_checks: failed,
            duration_secs: None,
            ongoing: true,
        }
    }
}

// ---------------------------------------------------------------------------
// Names from storage
// ---------------------------------------------------------------------------

/// The target name for a stored name: its trimming, or `unknown` where that is
/// no name.
pub open spec fn stored_name(raw: Seq<char>) -> Seq<char> {
    if name_fault(raw) is None {
        trimmed(raw)
    } else {
        "unknown"@
    }
}

proof fn lemma_unknown_is_a_name()
    ensures
        name_fault("unknown"@) is None,
        trimmed("unknown"@) == "unknown"@,
{
    reveal_strlit("unknown");
    lemma_ascii_text("unknown"@);
}

/// The target name for a stored name is one, and is the target name for itself.
pub proof fn lemma_stored_name(raw: Seq<char>)
    ensures
        is_name(stored_name(raw)),
        stored_name(stored_name(raw)) == stored_name(raw),
        is_name(raw) ==> stored_name(raw) == raw,
{
    lemma_unknown_is_a_name();
    lemma_trimmed_idempotent(raw);
}

/// The target name for a stored name.
pub fn stored_target(raw: &str) -> (r: TargetName)
    ensures
        r@ == stored_name(raw@),
{
    match TargetName::new(raw) {
        Ok(n) => n,
        Err(_) => {
            proof {
                lemma_unknown_is_a_name();
            }
            TargetName::known("unknown")
        },
    }
}

// ---------------------------------------------------------------------------
// Grouping
// ---------------------------------------------------------------------------

/// A probe as it is stored: target name, timestamp, success.
pub type RowData = (Seq<char>, i64, bool);

/// What stored probes say, over plain values.
pub open spec fn rows_data(rows: Seq<(String, i64, bool)>) -> Seq<RowData> {
    Seq::new(rows.len(), |i: int| (rows[i].0@, rows[i].1, rows[i].2))
}

/// Do two stored names stand for one target? They do where they are the same
/// text, or names that differ in outer white space alone.
pub open spec fn same_target(a: Seq<char>, b: Seq<char>) -> bool {
    a == b || (name_fault(a) is None && name_fault(b) is None && trimmed(a) == trimmed(b))
}

/// Does row `i` begin a stretch of rows of one target? It does unless the row
/// before it is of the same target.
pub open spec fn breaks(rows: Seq<RowData>, i: int) -> bool {
    i == 0 || !same_target(rows[i - 1].0, rows[i].0)
}

/// Does an outage start with row `i`: a failure that does not continue one?
pub open spec fn starts(rows: Seq<RowData>, i: int) -> bool {
    !rows[i].2 && (breaks(rows, i) || rows[i - 1].2)
}

/// Does row `i` continue the run of failures that the row before it is in?
pub open spec fn continues(rows: Seq<RowData>, i: int) -> bool {
    !breaks(rows, i) && !rows[i].2
}

/// The end of the run of failures that row `i` is in: the first row after it that
/// does not continue the run, or the number of rows.
pub open spec fn run_end(rows: Seq<RowData>, i: int) -> int
    decreases rows.len() - i,
{
    if i + 1 >= rows.len() {
        rows.len() as int
    } else if continues(rows, i + 1) {
        run_end(rows, i + 1)
    } else {
        i + 1
    }
}

/// The outage that starts with row `i`. It is over if the row that ends its run
/// is a success of the same target.
pub open spec fn outage_from(rows: Seq<RowData>, i: int) -> OutageData {
    let e = run_end(rows, i);
    let target = stored_name(rows[i].0);
    let start = clamped(rows[i].1);
    if e < rows.len() && !breaks(rows, e) {
        closed_outage(target, start, clamped(rows[e].1), e - i)
    } else {
        ongoing_outage(target, start, e - i)
    }
}

/// The outages that start before row `n`, in the order in which they start.
pub open spec fn outages_before(rows: Seq<RowData>, n: nat) -> Seq<OutageData>
    decreases n,
{
    if n == 0 {
        Seq::empty()
    } else {
        let before = outages_before(rows, (n - 1) as nat);
        if starts(rows, n - 1) {
            before.push(outage_from(rows, n - 1))
        } else {
            before
        }
    }
}

/// All outages, in the order in which they start.
pub open spec fn all_outages(rows: Seq<RowData>) -> Seq<OutageData> {
    outages_before(rows, rows.len())
}

/// What each outage of a sequence says.
pub open spec fn outages_data(s: Seq<Outage>) -> Seq<OutageData> {
    Seq::new(s.len(), |i: int| s[i]@)
}

proof fn lemma_run_end_is(rows: Seq<RowData>, k: int, e: int)
    requires
        0 <= k < e <= rows.len(),
        forall|j: int| k < j < e ==> continues(rows, j),
        e < rows.len() ==> !continues(rows, e),
    ensures
        run_end(rows, k) == e,
    decreases e - k,
{
    if k + 1 < e {
        assert(continues(rows, k + 1));
        lemma_run_end_is(rows, k + 1, e);
    }
}

proof fn lemma_none_start(rows: Seq<RowData>, a: nat, b: nat)
    requires
        a <= b <= rows.len(),
        forall|j: int| a <= j < b ==> !starts(rows, j),
    ensures
        outages_before(rows, b) == outages_before(rows, a),
    decreases b,
{
    if a < b {
        assert(!starts(rows, b - 1));
        lemma_none_start(rows, a, (b - 1) as nat);
    }
}

/// The one outage that starts at `k` and runs up to `e` comes next.
pub proof fn lemma_run_recorded(rows: Seq<RowData>, k: int, e: int)
    requires
        0 <= k < e <= rows.len(),
        starts(rows, k),
        forall|j: int| k < j < e ==> continues(rows, j),
        e < rows.len() ==> !continues(rows, e),
    ensures
        run_end(rows, k) == e,
        outages_before(rows, e as nat) == outages_before(rows, k as nat).push(
            outage_from(rows, k),
        ),
    decreases e - k,
{
    lemma_run_end_is(rows, k, e);
    assert forall|j: int| k + 1 <= j < e implies !starts(rows, j) by {
        assert(continues(rows, j));
        if j > k + 1 {
            assert(continues(rows, j - 1));
        }
    }
    lemma_none_start(rows, (k + 1) as nat, e as nat);
}

/// Do two stored names stand for one target?
fn of_one_target(a: &str, b: &str) -> (r: bool)
    ensures
        r == same_target(a@, b@),
{
    if same_text(a, b) {
        return true;
    }
    match (TargetName::new(a), TargetName::new(b)) {
        (Ok(x), Ok(y)) => same_text(x.as_str(), y.as_str()),
        _ => false,
    }
}

/// The outages of stored probes, in the order in which they start.
fn collect_outages(rows: &[(String, i64, bool)]) -> (r: Vec<Outage>)
    requires
        rows@.len() <= i64::MAX,
    ensures
        outages_data(r@) == all_outages(rows_data(rows@)),
{
    let ghost data = rows_data(rows@);
    let n: usize = rows.len();
    let mut out: Vec<Outage> = Vec::new();
    let mut cur_target: Option<TargetName> = None;
    let mut cur_start: Option<UnixSecs> = None;
    let mut cur_count: i64 = 0;
    let ghost mut k: int = 0;
    let mut i: usize = 0;
    assert(outages_data(out@) =~= Seq::empty());
    while i < n
        invariant
            i <= n,
            n == rows@.len(),
            n <= i64::MAX,
            data == rows_data(rows@),
            i == 0 ==> cur_target is None && cur_start is None,
            i > 0 ==> cur_target is Some && cur_target->0@ == stored_name(data[i - 1].0),
            match cur_start {
                Some(s) => {
                    &&& 0 <= k < i
                    &&& starts(data, k)
                    &&& forall|j: int| k < j < i ==> continues(data, j)
                    &&& cur_count == i - k
                    &&& s@ == clamped(data[k].1)
                    &&& cur_target->0@ == stored_name(data[k].0)
                    &&& outages_data(out@) == outages_before(data, k as nat)
                },
                None => {
                    &&& outages_data(out@) == outages_before(data, i as nat)
                    &&& i > 0 ==> data[i - 1].2
                },
            },
        decreases n - i,
    {
        assert(data[i as int] == (rows@[i as int].0@, rows@[i as int].1, rows@[i as int].2));
        let raw = rows[i].0.as_str();
        let ts = UnixSecs::new(rows[i].1);
        let success: bool = rows[i].2;
        let changed: bool = if i == 0 {
            true
        } else {
            assert(data[i - 1] == (rows@[i - 1].0@, rows@[i - 1].1, rows@[i - 1].2));
            !of_one_target(rows[i - 1].0.as_str(), raw)
        };
        assert(changed == breaks(data, i as int));
        if changed {
            if let Some(s) = cur_start {
                if let Some(t) = cur_target {
                    let ghost before = outages_data(out@);
                    proof {
                        lemma_run_recorded(data, k, i as int);
                    }
                    out.push(Outage::ongoing(t, s, cur_count));
                    assert(outages_data(out@) =~= before.push(outage_from(data, k)));
                }
            }
            cur_target = Some(stored_target(raw));
            cur_start = None;
            cur_count = 0;
        }
        assert(cur_target is Some && cur_target->0@ == stored_name(data[i as int].0));
        if !success {
            if cur_start.is_none() {
                cur_start = Some(ts);
                cur_count = 0;
                proof {
                    k = i as int;
                }
                assert(starts(data, k));
            } else {
                assert(continues(data, i as int));
            }
            cur_count += 1;
        } else if let Some(s) = cur_start {
            if let Some(t) = &cur_target {
                let ghost before = outages_data(out@);
                proof {
                    lemma_run_recorded(data, k, i as int);
                    assert(!starts(data, i as int));
                }
                out.push(Outage::closed(t.clone(), s, ts, cur_count));
                assert(outages_data(out@) =~= before.push(outage_from(data, k)));
            }
            cur_start = None;
            cur_count = 0;
        }
        i += 1;
    }
    if let Some(s) = cur_start {
        if let Some(t) = cur_target {
            let ghost before = outages_data(out@);
            proof {
                lemma_run_recorded(data, k, n as int);
            }
            out.push(Outage::ongoing(t, s, cur_count));
            assert(outages_data(out@) =~= before.push(outage_from(data, k)));
        }
    }
    out
}

// ---------------------------------------------------------------------------
// Order
// ---------------------------------------------------------------------------

/// Does no outage of `s` start after the one before it?
pub open spec fn newest_first(s: Seq<OutageData>) -> bool {
    forall|i: int, j: int| 0 <= i < j < s.len() ==> s[i].start_ts >= s[j].start_ts
}

/// The outages of `s` that start at `t`, in their order in `s`.
pub open spec fn starting_at(s: Seq<OutageData>, t: i64) -> Seq<OutageData> {
    s.filter(|o: OutageData| o.start_ts == t)
}

/// Is `r` the outages of `s`, newest first, those with the same start in their
/// order in `s`? For any `s` there is exactly one such `r`.
pub open spec fn is_newest_first(r: Seq<OutageData>, s: Seq<OutageData>) -> bool {
    newest_first(r) && forall|t: i64| #[trigger] starting_at(r, t) == starting_at(s, t)
}

/// Putting `x` behind all that start later, and in front of the rest, puts it
/// first among those with the same start.
proof fn lemma_insert_keeps_order(s: Seq<OutageData>, p: int, x: OutageData, t: i64)
    requires
        0 <= p <= s.len(),
        forall|j: int| 0 <= j < p ==> (#[trigger] s[j]).start_ts > x.start_ts,
    ensures
        starting_at(s.insert(p, x), t) == starting_at(seq![x] + s, t),
{
    let f = |o: OutageData| o.start_ts == t;
    let a = s.take(p);
    let b = s.skip(p);
    let x1 = seq![x];
    assert(s =~= a + b);
    assert(s.insert(p, x) =~= (a + x1) + b);
    Seq::filter_distributes_over_add(a, b, f);
    Seq::filter_distributes_over_add(a + x1, b, f);
    Seq::filter_distributes_over_add(a, x1, f);
    Seq::filter_distributes_over_add(x1, s, f);
    if x.start_ts == t {
        assert(a.filter(f) =~= Seq::empty()) by {
            assert(a.all(|o: OutageData| !f(o))) by {
                assert forall|j: int| 0 <= j < a.len() implies !f(#[trigger] a[j]) by {
                    assert(a[j] == s[j]);
                }
            }
            a.lemma_all_neg_filter_empty(f);
        }
    } else {
        assert(x1.filter(f) =~= Seq::empty()) by {
            assert(x1.all(|o: OutageData| !f(o)));
            x1.lemma_all_neg_filter_empty(f);
        }
    }
    assert(starting_at(s.insert(p, x), t) =~= starting_at(x1 + s, t));
}

/// The place in `v`, which is newest first, for an outage that starts at `t`:
/// behind all that start later.
fn place_for(v: &Vec<Outage>, t: i64) -> (p: usize)
    requires
        newest_first(outages_data(v@)),
    ensures
        p <= v.len(),
        forall|j: int| 0 <= j < p ==> (#[trigger] outages_data(v@)[j]).start_ts > t,
        forall|j: int| p <= j < v.len() ==> (#[trigger] outages_data(v@)[j]).start_ts <= t,
{
    let ghost d = outages_data(v@);
    let mut lo: usize = 0;
    let mut hi: usize = v.len();
    while lo < hi
        invariant
            lo <= hi <= v.len(),
            d == outages_data(v@),
            newest_first(d),
            forall|j: int| 0 <= j < lo ==> (#[trigger] d[j]).start_ts > t,
            forall|j: int| hi <= j < v.len() ==> (#[trigger] d[j]).start_ts <= t,
        decreases hi - lo,
    {
        let mid: usize = lo + (hi - lo) / 2;
        assert(d[mid as int] == v@[mid as int]@);
        if v[mid].start_ts.as_i64() > t {
            lo = mid + 1;
        } else {
            hi = mid;
        }
    }
    lo
}

/// Puts outages into order: newest first, those with the same start as they were.
fn sort_newest_first(from: Vec<Outage>) -> (r: Vec<Outage>)
    ensures
        is_newest_first(outages_data(r@), outages_data(from@)),
        outages_data(r@).to_multiset() == outages_data(from@).to_multiset(),
{
    let ghost all = outages_data(from@);
    let mut rest: Vec<Outage> = from;
    let mut r: Vec<Outage> = Vec::new();
    assert(outages_data(r@) =~= all.skip(rest@.len() as int));
    assert(outages_data(rest@) =~= all.take(rest@.len() as int));
    while rest.len() > 0
        invariant
            rest@.len() <= all.len(),
            outages_data(rest@) == all.take(rest@.len() as int),
            is_newest_first(outages_data(r@), all.skip(rest@.len() as int)),
            outages_data(r@).to_multiset() == all.skip(rest@.len() as int).to_multiset(),
        decreases rest@.len(),
    {
        let ghost d = outages_data(r@);
        let ghost before = rest@;
        let ghost done = all.skip(before.len() as int);
        let last = rest.pop();
        if let Some(o) = last {
            let ghost m = rest@.len() as int;
            proof {
                assert(o@ == outages_data(before)[m]);
                assert(all[m] == all.take(m + 1)[m]);
                assert(outages_data(rest@) =~= all.take(m)) by {
                    assert forall|j: int| 0 <= j < m implies outages_data(rest@)[j]
                        == all[j] by {
                        assert(outages_data(before)[j] == all.take(m + 1)[j]);
                    }
                }
                assert(all.skip(m) =~= seq![o@] + done);
            }
            let p: usize = place_for(&r, o.start_ts.as_i64());
            proof {
                let f1 = seq![o@];
                assert forall|t: i64| #[trigger]
                    starting_at(d.insert(p as int, o@), t) == starting_at(all.skip(m), t) by {
                    let f = |o: OutageData| o.start_ts == t;
                    lemma_insert_keeps_order(d, p as int, o@, t);
                    Seq::filter_distributes_over_add(f1, d, f);
                    Seq::filter_distributes_over_add(f1, done, f);
                    assert(starting_at(d, t) == starting_at(done, t));
                }
                vstd::seq_lib::to_multiset_insert(d, p as int, o@);
                assert(seq![o@] + done =~= done.insert(0, o@));
                vstd::seq_lib::to_multiset_insert(done, 0, o@);
            }
            r.insert(p, o);
            assert(outages_data(r@) =~= d.insert(p as int, o@));
        }
    }
    assert(all.skip(0) =~= all);
    r
}

/// Groups consecutive failures per target into outages, newest first. The rows
/// come sorted by target and then by time.
pub fn group_outages(rows: &[(String, i64, bool)]) -> (r: Vec<Outage>)
    requires
        rows@.len() <= i64::MAX,
    ensures
        is_newest_first(outages_data(r@), all_outages(rows_data(rows@))),
        outages_data(r@).to_multiset() == all_outages(rows_data(rows@)).to_multiset(),
{
    sort_newest_first(collect_outages(rows))
}

// ---------------------------------------------------------------------------
// Laws of grouping
// ---------------------------------------------------------------------------

/// The number of failed probes among the first `n` rows.
pub open spec fn failed_rows(rows: Seq<RowData>, n: nat) -> int
    decreases n,
{
    if n == 0 {
        0
    } else {
        failed_rows(rows, (n - 1) as nat) + if rows[n - 1].2 {
            0int
        } else {
            1int
        }
    }
}

/// The number of failed probes in all outages of `s`.
pub open spec fn failed_in(s: Seq<OutageData>) -> int
    decreases s.len(),
{
    if s.len() == 0 {
        0
    } else {
        failed_in(s.drop_last()) + s.last().failed_checks
    }
}

proof fn lemma_failed_in_folds(s: Seq<OutageData>, v: int)
    ensures
        s.fold_right(|o: OutageData, n: int| n + o.failed_checks, v) == failed_in(s) + v,
    decreases s.len(),
{
    if s.len() > 0 {
        lemma_failed_in_folds(s.drop_last(), v + s.last().failed_checks);
    }
}

/// The outages that start before row `n` hold the failures before it, and those
/// that continue the run it stands in.
proof fn lemma_failures_so_far(rows: Seq<RowData>, n: nat)
    requires
        n <= rows.len(),
    ensures
        failed_in(outages_before(rows, n)) == failed_rows(rows, n) + if n > 0 && !rows[n - 1].2 {
            run_end(rows, n - 1) - n
        } else {
            0
        },
    decreases n,
{
    if n > 0 {
        let m = (n - 1) as nat;
        lemma_failures_so_far(rows, m);
        let before = outages_before(rows, m);
        if starts(rows, m as int) {
            assert(before.push(outage_from(rows, m as int)).drop_last() =~= before);
        }
    }
}

/// Every failed probe is counted in exactly one outage: the counts of all
/// outages, in whatever order they come, add up to the number of failures.
pub proof fn law_every_failure_is_counted(rows: Seq<RowData>, r: Seq<OutageData>)
    requires
        r.to_multiset() == all_outages(rows).to_multiset(),
    ensures
        failed_in(r) == failed_rows(rows, rows.len()),
{
    let f = |o: OutageData, n: int| n + o.failed_checks;
    lemma_failures_so_far(rows, rows.len());
    lemma_failed_in_folds(r, 0);
    lemma_failed_in_folds(all_outages(rows), 0);
    vstd::seq_lib::lemma_fold_right_permutation(r, all_outages(rows), f, 0);
}

proof fn lemma_run_end_bounds(rows: Seq<RowData>, i: int)
    requires
        0 <= i < rows.len(),
    ensures
        i < run_end(rows, i) <= rows.len(),
    decreases rows.len() - i,
{
    if i + 1 < rows.len() && continues(rows, i + 1) {
        lemma_run_end_bounds(rows, i + 1);
    }
}

/// Rows of one target are shown under one name.
pub proof fn law_one_target_has_one_name(a: Seq<char>, b: Seq<char>)
    requires
        same_target(a, b),
    ensures
        stored_name(a) == stored_name(b),
{
}

/// A run of failures is of one target: each row of it is a failure of the target
/// of its first row, and is shown under the same name. It goes on until the rows end, a success
/// comes or another target does.
pub proof fn law_run_is_of_one_target(rows: Seq<RowData>, i: int)
    requires
        0 <= i < rows.len(),
        !rows[i].2,
    ensures
        i < run_end(rows, i) <= rows.len(),
        forall|j: int|
            #![trigger rows[j]]
            i <= j < run_end(rows, i) ==> !rows[j].2 && same_target(rows[i].0, rows[j].0)
                && stored_name(rows[j].0) == stored_name(rows[i].0),
        run_end(rows, i) < rows.len() ==> breaks(rows, run_end(rows, i)) || rows[run_end(
            rows,
            i,
        )].2,
    decreases rows.len() - i,
{
    if i + 1 < rows.len() && continues(rows, i + 1) {
        law_run_is_of_one_target(rows, i + 1);
    }
}

/// Consecutive failures of one target are one outage: a failure that follows a
/// failure of the same target starts none, and one that follows another target,
/// or a success, does.
pub proof fn law_consecutive_failures_are_one_outage(rows: Seq<RowData>, i: int)
    requires
        0 < i < rows.len(),
        !rows[i].2,
    ensures
        starts(rows, i) <==> !same_target(rows[i - 1].0, rows[i].0) || rows[i - 1].2,
        !starts(rows, i) ==> run_end(rows, i - 1) == run_end(rows, i),
{
}

/// An outage is over exactly where the row behind its failures is of the same
/// target. That row is then a success, and its time is the end of the outage.
pub proof fn law_success_ends_the_outage(rows: Seq<RowData>, i: int)
    requires
        0 <= i < rows.len(),
        starts(rows, i),
    ensures
        ({
            let e = run_end(rows, i);
            let o = outage_from(rows, i);
            &&& o.failed_checks == e - i
            &&& !o.ongoing <==> e < rows.len() && same_target(rows[i].0, rows[e].0)
            &&& !o.ongoing ==> rows[e].2 && o.end_ts == Some(clamped(rows[e].1))
        }),
{
    law_run_is_of_one_target(rows, i);
    let e = run_end(rows, i);
    assert(same_target(rows[i].0, rows[e - 1].0));
}

pub proof fn lemma_outages_come_from_rows(rows: Seq<RowData>, n: nat, k: int)
    requires
        n <= rows.len(),
        0 <= k < outages_before(rows, n).len(),
    ensures
        exists|i: int|
            0 <= i < n && #[trigger] starts(rows, i) && outages_before(rows, n)[k] == outage_from(
                rows,
                i,
            ),
    decreases n,
{
    let m = (n - 1) as nat;
    let before = outages_before(rows, m);
    if k < before.len() {
        lemma_outages_come_from_rows(rows, m, k);
        let i = choose|i: int|
            0 <= i < m && #[trigger] starts(rows, i) && before[k] == outage_from(rows, i);
        assert(starts(rows, i) && outages_before(rows, n)[k] == outage_from(rows, i));
    } else {
        assert(starts(rows, m as int));
    }
}

/// Every outage holds at least one failure and starts at a timestamp that is not
/// negative. It is ongoing exactly where it has no end, and then has no duration;
/// otherwise its duration is the time from its start to its end, and zero where
/// the clock went back.
pub proof fn law_outage_shape(rows: Seq<RowData>, k: int)
    requires
        0 <= k < all_outages(rows).len(),
    ensures
        ({
            let o = all_outages(rows)[k];
            &&& o.failed_checks >= 1
            &&& o.start_ts >= 0
            &&& is_name(o.target)
            &&& o.ongoing <==> o.end_ts is None
            &&& o.ongoing <==> o.end is None
            &&& o.ongoing <==> o.duration_secs is None
            &&& !o.ongoing && o.end_ts->0 >= o.start_ts ==> o.duration_secs == Some(
                o.end_ts->0 - o.start_ts,
            )
            &&& !o.ongoing && o.end_ts->0 < o.start_ts ==> o.duration_secs == Some(0int)
        }),
{
    lemma_outages_come_from_rows(rows, rows.len(), k);
    let i = choose|i: int|
        0 <= i < rows.len() && #[trigger] starts(rows, i) && all_outages(rows)[k] == outage_from(
            rows,
            i,
        );
    lemma_run_end_bounds(rows, i);
    lemma_stored_name(rows[i].0);
}

/// There is no outage exactly where no probe failed.
pub proof fn law_no_outage_without_failure(rows: Seq<RowData>)
    ensures
        all_outages(rows).len() == 0 <==> forall|i: int|
            0 <= i < rows.len() ==> (#[trigger] rows[i]).2,
{
    if forall|i: int| 0 <= i < rows.len() ==> (#[trigger] rows[i]).2 {
        lemma_none_start(rows, 0, rows.len());
    } else if all_outages(rows).len() == 0 {
        lemma_failures_so_far(rows, rows.len());
        let i = choose|i: int| 0 <= i < rows.len() && !(#[trigger] rows[i]).2;
        lemma_failed_rows_grow(rows, (i + 1) as nat, rows.len());
        lemma_failed_rows_grow(rows, 0, i as nat);
    }
}

proof fn lemma_failed_rows_grow(rows: Seq<RowData>, a: nat, b: nat)
    requires
        a <= b,
    ensures
        failed_rows(rows, a) <= failed_rows(rows, b),
    decreases b,
{
    if a < b {
        lemma_failed_rows_grow(rows, a, (b - 1) as nat);
    }
}

proof fn lemma_no_start(s: Seq<OutageData>, t: i64)
    requires
        forall|j: int| 0 <= j < s.len() ==> (#[trigger] s[j]).start_ts != t,
    ensures
        starting_at(s, t).len() == 0,
    decreases s.len(),
{
    reveal(Seq::filter);
    if s.len() > 0 {
        assert forall|j: int| 0 <= j < s.drop_last().len() implies (
        #[trigger] s.drop_last()[j]).start_ts != t by {
            assert(s.drop_last()[j] == s[j]);
        }
        lemma_no_start(s.drop_last(), t);
    }
}

/// The order in which outages are given leaves no choice: two sequences of the
/// same outages, newest first and with equal starts kept in order, are equal.
pub proof fn law_order_is_determined(
    a: Seq<OutageData>,
    b: Seq<OutageData>,
    s: Seq<OutageData>,
)
    requires
        is_newest_first(a, s),
        is_newest_first(b, s),
    ensures
        a == b,
{
    assert forall|t: i64| #[trigger] starting_at(a, t) == starting_at(b, t) by {
        assert(starting_at(a, t) == starting_at(s, t));
        assert(starting_at(b, t) == starting_at(s, t));
    }
    lemma_same_order(a, b);
}

proof fn lemma_same_order(a: Seq<OutageData>, b: Seq<OutageData>)
    requires
        newest_first(a),
        newest_first(b),
        forall|t: i64| #[trigger] starting_at(a, t) == starting_at(b, t),
    ensures
        a == b,
    decreases a.len(),
{
    reveal(Seq::filter);
    if a.len() == 0 {
        if b.len() > 0 {
            assert(starting_at(b, b.last().start_ts).len() > 0);
            assert(starting_at(a, b.last().start_ts).len() == 0);
        }
        assert(a =~= b);
    } else {
        let t = a.last().start_ts;
        assert(starting_at(a, t).len() > 0);
        if forall|j: int| 0 <= j < b.len() ==> (#[trigger] b[j]).start_ts != t {
            lemma_no_start(b, t);
        }
        let u = b.last().start_ts;
        assert(starting_at(b, u).len() > 0);
        if forall|j: int| 0 <= j < a.len() ==> (#[trigger] a[j]).start_ts != u {
            lemma_no_start(a, u);
        }
        assert(t == u);
        assert(starting_at(a, t).last() == a.last());
        assert(starting_at(b, t).last() == b.last());
        assert forall|v: i64| #[trigger]
            starting_at(a.drop_last(), v) == starting_at(b.drop_last(), v) by {
            assert(starting_at(a, v) == starting_at(b, v));
            if v == t {
                assert(starting_at(a, v).drop_last() =~= starting_at(a.drop_last(), v));
                assert(starting_at(b, v).drop_last() =~= starting_at(b.drop_last(), v));
            }
        }
        lemma_same_order(a.drop_last(), b.drop_last());
        assert(a =~= a.drop_last().push(a.last()));
        assert(b =~= b.drop_last().push(b.last()));
    }
}

} // verus!
