//! Laws of the running program: probes and rounds, requests and answers, the
//! healthcheck, and what is printed.

use vstd::prelude::*;

use crate::api::{
    any_success, failure_answer, fleet_state, handled, history_asked, history_fault, hours_fault,
    range_start, refusal, ApiError,
};
use crate::config::ConfigData;
use crate::db::CheckData;
use crate::domain::{compacted, name_fault, target_form, OutcomeData, TargetData};
use crate::error::{config_message, domain_message, ConfigFault, DomainFault, StoreError};
use crate::health::{exchange_fault, exit_code, health_port, named_port, reply_fault, report_line};
use crate::laws::texts::{
    has_clean_edges, is_blank_text, is_word, law_empty_line, law_first_line,
    law_number_is_read_back, law_trimming_undoes_padding, law_words,
};
use crate::laws::values::law_compact_error;
use crate::lookback::{in_bounds, whole_secs, Double, LookbackHours};
use crate::monitor::{
    end_columns, failed_with, finished_columns, reached_after, round_of, step_after_end,
    step_after_insert, step_after_lookup, step_after_refusal, step_to_job, EndData, RoundData,
    StepData,
};
use crate::platform::{debug_form, lossy_form};
use crate::startup::{banner_text, target_lines};
use crate::text::{after_empty_line, decimal, occurs, signed_decimal, word_at};

verus! {

// ---------------------------------------------------------------------------
// Probes
// ---------------------------------------------------------------------------

/// A failed probe keeps its message: all of a line of at most 200 characters
/// without white space at its edges.
pub proof fn law_failure_keeps_its_message(m: Seq<char>)
    requires
        has_clean_edges(m),
        m.len() <= 200,
        !m.contains('\n'),
    ensures
        failed_with(m) == (OutcomeData::Failure { error: m }),
{
    let e = Seq::<char>::empty();
    assert(e + m + e =~= m);
    law_compact_error(e, m, e, e);
}

/// A probe that connects succeeds, with the whole milliseconds since it began.
pub proof fn law_connection_is_a_success(nanos: int)
    requires
        0 <= nanos,
    ensures
        ({
            &&& reached_after(nanos) matches OutcomeData::Success { latency }
            &&& 0 <= latency
            &&& latency * 1_000_000 <= nanos
            &&& latency < i64::MAX ==> nanos < (latency + 1) * 1_000_000
        }),
{
    crate::laws::values::law_milliseconds_fit(nanos);
}

/// After the lookup the first address is tried where there is one; otherwise the
/// probe has failed, with the message of the lookup where that failed.
pub proof fn law_probe_begins_with_the_first_address(count: int, m: Seq<char>)
    ensures
        count > 0 ==> step_after_lookup(Ok(count)) == StepData::Connect(0, count),
        count <= 0 ==> step_after_lookup(Ok(count)) == StepData::Finish(
            failed_with("no addresses resolved"@),
        ),
        step_after_lookup(Err(m)) == StepData::Finish(failed_with(m)),
        failed_with(m) == (OutcomeData::Failure { error: compacted(m) }),
{
}

/// After a refusal the next address is tried where there is one; otherwise the
/// probe has failed with the message of that refusal.
pub proof fn law_probe_goes_on_with_the_next_address(index: int, count: int, m: Seq<char>)
    requires
        0 <= index < count,
    ensures
        index + 1 < count ==> step_after_refusal(index, count, m) == StepData::Connect(
            index + 1,
            count,
        ),
        index + 1 == count ==> step_after_refusal(index, count, m) == StepData::Finish(
            failed_with(m),
        ),
{
}

/// A round probes every target once, in order, and each with the configured
/// timeout.
pub proof fn law_round_probes_every_target(targets: Seq<TargetData>, timeout: u64, i: int)
    ensures
        round_of(targets, timeout).len() == targets.len(),
        0 <= i < targets.len() ==> round_of(targets, timeout)[i].target == targets[i]
            && round_of(targets, timeout)[i].timeout == timeout,
{
}

/// The next job comes up after each, whether the store took the last columns or
/// not, and the round is done after the last. A job that finished has its outcome
/// stored under the name of its target at the time it ended; one that broke down
/// has nothing to store.
pub proof fn law_round_goes_on(
    index: int,
    count: int,
    t: TargetData,
    o: OutcomeData,
    now: i64,
    stored: bool,
)
    requires
        0 <= index < count,
    ensures
        step_after_end(index, count, EndData::Finished(t, o), now) == RoundData::Insert(
            index,
            count,
            crate::db::columns_of(now, t.name, o),
        ),
        end_columns(EndData::Panicked, now) is None,
        step_after_end(index, count, EndData::Panicked, now) == step_after_insert(
            index,
            count,
            stored,
        ),
        index + 1 < count ==> step_after_insert(index, count, stored) == RoundData::Await(
            index + 1,
            count,
        ),
        index + 1 == count ==> step_after_insert(index, count, stored) == RoundData::Done,
        step_to_job(0, count) == RoundData::Await(0, count),
        step_to_job(0, 0) == RoundData::Done,
{
}

/// What a round stores grows by one with every job that finishes, at its end,
/// and not at all with one that breaks down.
pub proof fn law_finished_jobs_are_stored_in_order(ends: Seq<(EndData, i64)>, n: nat)
    requires
        n < ends.len(),
    ensures
        finished_columns(ends, 0).len() == 0,
        match ends[n as int].0 {
            EndData::Finished(t, o) => finished_columns(ends, n + 1) == finished_columns(
                ends,
                n,
            ).push(crate::db::columns_of(ends[n as int].1, t.name, o)),
            EndData::Panicked => finished_columns(ends, n + 1) == finished_columns(ends, n),
        },
{
}

// ---------------------------------------------------------------------------
// Requests
// ---------------------------------------------------------------------------

/// The fleet is online where a target answered: without targets it is not, and
/// one more makes it so exactly where that one answered.
pub proof fn law_one_answer_is_enough(latest: Seq<CheckData>, c: CheckData)
    ensures
        !any_success(Seq::empty()),
        any_success(latest.push(c)) <==> any_success(latest) || c.outcome is Success,
{
    let more = latest.push(c);
    if any_success(latest) {
        let i = choose|i: int| 0 <= i < latest.len() && (#[trigger] latest[i]).outcome is Success;
        assert(more[i].outcome is Success);
    }
    if c.outcome is Success {
        assert(more[latest.len() as int].outcome is Success);
    }
    if any_success(more) && !(c.outcome is Success) {
        let i = choose|i: int| 0 <= i < more.len() && (#[trigger] more[i]).outcome is Success;
        assert(latest[i].outcome is Success);
    }
}

/// What the store gives is handed on; a failure of it is answered with status 500
/// and its message.
pub proof fn law_store_failure_is_told<T>(v: T, e: StoreError)
    ensures
        handled(Ok::<T, StoreError>(v)) == Ok::<T, ApiError>(v),
        handled(Err::<T, StoreError>(e)) == Err::<T, ApiError>(ApiError::Store(e)),
        failure_answer(ApiError::Store(e)).0 == 500,
        failure_answer(ApiError::Store(e)).1 == (match e {
            StoreError::Sqlite(m) => "sqlite error: "@ + m@,
            StoreError::Domain(d) => domain_message(d@),
        }),
{
}

/// A parameter that is out of range is answered with status 422 and the message
/// for it: the hours first, then the target, then the limit. What is valid or
/// absent is not refused.
pub proof fn law_refusal_names_the_parameter(
    hours: Option<Double>,
    target: Option<Seq<char>>,
    limit: Option<usize>,
    e: DomainFault,
)
    ensures
        ({
            let bad_hours = hours is Some && !(0x3fa9_9999_9999_999a <= hours->0.bits
                <= 0x4086_8000_0000_0000);
            let bad_target = target is Some && name_fault(target->0) is Some;
            let bad_limit = limit is Some && !(1 <= limit->0 <= 10000);
            let fault = history_fault(hours, target, limit);
            &&& bad_hours ==> fault == Some(DomainFault::InvalidLookback { hours: hours->0@ })
            &&& bad_hours ==> hours_fault(hours) == fault
            &&& !bad_hours ==> hours_fault(hours) is None
            &&& !bad_hours && bad_target ==> fault == name_fault(target->0)
            &&& !bad_hours && !bad_target && bad_limit ==> fault == Some(
                DomainFault::InvalidHistoryLimit { n: limit->0 },
            )
            &&& !bad_hours && !bad_target && !bad_limit ==> fault is None
        }),
        refusal(Some(e)) == Some((422u16, domain_message(e))),
        refusal(None) is None,
{
}

/// A history request asks for what it says: from its own number of seconds ago
/// on, or without bound where it names no range; for its target, or for all; and
/// for as many as its limit says, or the usual one.
pub proof fn law_history_request_is_kept(
    bits: u64,
    hours: Option<u64>,
    target: Option<Seq<char>>,
    n: usize,
    limit: Option<usize>,
    usual: usize,
    now: i64,
)
    requires
        in_bounds(bits),
        0 <= now,
        n <= 10_000,
        usual <= 10_000,
    ensures
        history_asked(None, target, limit, usual, now).since is None,
        ({
            let since = history_asked(Some(bits), target, limit, usual, now).since;
            &&& since is Some
            &&& whole_secs(bits) <= now ==> since->0 + whole_secs(bits) == now
            &&& whole_secs(bits) > now ==> since->0 == 0
        }),
        history_asked(hours, target, limit, usual, now).target == target,
        history_asked(hours, target, Some(n), usual, now).limit == n,
        history_asked(hours, target, None, usual, now).limit == usual,
{
}

/// The state of the fleet is that of the latest checks: all of them are given,
/// and it is online where one of them succeeded. It is dated now, and has the
/// number of all checks, or zero where that is not known.
pub proof fn law_fleet_state(latest: Seq<CheckData>, total: Option<i64>, n: i64, now: i64)
    ensures
        ({
            let s = fleet_state(latest, total, now);
            &&& s.targets == latest
            &&& s.checked_at == now
            &&& s.online <==> exists|i: int|
                0 <= i < latest.len() && (#[trigger] latest[i]).outcome is Success
        }),
        fleet_state(latest, Some(n), now).total_checks == n,
        fleet_state(latest, None, now).total_checks == 0,
{
}

/// A range ends now and begins its own number of seconds ago; without one, a day
/// ago. It never begins before the epoch.
pub proof fn law_range_begins_its_length_ago(h: LookbackHours, now: i64)
    requires
        in_bounds(h@),
        0 <= now,
    ensures
        whole_secs(h@) <= now ==> range_start(Some(h), now) + whole_secs(h@) == now,
        whole_secs(h@) > now ==> range_start(Some(h), now) == 0,
        86_400 <= now ==> range_start(None, now) + 86_400 == now,
        86_400 > now ==> range_start(None, now) == 0,
{
    crate::lookback::lemma_default_is_one_day();
}

// ---------------------------------------------------------------------------
// The healthcheck
// ---------------------------------------------------------------------------

/// A port is asked as it is written, with white space round it or without, where
/// it is from 1 to 65535.
pub proof fn law_written_port_is_asked(a: Seq<char>, n: nat, b: Seq<char>)
    requires
        is_blank_text(a),
        is_blank_text(b),
    ensures
        1 <= n <= 65535 ==> named_port(a + decimal(n) + b) == Ok::<u16, Seq<char>>(n as u16),
        n == 0 ==> named_port(a + decimal(n) + b) == Err::<u16, Seq<char>>(
            domain_message(DomainFault::InvalidPort { port: 0 }),
        ),
        n > 65535 ==> named_port(a + decimal(n) + b) == Err::<u16, Seq<char>>(
            "invalid port "@ + debug_form(a + decimal(n) + b),
        ),
{
    crate::laws::texts::law_decimal_is_worth_its_number(n);
    let d = decimal(n);
    assert(d.last() == d[d.len() - 1]);
    law_trimming_undoes_padding(a, d, b);
    law_number_is_read_back(n, 65535);
}

/// Without an argument and without a variable, or with a blank one, port 3000 is
/// asked; an argument is asked before the variable.
pub proof fn law_port_has_its_source(arg: Seq<char>, env: Seq<char>)
    ensures
        health_port(None, None) == Ok::<u16, Seq<char>>(3000),
        is_blank_text(env) ==> health_port(None, Some(env)) == Ok::<u16, Seq<char>>(3000),
        !is_blank_text(env) ==> health_port(None, Some(env)) == named_port(env),
        health_port(Some(arg), None) == named_port(arg),
        health_port(Some(arg), Some(env)) == named_port(arg),
{
    crate::laws::texts::law_only_white_space_is_trimmed(env);
}

/// A reply is healthy where the second word of its first line is `200` and the
/// word `ok` stands in quotes behind its first empty line; what is wrong with
/// another is said. `rest` is all that follows the first line.
pub proof fn law_reply_is_judged(
    version: Seq<char>,
    status: Seq<char>,
    reason: Seq<char>,
    rest: Seq<char>,
)
    requires
        is_word(version),
        is_word(status),
        !reason.contains('\n'),
    ensures
        ({
            let line = version + seq![' '] + (status + seq![' '] + reason);
            let fault = reply_fault(line + seq!['\r', '\n'] + rest);
            let ok = occurs(after_empty_line(rest), seq!['"', 'o', 'k', '"']);
            &&& status == seq!['2', '0', '0'] && ok ==> fault is None
            &&& status == seq!['2', '0', '0'] && !ok ==> fault == Some(
                "response is missing the ok body"@,
            )
            &&& status != seq!['2', '0', '0'] ==> fault == Some(
                "unexpected status line "@ + debug_form(line),
            )
        }),
{
    reveal_strlit("200");
    reveal_strlit("\"ok\"");
    assert("200"@ =~= seq!['2', '0', '0']);
    assert("\"ok\""@ =~= seq!['"', 'o', 'k', '"']);
    let tail = status + seq![' '] + reason;
    let line = version + seq![' '] + tail;
    let text = line + seq!['\r', '\n'] + rest;
    assert(word_at(line, 1) == Some(status)) by {
        law_words(version, ' ', tail, 0);
        law_words(status, ' ', reason, 0);
    }
    assert(!line.contains('\n')) by {
        assert forall|i: int| 0 <= i < line.len() implies line[i] != '\n' by {
            if i < version.len() {
                assert(line[i] == version[i]);
            } else if i > version.len() && i < version.len() + 1 + status.len() {
                assert(line[i] == status[i - version.len() - 1]);
            } else if i > version.len() + 1 + status.len() {
                assert(line[i] == reason[i - version.len() - status.len() - 2]);
            }
        }
    }
    law_first_line(line, rest);
    assert(after_empty_line(text) == after_empty_line(rest)) by {
        let l = line.push('\r');
        assert(!l.contains('\n')) by {
            assert forall|i: int| 0 <= i < l.len() implies l[i] != '\n' by {
                if i < line.len() {
                    assert(l[i] == line[i]);
                }
            }
        }
        assert(l.len() > 1);
        law_empty_line(l, rest);
        assert(l + seq!['\n'] + rest =~= text);
    }
}

/// The exit code is zero where nothing is wrong with the reply, and one where
/// something is, or where there was none.
pub proof fn law_exit_code(bytes: Seq<u8>, m: Seq<char>)
    ensures
        exit_code(Ok(bytes)) == 0 <==> reply_fault(lossy_form(bytes)) is None,
        exit_code(Ok(bytes)) == 1 <==> reply_fault(lossy_form(bytes)) is Some,
        exit_code(Err(m)) == 1,
        exchange_fault(Err(m)) == Some(m),
        exchange_fault(Ok(bytes)) == reply_fault(lossy_form(bytes)),
        report_line(Err(m)) == "healthcheck: unhealthy: "@ + m,
        report_line(Ok(bytes)) == (match reply_fault(lossy_form(bytes)) {
            None => "ok"@,
            Some(w) => "healthcheck: unhealthy: "@ + w,
        }),
{
}

// ---------------------------------------------------------------------------
// What is printed
// ---------------------------------------------------------------------------

/// The banner begins with where the program listens, its database and its pace,
/// then counts the targets, and then has a line for each.
pub proof fn law_banner(c: ConfigData)
    ensures
        banner_text(c) == "netmon up on http://localhost:"@ + decimal(c.port as nat) + "  (db="@
            + c.db_path + ", every "@ + decimal(c.interval as nat) + "s)\n"@ + "targets ("@
            + decimal(c.targets.len()) + "):\n"@ + target_lines(c.targets),
{
}

/// The lines of two lists of targets are those of the first and then those of
/// the second, and one target has one line.
pub proof fn law_every_target_has_a_line(ts: Seq<TargetData>, us: Seq<TargetData>, t: TargetData)
    ensures
        target_lines(ts + us) == target_lines(ts) + target_lines(us),
        target_lines(seq![t]) == "  - "@ + target_form(t) + "\n"@,
        target_lines(Seq::empty()) == Seq::<char>::empty(),
    decreases us.len(),
{
    let e = Seq::<char>::empty();
    assert(seq![t].drop_last() =~= Seq::empty());
    assert(target_lines(seq![t].drop_last()) == e);
    assert(e + "  - "@ + target_form(t) + "\n"@ =~= "  - "@ + target_form(t) + "\n"@);
    if us.len() == 0 {
        assert(ts + us =~= ts);
        assert(target_lines(ts) + e =~= target_lines(ts));
    } else {
        law_every_target_has_a_line(ts, us.drop_last(), t);
        assert((ts + us).drop_last() =~= ts + us.drop_last());
        assert((ts + us).last() == us.last());
        let x = target_lines(ts);
        let y = target_lines(us.drop_last());
        let z = target_form(us.last());
        assert(x + y + "  - "@ + z + "\n"@ =~= x + (y + "  - "@ + z + "\n"@));
    }
}

/// A refusal tells the value that is refused and what is accepted.
pub proof fn law_refusals_tell_the_value(
    len: usize,
    max: usize,
    port: u16,
    secs: u64,
    ms: i64,
    text: Seq<char>,
    reason: Seq<char>,
)
    ensures
        domain_message(DomainFault::TargetNameTooLong { len, max }) == "target name too long: "@
            + decimal(len as nat) + " > "@ + decimal(max as nat),
        domain_message(DomainFault::HostTooLong { len, max }) == "host too long: "@ + decimal(
            len as nat,
        ) + " > "@ + decimal(max as nat),
        domain_message(DomainFault::InvalidHost { host: text, reason }) == "invalid host "@
            + debug_form(text) + ": "@ + reason,
        domain_message(DomainFault::InvalidPort { port }) == "invalid port "@ + decimal(
            port as nat,
        ) + ": must be 1..=65535"@,
        domain_message(DomainFault::InvalidInterval { secs }) == "invalid check interval "@
            + decimal(secs as nat) + "s: must be 1..=3600"@,
        domain_message(DomainFault::InvalidTimeout { secs }) == "invalid probe timeout "@
            + decimal(secs as nat) + "s: must be 1..=60"@,
        domain_message(DomainFault::InvalidHistoryLimit { n: len }) == "invalid history limit "@
            + decimal(len as nat) + ": must be 1..=10000"@,
        domain_message(DomainFault::NegativeLatency { ms }) == "negative latency "@
            + signed_decimal(ms as int) + "ms"@,
        domain_message(DomainFault::DuplicateTarget { name: text }) == "duplicate target name "@
            + debug_form(text),
        config_message(ConfigFault::InvalidFile { path: text, reason }) == "invalid config file "@
            + debug_form(text) + ": "@ + reason,
        config_message(
            ConfigFault::InvalidTargetEntry { index: len, entry: text, reason },
        ) == "invalid TARGETS entry "@ + decimal(len as nat) + ": "@ + debug_form(text) + " ("@
            + reason + ")"@,
{
}

} // verus!
