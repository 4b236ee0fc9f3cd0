//! Laws of single values: what each type accepts, and what becomes of it.

use vstd::prelude::*;
use vstd::utf8::*;

use crate::domain::{
    clamped, clock_time, compacted, date_secs, elapsed_ms, failures, first_repeat, has_blank,
    has_url_mark, hint_form, host_fault, interval_fault, is_blank, is_url_mark, latency_fault,
    limit_fault, name_fault, names_of, outcome_row, path_fault, path_names, path_steps,
    port_fault, row_outcome, target_fault, target_form, targets_fault, timeout_fault, OutcomeData,
    TargetData,
};
use crate::error::DomainFault;
use crate::laws::texts::{
    has_clean_edges, is_blank_text, law_first_line, law_only_white_space_is_trimmed,
    law_split_at_every_separator, law_trimming_undoes_padding,
};
use crate::lookback::{is_nan, same_number};
use crate::text::{decimal, is_control, is_white_space, parts};

verus! {

// ---------------------------------------------------------------------------
// Numbers
// ---------------------------------------------------------------------------

/// Ports run from 1, check intervals from 1 to 3600 seconds, probe timeouts from
/// 1 to 60 seconds, limits from 1 to 10000 and latencies from zero. What is out
/// of range is refused with the number itself.
pub proof fn law_number_ranges(port: u16, secs: u64, n: usize, ms: i64)
    ensures
        port >= 1 ==> port_fault(port) is None,
        port < 1 ==> port_fault(port) == Some(DomainFault::InvalidPort { port }),
        1 <= secs <= 3600 ==> interval_fault(secs) is None,
        !(1 <= secs <= 3600) ==> interval_fault(secs) == Some(
            DomainFault::InvalidInterval { secs },
        ),
        1 <= secs <= 60 ==> timeout_fault(secs) is None,
        !(1 <= secs <= 60) ==> timeout_fault(secs) == Some(DomainFault::InvalidTimeout { secs }),
        1 <= n <= 10000 ==> limit_fault(n) is None,
        !(1 <= n <= 10000) ==> limit_fault(n) == Some(DomainFault::InvalidHistoryLimit { n }),
        ms >= 0 ==> latency_fault(ms) is None,
        ms < 0 ==> latency_fault(ms) == Some(DomainFault::NegativeLatency { ms }),
{
}

/// A timestamp that is not negative is kept, and is its own date up to the end of
/// the year 262142; a negative one counts as the epoch.
pub proof fn law_timestamps(ts: i64)
    ensures
        ts >= 0 ==> clamped(ts) == ts,
        ts < 0 ==> clamped(ts) == 0,
        0 <= ts <= 8_210_266_876_799 ==> date_secs(ts) == ts,
        ts > 8_210_266_876_799 ==> date_secs(ts) == 0,
{
}

/// A reading of the clock is the time, from the epoch up to the largest that can
/// be held.
pub proof fn law_clock(secs: u64)
    ensures
        secs <= i64::MAX ==> clock_time(Some(secs)) == secs,
        secs > i64::MAX ==> clock_time(Some(secs)) == 0,
        clock_time(None) == 0,
{
}

/// Milliseconds are whole: as many as fit into the time, and one more does not.
pub proof fn law_milliseconds_fit(nanos: int)
    requires
        0 <= nanos,
    ensures
        0 <= elapsed_ms(nanos) <= i64::MAX,
        elapsed_ms(nanos) * 1_000_000 <= nanos,
        elapsed_ms(nanos) < i64::MAX ==> nanos < (elapsed_ms(nanos) + 1) * 1_000_000,
{
}

/// What did not succeed failed, and there are never fewer failures than none.
pub proof fn law_failures(total: i64, success: i64)
    ensures
        success <= total ==> failures(total, success) + success == total,
        success > total ==> failures(total, success) == 0,
{
}

/// Numbers are equal where their patterns are, and the two zeros are equal too;
/// what is no number equals nothing, not even itself.
pub proof fn law_equal_numbers(a: u64, b: u64)
    ensures
        same_number(a, b) == same_number(b, a),
        is_nan(a) <==> 0x7ff0_0000_0000_0000 < a < 0x8000_0000_0000_0000 || a
            > 0xfff0_0000_0000_0000,
        is_nan(a) ==> !same_number(a, b),
        !is_nan(a) ==> same_number(a, a),
        same_number(0, 0x8000_0000_0000_0000),
        same_number(a, b) && a != b ==> {
            ||| a == 0 && b == 0x8000_0000_0000_0000
            ||| b == 0 && a == 0x8000_0000_0000_0000
        },
{
}

// ---------------------------------------------------------------------------
// Texts
// ---------------------------------------------------------------------------

/// A target name may have white space around it, which does not count. It is
/// refused where nothing else is there, or where more than 64 bytes are.
pub proof fn law_target_name(a: Seq<char>, s: Seq<char>, b: Seq<char>)
    requires
        is_blank_text(a),
        is_blank_text(b),
        has_clean_edges(s) || s.len() == 0,
    ensures
        s.len() == 0 ==> name_fault(a + s + b) == Some(DomainFault::EmptyTargetName),
        s.len() > 0 && encode_utf8(s).len() <= 64 ==> name_fault(a + s + b) is None,
        s.len() > 0 && encode_utf8(s).len() > 64 ==> name_fault(a + s + b) == Some(
            DomainFault::TargetNameTooLong { len: encode_utf8(s).len() as usize, max: 64 },
        ),
{
    law_trimming_undoes_padding(a, s, b);
}

/// Does `s` hold a character that no host may have: white space or a control
/// character?
pub open spec fn holds_blank(s: Seq<char>) -> bool {
    exists|i: int| 0 <= i < s.len() && (is_white_space(#[trigger] s[i]) || is_control(s[i]))
}

/// Does `s` hold a character of a URL that no host has?
pub open spec fn holds_mark(s: Seq<char>) -> bool {
    s.contains('/') || s.contains('@') || s.contains('?') || s.contains('#')
}

/// A host may have white space around it, which does not count. It is refused
/// where nothing else is there, where more than 253 bytes are, where white space
/// or a control character is inside, or where it looks like a URL.
pub proof fn law_host(a: Seq<char>, s: Seq<char>, b: Seq<char>)
    requires
        is_blank_text(a),
        is_blank_text(b),
        has_clean_edges(s) || s.len() == 0,
    ensures
        ({
            let fault = host_fault(a + s + b);
            let size = encode_utf8(s).len();
            &&& s.len() == 0 ==> fault == Some(DomainFault::EmptyHost)
            &&& s.len() > 0 && size > 253 ==> fault == Some(
                DomainFault::HostTooLong { len: size as usize, max: 253 },
            )
            &&& s.len() > 0 && size <= 253 && holds_blank(s) ==> fault == Some(
                DomainFault::InvalidHost {
                    host: s,
                    reason: "must not contain whitespace or control characters"@,
                },
            )
            &&& s.len() > 0 && size <= 253 && !holds_blank(s) && holds_mark(s) ==> fault == Some(
                DomainFault::InvalidHost {
                    host: s,
                    reason: "must be a bare hostname/IP, not a URL"@,
                },
            )
            &&& s.len() > 0 && size <= 253 && !holds_blank(s) && !holds_mark(s) ==> fault is None
        }),
{
    law_trimming_undoes_padding(a, s, b);
    if holds_blank(s) {
        let i = choose|i: int|
            0 <= i < s.len() && (is_white_space(#[trigger] s[i]) || is_control(s[i]));
        assert(is_blank(s[i]));
        assert(has_blank(s));
    } else {
        assert(!has_blank(s)) by {
            assert forall|i: int| 0 <= i < s.len() implies !is_blank(#[trigger] s[i]) by {}
        }
    }
    if holds_mark(s) {
        let c = if s.contains('/') {
            '/'
        } else if s.contains('@') {
            '@'
        } else if s.contains('?') {
            '?'
        } else {
            '#'
        };
        assert(s.contains(c));
        let i = choose|i: int| 0 <= i < s.len() && s[i] == c;
        assert(is_url_mark(s[i]));
        assert(has_url_mark(s));
    } else {
        assert(!has_url_mark(s)) by {
            assert forall|i: int| 0 <= i < s.len() implies !is_url_mark(#[trigger] s[i]) by {
                assert(s.contains(s[i]));
            }
        }
    }
}

/// A database path is refused exactly where nothing but white space is there.
pub proof fn law_database_path(s: Seq<char>)
    ensures
        is_blank_text(s) ==> path_fault(s) == Some(DomainFault::EmptyDbPath),
        !is_blank_text(s) ==> path_fault(s) is None,
{
    law_only_white_space_is_trimmed(s);
}

/// Of an error text the first line is kept, without white space around it, and
/// of a long one the first 200 characters; where nothing is there, a standing
/// phrase.
pub proof fn law_compact_error(a: Seq<char>, s: Seq<char>, b: Seq<char>, rest: Seq<char>)
    requires
        is_blank_text(a),
        is_blank_text(b),
        has_clean_edges(s) || s.len() == 0,
        !(a + s + b).contains('\n'),
    ensures
        ({
            let line = a + s + b;
            let kept = if s.len() == 0 {
                "unknown error"@
            } else if s.len() <= 200 {
                s
            } else {
                s.take(200)
            };
            &&& compacted(line) == kept
            &&& compacted(line + seq!['\r', '\n'] + rest) == kept
            &&& line.len() == 0 || line.last() != '\r' ==> compacted(line + seq!['\n'] + rest)
                == kept
        }),
{
    law_trimming_undoes_padding(a, s, b);
    law_first_line(a + s + b, rest);
    reveal_strlit("unknown error");
}

// ---------------------------------------------------------------------------
// Outcomes
// ---------------------------------------------------------------------------

/// A success is stored as one with its latency and no error, a failure as zero
/// with its error and no latency.
pub proof fn law_outcome_columns(latency: i64, error: Seq<char>)
    ensures
        outcome_row(OutcomeData::Success { latency }) == (1i64, Some(latency), None::<Seq<char>>),
        outcome_row(OutcomeData::Failure { error }) == (0i64, None::<i64>, Some(error)),
{
}

/// Stored columns are read as they say. A success without latency took no time;
/// one with an error or with a negative latency is refused. A failure keeps its
/// error, compacted, whatever its latency.
pub proof fn law_columns_are_read(ms: i64, latency: Option<i64>, error: Seq<char>)
    ensures
        ms >= 0 ==> row_outcome(true, Some(ms), None) == Ok::<OutcomeData, DomainFault>(
            OutcomeData::Success { latency: ms },
        ),
        ms < 0 ==> row_outcome(true, Some(ms), None) == Err::<OutcomeData, DomainFault>(
            DomainFault::NegativeLatency { ms },
        ),
        row_outcome(true, None, None) == Ok::<OutcomeData, DomainFault>(
            OutcomeData::Success { latency: 0 },
        ),
        row_outcome(true, latency, Some(error)) == Err::<OutcomeData, DomainFault>(
            DomainFault::InconsistentCheckRow {
                success: true,
                latency_ms: latency,
                has_error: true,
            },
        ),
        row_outcome(false, latency, Some(error)) == Ok::<OutcomeData, DomainFault>(
            OutcomeData::Failure { error: compacted(error) },
        ),
        row_outcome(false, latency, None) == Ok::<OutcomeData, DomainFault>(
            OutcomeData::Failure { error: "check failed"@ },
        ),
{
    let s = "check failed"@;
    let e = Seq::<char>::empty();
    reveal_strlit("check failed");
    assert(e + s + e =~= s);
    assert(!s.contains('\n'));
    law_compact_error(e, s, e, e);
}

// ---------------------------------------------------------------------------
// Targets
// ---------------------------------------------------------------------------

/// A target is what its name, its host and its port make; the first of them that
/// is refused is why it is.
pub proof fn law_target_parts(name: Seq<char>, host: Seq<char>, port: u16)
    ensures
        target_fault(name, host, port) is None <==> name_fault(name) is None && host_fault(host)
            is None && port != 0,
        name_fault(name) is Some ==> target_fault(name, host, port) == name_fault(name),
        name_fault(name) is None && host_fault(host) is Some ==> target_fault(name, host, port)
            == host_fault(host),
        name_fault(name) is None && host_fault(host) is None && port == 0 ==> target_fault(
            name,
            host,
            port,
        ) == Some(DomainFault::InvalidPort { port }),
{
}

/// A target is looked up as its host and its port with a colon between, and is
/// shown as its name with that in brackets behind it.
pub proof fn law_target_is_shown(t: TargetData)
    ensures
        hint_form(t.host, t.port) == t.host + seq![':'] + decimal(t.port as nat),
        target_form(t) == t.name + seq![' ', '('] + hint_form(t.host, t.port) + seq![')'],
{
    reveal_strlit(":");
    reveal_strlit(" (");
    reveal_strlit(")");
    assert(":"@ =~= seq![':']);
    assert(" ("@ =~= seq![' ', '(']);
    assert(")"@ =~= seq![')']);
    assert(target_form(t) =~= t.name + seq![' ', '('] + hint_form(t.host, t.port) + seq![')']);
}

proof fn lemma_first_repeat_is_first(names: Seq<Seq<char>>)
    requires
        first_repeat(names) is Some,
    ensures
        exists|i: int, j: int|
            #![trigger names[i], names[j]]
            0 <= i < j < names.len() && names[i] == names[j] && names[j] == first_repeat(names)->0
                && forall|k: int, l: int|
                #![trigger names[k], names[l]]
                0 <= k < l < j ==> names[k] != names[l],
    decreases names.len(),
{
    let rest = names.drop_last();
    if first_repeat(rest) is Some {
        lemma_first_repeat_is_first(rest);
        let (i, j) = choose|i: int, j: int|
            #![trigger rest[i], rest[j]]
            0 <= i < j < rest.len() && rest[i] == rest[j] && rest[j] == first_repeat(rest)->0
                && forall|k: int, l: int|
                #![trigger rest[k], rest[l]]
                0 <= k < l < j ==> rest[k] != rest[l];
        assert(names[i] == rest[i] && names[j] == rest[j]);
        assert forall|k: int, l: int|
            #![trigger names[k], names[l]]
            0 <= k < l < j implies names[k] != names[l] by {
            assert(rest[k] == names[k] && rest[l] == names[l]);
        }
    } else {
        crate::domain::lemma_first_repeat(rest);
        let i = choose|i: int| 0 <= i < rest.len() && rest[i] == names.last();
        let j = names.len() - 1;
        assert(names[i] == rest[i] && names[j] == names.last());
        assert forall|k: int, l: int|
            #![trigger names[k], names[l]]
            0 <= k < l < j implies names[k] != names[l] by {
            assert(rest[k] == names[k] && rest[l] == names[l]);
        }
    }
}

/// A list of targets is accepted where it is not empty and no two have the same
/// name; otherwise the first name that comes a second time is why it is not.
pub proof fn law_targets_have_different_names(ts: Seq<TargetData>)
    ensures
        ts.len() == 0 ==> targets_fault(ts) == Some(DomainFault::NoTargets),
        targets_fault(ts) is None <==> ts.len() > 0 && forall|i: int, j: int|
            #![trigger ts[i], ts[j]]
            0 <= i < j < ts.len() ==> ts[i].name != ts[j].name,
        ts.len() > 0 && targets_fault(ts) is Some ==> exists|i: int, j: int|
            #![trigger ts[i], ts[j]]
            0 <= i < j < ts.len() && ts[i].name == ts[j].name && targets_fault(ts) == Some(
                DomainFault::DuplicateTarget { name: ts[j].name },
            ) && forall|k: int, l: int|
                #![trigger ts[k], ts[l]]
                0 <= k < l < j ==> ts[k].name != ts[l].name,
{
    let names = names_of(ts);
    crate::domain::lemma_first_repeat(names);
    if ts.len() > 0 && targets_fault(ts) is None {
        assert forall|i: int, j: int|
            #![trigger ts[i], ts[j]]
            0 <= i < j < ts.len() implies ts[i].name != ts[j].name by {
            assert(names[i] != names[j]);
        }
    }
    if ts.len() > 0 && targets_fault(ts) is Some {
        lemma_first_repeat_is_first(names);
        let (i, j) = choose|i: int, j: int|
            #![trigger names[i], names[j]]
            0 <= i < j < names.len() && names[i] == names[j] && names[j] == first_repeat(names)->0
                && forall|k: int, l: int|
                #![trigger names[k], names[l]]
                0 <= k < l < j ==> names[k] != names[l];
        assert(ts[i].name == names[i] && ts[j].name == names[j]);
        assert forall|k: int, l: int|
            #![trigger ts[k], ts[l]]
            0 <= k < l < j implies ts[k].name != ts[l].name by {
            assert(names[k] != names[l]);
        }
    }
}

// ---------------------------------------------------------------------------
// Paths
// ---------------------------------------------------------------------------

proof fn lemma_path_names_of_prefix(ps: Seq<Seq<char>>, qs: Seq<Seq<char>>, n: nat)
    requires
        n <= ps.len(),
    ensures
        path_names(ps + qs, n) == path_names(ps, n),
    decreases n,
{
    if n > 0 {
        lemma_path_names_of_prefix(ps, qs, (n - 1) as nat);
        assert((ps + qs)[n - 1] == ps[n - 1]);
    }
}

/// A path leads through its names, one after the other. An empty name, as between
/// two separators or behind the last, is no step, nor is a dot; a path begins at
/// the root exactly where it begins with a separator.
pub proof fn law_path_steps(s: Seq<char>, name: Seq<char>)
    requires
        s.len() > 0,
        !name.contains('/'),
    ensures
        path_steps(s).0 <==> s[0] == '/',
        path_steps(s + seq!['/']) == path_steps(s),
        path_steps(s + seq!['/', '.']) == path_steps(s),
        name.len() > 0 && name != seq!['.'] ==> path_steps(s + seq!['/'] + name) == (
            path_steps(s).0,
            path_steps(s).1.push(name),
        ),
        name.len() > 0 ==> path_steps(name) == (false, seq![name]),
{
    reveal_strlit(".");
    assert("."@ =~= seq!['.']);
    let ps = parts(s, '/');
    let e = Seq::<char>::empty();
    let dot = seq!['.'];
    lemma_parts_not_empty(s);
    law_split_at_every_separator(s, '/', name);
    law_split_at_every_separator(s, '/', e);
    law_split_at_every_separator(s, '/', dot);
    law_split_at_every_separator(name, '/', e);
    law_split_at_every_separator(e, '/', e);
    law_split_at_every_separator(dot, '/', e);
    assert(!e.contains('/'));
    assert(!dot.contains('/'));
    assert(s + seq!['/'] + e =~= s + seq!['/']);
    assert(s + seq!['/'] + dot =~= s + seq!['/', '.']);
    lemma_path_names_of_prefix(ps, seq![name], ps.len());
    lemma_path_names_of_prefix(ps, seq![e], ps.len());
    lemma_path_names_of_prefix(ps, seq![dot], ps.len());
    assert((s + seq!['/'])[0] == s[0]);
    assert((s + seq!['/', '.'])[0] == s[0]);
    assert((s + seq!['/'] + name)[0] == s[0]);
    if name.len() > 0 {
        assert(name.contains(name[0]));
        assert(path_names(seq![name], 0) =~= Seq::empty());
        assert(path_names(seq![name], 1) =~= seq![name]);
    }
}

proof fn lemma_parts_not_empty(s: Seq<char>)
    ensures
        parts(s, '/').len() > 0,
{
}

} // verus!
