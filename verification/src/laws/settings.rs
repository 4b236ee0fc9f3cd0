//! Laws of the settings: how a list of targets is read, and where each setting of
//! the configuration comes from.

use vstd::prelude::*;

use crate::config::{
    default_targets, entry_target, listed, loaded, long_setting, no_env, no_settings, short_setting,
    target_list, text_setting, ConfigData, EnvData, FileData, SettingsData,
};
use crate::domain::{target_fault, targets_fault, TargetData};
use crate::error::{domain_message, ConfigFault, DomainFault};
use crate::laws::texts::{
    has_clean_edges, is_blank_text, law_cut_at_the_first, law_cut_at_the_last,
    law_decimal_is_worth_its_number, law_number_is_read_back, law_only_digits_are_read,
    law_only_white_space_is_trimmed, law_split_at_every_separator, law_trimming_undoes_padding,
};
use crate::laws::values::law_targets_have_different_names;
use crate::platform::debug_form;
use crate::text::{cut_first, cut_last, decimal, is_white_space, number, parts, trimmed};

verus! {

// ---------------------------------------------------------------------------
// Lists of targets
// ---------------------------------------------------------------------------

proof fn lemma_listed_prefix(ps: Seq<Seq<char>>, qs: Seq<Seq<char>>, n: nat)
    requires
        n <= ps.len(),
    ensures
        listed(ps + qs, n) == listed(ps, n),
    decreases n,
{
    if n > 0 {
        lemma_listed_prefix(ps, qs, (n - 1) as nat);
        assert((ps + qs)[n - 1] == ps[n - 1]);
    }
}

proof fn lemma_listed_error(ps: Seq<Seq<char>>, k: nat, n: nat)
    requires
        k <= n,
        listed(ps, k) is Err,
    ensures
        listed(ps, n) == listed(ps, k),
    decreases n,
{
    if k < n {
        lemma_listed_error(ps, k, (n - 1) as nat);
    }
}

proof fn lemma_listed_suffix(ps: Seq<Seq<char>>, qs: Seq<Seq<char>>, n: nat)
    requires
        n <= qs.len(),
        listed(ps, ps.len()) is Ok,
        ps.len() + qs.len() <= usize::MAX,
    ensures
        match listed(qs, n) {
            Ok(y) => listed(ps + qs, ps.len() + n) == Ok::<Seq<TargetData>, ConfigFault>(
                listed(ps, ps.len())->Ok_0 + y,
            ),
            Err(e) => {
                &&& e matches ConfigFault::InvalidTargetEntry { index, entry, reason }
                &&& index < n
                &&& listed(ps + qs, ps.len() + n) == Err::<Seq<TargetData>, ConfigFault>(
                    ConfigFault::InvalidTargetEntry {
                        index: (index + ps.len()) as usize,
                        entry,
                        reason,
                    },
                )
            },
        },
    decreases n,
{
    let x = listed(ps, ps.len())->Ok_0;
    if n == 0 {
        lemma_listed_prefix(ps, qs, ps.len());
        assert(x + Seq::<TargetData>::empty() =~= x);
    } else {
        let m = (n - 1) as nat;
        lemma_listed_suffix(ps, qs, m);
        assert((ps + qs)[(ps.len() + m) as int] == qs[m as int]);
        let part = trimmed(qs[m as int]);
        if listed(qs, m) is Ok && part.len() > 0 {
            let y = listed(qs, m)->Ok_0;
            let there = entry_target((ps.len() + m) as int, part);
            match entry_target(m as int, part) {
                Ok(t) => {
                    assert(there == Ok::<TargetData, ConfigFault>(t));
                    assert((x + y).push(t) =~= x + y.push(t));
                },
                Err(e) => {},
            }
        }
    }
}

/// Lists are read one after the other: the targets of two lists with a comma
/// between them are those of the first and then those of the second. A fault of
/// the first is the fault of both; a fault of the second is too, its entry
/// counted from the start.
pub proof fn law_lists_are_read_in_order(a: Seq<char>, b: Seq<char>)
    requires
        parts(a, ',').len() + parts(b, ',').len() <= usize::MAX,
    ensures
        ({
            let both = target_list(a + seq![','] + b);
            match target_list(a) {
                Err(e) => both == Err::<Seq<TargetData>, ConfigFault>(e),
                Ok(x) => match target_list(b) {
                    Ok(y) => both == Ok::<Seq<TargetData>, ConfigFault>(x + y),
                    Err(e) => {
                        &&& e matches ConfigFault::InvalidTargetEntry { index, entry, reason }
                        &&& both == Err::<Seq<TargetData>, ConfigFault>(
                            ConfigFault::InvalidTargetEntry {
                                index: (index + parts(a, ',').len()) as usize,
                                entry,
                                reason,
                            },
                        )
                    },
                },
            }
        }),
{
    let ps = parts(a, ',');
    let qs = parts(b, ',');
    law_split_at_every_separator(a, ',', b);
    lemma_listed_prefix(ps, qs, ps.len());
    if target_list(a) is Err {
        lemma_listed_error(ps + qs, ps.len(), (ps + qs).len());
    } else {
        lemma_listed_suffix(ps, qs, qs.len());
    }
}

proof fn lemma_one_entry(s: Seq<char>)
    requires
        !s.contains(','),
    ensures
        trimmed(s).len() == 0 ==> target_list(s) == Ok::<Seq<TargetData>, ConfigFault>(
            Seq::empty(),
        ),
        trimmed(s).len() > 0 ==> target_list(s) == (match entry_target(0, trimmed(s)) {
            Ok(t) => Ok::<Seq<TargetData>, ConfigFault>(seq![t]),
            Err(e) => Err(e),
        }),
{
    law_split_at_every_separator(s, ',', s);
    let ps = seq![s];
    assert(listed(ps, 0) == Ok::<Seq<TargetData>, ConfigFault>(Seq::empty()));
    assert(ps[0] == s);
    if trimmed(s).len() > 0 {
        if let Ok(t) = entry_target(0, trimmed(s)) {
            assert(Seq::empty().push(t) =~= seq![t]);
        }
    }
}

/// White space alone lists nothing.
pub proof fn law_blank_list(s: Seq<char>)
    requires
        is_blank_text(s),
    ensures
        target_list(s) == Ok::<Seq<TargetData>, ConfigFault>(Seq::empty()),
{
    law_only_white_space_is_trimmed(s);
    assert(!s.contains(',')) by {
        assert forall|i: int| 0 <= i < s.len() implies s[i] != ',' by {
            assert(is_white_space(s[i]));
        }
    }
    lemma_one_entry(s);
}

proof fn lemma_blank_holds_no_mark(s: Seq<char>)
    requires
        is_blank_text(s),
    ensures
        !s.contains(','),
        !s.contains('='),
        !s.contains(':'),
{
    assert forall|i: int| 0 <= i < s.len() implies s[i] != ',' && s[i] != '=' && s[i] != ':' by {
        assert(is_white_space(s[i]));
    }
}

proof fn lemma_joined_holds(a: Seq<char>, b: Seq<char>, c: char)
    requires
        !a.contains(c),
        !b.contains(c),
    ensures
        !(a + b).contains(c),
{
    assert forall|i: int| 0 <= i < (a + b).len() implies (a + b)[i] != c by {
        if i < a.len() {
            assert((a + b)[i] == a[i]);
        } else {
            assert((a + b)[i] == b[i - a.len()]);
        }
    }
}

/// What is made of the three parts of an entry, whose text is `entry`.
pub open spec fn made_of(
    entry: Seq<char>,
    name: Seq<char>,
    host: Seq<char>,
    port_text: Seq<char>,
    port: Option<nat>,
) -> Result<Seq<TargetData>, ConfigFault> {
    match port {
        None => Err(
            ConfigFault::InvalidTargetEntry {
                index: 0,
                entry,
                reason: "invalid port "@ + debug_form(port_text),
            },
        ),
        Some(p) => match target_fault(name, host, p as u16) {
            Some(f) => Err(
                ConfigFault::InvalidTargetEntry { index: 0, entry, reason: domain_message(f) },
            ),
            None => Ok(seq![TargetData { name, host, port: p as u16 }]),
        },
    }
}

/// A named entry is read as it was written: a name, an equals sign, a host, a
/// colon and a port, with any white space round each, stand for the target with
/// that name, that host and that port. The name ends at the first equals sign,
/// the host at the last colon; what is refused is refused by this entry.
pub proof fn law_named_entry_is_read_back(
    pad: Seq<Seq<char>>,
    name: Seq<char>,
    host: Seq<char>,
    port: Seq<char>,
)
    requires
        pad.len() == 6,
        forall|i: int| 0 <= i < 6 ==> is_blank_text(#[trigger] pad[i]),
        has_clean_edges(name),
        has_clean_edges(host),
        has_clean_edges(port),
        !name.contains(','),
        !name.contains('='),
        !host.contains(','),
        !port.contains(','),
        !port.contains(':'),
    ensures
        ({
            let entry = name + pad[1] + seq!['='] + (pad[2] + host + pad[3] + seq![':'] + (pad[4]
                + port));
            target_list(pad[0] + entry + pad[5]) == made_of(
                entry,
                name,
                host,
                pad[4] + port,
                number(port, 65535),
            )
        }),
{
    let e = Seq::<char>::empty();
    let tail = pad[4] + port;
    let inner = host + pad[3] + seq![':'] + tail;
    let addr = pad[2] + host + pad[3] + seq![':'] + tail;
    let entry = name + pad[1] + seq!['='] + addr;
    let raw = pad[0] + entry + pad[5];
    assert(is_blank_text(pad[0]) && is_blank_text(pad[1]) && is_blank_text(pad[2]));
    assert(is_blank_text(pad[3]) && is_blank_text(pad[4]) && is_blank_text(pad[5]));
    assert(tail.last() == port.last() && inner.last() == tail.last());
    assert(!raw.contains(',')) by {
        lemma_blank_holds_no_mark(pad[0]);
        lemma_blank_holds_no_mark(pad[1]);
        lemma_blank_holds_no_mark(pad[2]);
        lemma_blank_holds_no_mark(pad[3]);
        lemma_blank_holds_no_mark(pad[4]);
        lemma_blank_holds_no_mark(pad[5]);
        assert(!seq!['='].contains(',') && !seq![':'].contains(','));
        lemma_joined_holds(pad[4], port, ',');
        lemma_joined_holds(pad[2], host, ',');
        lemma_joined_holds(pad[2] + host, pad[3], ',');
        lemma_joined_holds(pad[2] + host + pad[3], seq![':'], ',');
        lemma_joined_holds(pad[2] + host + pad[3] + seq![':'], tail, ',');
        lemma_joined_holds(name, pad[1], ',');
        lemma_joined_holds(name + pad[1], seq!['='], ',');
        lemma_joined_holds(name + pad[1] + seq!['='], addr, ',');
        lemma_joined_holds(pad[0], entry, ',');
        lemma_joined_holds(pad[0] + entry, pad[5], ',');
    }
    // The entry is what the outer white space stands around.
    assert(trimmed(raw) == entry) by {
        assert(entry[0] == name[0]);
        assert(entry.last() == addr.last() && addr.last() == tail.last());
        law_trimming_undoes_padding(pad[0], entry, pad[5]);
    }
    // It is cut at its first equals sign.
    assert(cut_first(entry, '=') == Some((name + pad[1], addr))) by {
        lemma_blank_holds_no_mark(pad[1]);
        lemma_joined_holds(name, pad[1], '=');
        law_cut_at_the_first(name + pad[1], '=', addr);
    }
    assert(trimmed(name + pad[1]) == name) by {
        law_trimming_undoes_padding(e, name, pad[1]);
        assert(e + name + pad[1] =~= name + pad[1]);
    }
    assert(trimmed(addr) == inner) by {
        assert(inner[0] == host[0]);
        law_trimming_undoes_padding(pad[2], inner, e);
        assert(pad[2] + inner + e =~= addr);
    }
    // The address is cut at its last colon.
    assert(cut_last(inner, ':') == Some((host + pad[3], tail))) by {
        lemma_blank_holds_no_mark(pad[4]);
        lemma_joined_holds(pad[4], port, ':');
        law_cut_at_the_last(host + pad[3], ':', tail);
    }
    assert(trimmed(host + pad[3]) == host) by {
        law_trimming_undoes_padding(e, host, pad[3]);
        assert(e + host + pad[3] =~= host + pad[3]);
    }
    assert(trimmed(tail) == port) by {
        law_trimming_undoes_padding(pad[4], port, e);
        assert(pad[4] + port + e =~= tail);
    }
    lemma_clean_text_is_kept(name);
    lemma_clean_text_is_kept(host);
    lemma_one_entry(raw);
}

/// A bare entry is read as it was written: a host, a colon and a port stand for
/// the target with that host and that port, whose name is the entry itself.
pub proof fn law_bare_entry_is_read_back(host: Seq<char>, port: Seq<char>)
    requires
        has_clean_edges(host),
        has_clean_edges(port),
        !host.contains(','),
        !host.contains('='),
        !port.contains(','),
        !port.contains('='),
        !port.contains(':'),
    ensures
        ({
            let entry = host + seq![':'] + port;
            target_list(entry) == made_of(entry, entry, host, port, number(port, 65535))
        }),
{
    let entry = host + seq![':'] + port;
    assert(!entry.contains(',') && !entry.contains('=')) by {
        assert(!seq![':'].contains(',') && !seq![':'].contains('='));
        lemma_joined_holds(host, seq![':'], ',');
        lemma_joined_holds(host + seq![':'], port, ',');
        lemma_joined_holds(host, seq![':'], '=');
        lemma_joined_holds(host + seq![':'], port, '=');
    }
    assert(entry[0] == host[0] && entry.last() == port.last());
    assert(cut_first(entry, '=') is None) by {
        law_cut_at_the_first(entry, '=', Seq::empty());
    }
    assert(cut_last(entry, ':') == Some((host, port))) by {
        law_cut_at_the_last(host, ':', port);
    }
    lemma_clean_text_is_kept(entry);
    lemma_clean_text_is_kept(host);
    lemma_clean_text_is_kept(port);
    lemma_one_entry(entry);
}

/// An entry whose name is left empty is named by its host and its port.
pub proof fn law_nameless_entry_is_read_back(host: Seq<char>, port: u16)
    requires
        has_clean_edges(host),
        !host.contains(','),
    ensures
        ({
            let address = host + seq![':'] + decimal(port as nat);
            let entry = seq!['='] + address;
            target_list(entry) == made_of(
                entry,
                address,
                host,
                decimal(port as nat),
                Some(port as nat),
            )
        }),
{
    let e = Seq::<char>::empty();
    let d = decimal(port as nat);
    let address = host + seq![':'] + d;
    let entry = seq!['='] + address;
    lemma_decimal_is_plain(port as nat);
    assert(address[0] == host[0] && address.last() == d.last());
    assert(!entry.contains(',')) by {
        assert(!seq![':'].contains(',') && !seq!['='].contains(','));
        lemma_joined_holds(host, seq![':'], ',');
        lemma_joined_holds(host + seq![':'], d, ',');
        lemma_joined_holds(seq!['='], address, ',');
    }
    assert(trimmed(entry) == entry) by {
        assert(entry.last() == d.last());
        lemma_clean_text_is_kept(entry);
    }
    assert(cut_first(entry, '=') == Some((e, address))) by {
        law_cut_at_the_first(e, '=', address);
        assert(e + seq!['='] + address =~= entry);
    }
    assert(cut_last(address, ':') == Some((host, d))) by {
        law_cut_at_the_last(host, ':', d);
    }
    assert(trimmed(e) == e) by {
        law_trimming_undoes_padding(e, e, e);
        assert(e + e + e =~= e);
    }
    assert(crate::domain::hint_form(host, port) == address) by {
        crate::laws::values::law_target_is_shown(TargetData { name: e, host, port });
    }
    lemma_clean_text_is_kept(address);
    lemma_clean_text_is_kept(host);
    lemma_clean_text_is_kept(d);
    law_number_is_read_back(port as nat, 65535);
    lemma_one_entry(entry);
}

proof fn lemma_clean_text_is_kept(s: Seq<char>)
    requires
        has_clean_edges(s),
    ensures
        trimmed(s) == s,
{
    let e = Seq::<char>::empty();
    law_trimming_undoes_padding(e, s, e);
    assert(e + s + e =~= s);
}

proof fn lemma_decimal_is_plain(n: nat)
    ensures
        has_clean_edges(decimal(n)),
        !decimal(n).contains(','),
        !decimal(n).contains('='),
        !decimal(n).contains(':'),
{
    law_decimal_is_worth_its_number(n);
    let d = decimal(n);
    assert(d.last() == d[d.len() - 1]);
}

/// What was written is read: a target with a name, a host and a port is read back
/// from `name=host:port`, and from `host:port` under the name `host:port`.
pub proof fn law_target_is_read_back(t: TargetData)
    requires
        has_clean_edges(t.name),
        has_clean_edges(t.host),
        !t.name.contains(','),
        !t.name.contains('='),
        !t.host.contains(','),
    ensures
        ({
            let address = t.host + seq![':'] + decimal(t.port as nat);
            &&& target_fault(t.name, t.host, t.port) is None ==> target_list(
                t.name + seq!['='] + address,
            ) == Ok::<Seq<TargetData>, ConfigFault>(seq![t])
            &&& !t.host.contains('=') && target_fault(address, t.host, t.port) is None
                ==> target_list(address) == Ok::<Seq<TargetData>, ConfigFault>(
                seq![TargetData { name: address, host: t.host, port: t.port }],
            )
        }),
{
    let e = Seq::<char>::empty();
    let d = decimal(t.port as nat);
    let address = t.host + seq![':'] + d;
    let pad = seq![e, e, e, e, e, e];
    lemma_decimal_is_plain(t.port as nat);
    law_number_is_read_back(t.port as nat, 65535);
    assert forall|i: int| 0 <= i < 6 implies is_blank_text(#[trigger] pad[i]) by {
        assert(pad[i] == e);
    }
    law_named_entry_is_read_back(pad, t.name, t.host, d);
    let entry = t.name + pad[1] + seq!['='] + (pad[2] + t.host + pad[3] + seq![':'] + (pad[4]
        + d));
    assert(entry =~= t.name + seq!['='] + address);
    assert(pad[0] + entry + pad[5] =~= entry);
    if !t.host.contains('=') {
        law_bare_entry_is_read_back(t.host, d);
    }
}

/// An entry without a colon is refused, and the fault names it.
pub proof fn law_entry_needs_a_colon(s: Seq<char>)
    requires
        !s.contains(','),
        !s.contains(':'),
        !is_blank_text(s),
    ensures
        target_list(s) == Err::<Seq<TargetData>, ConfigFault>(
            ConfigFault::InvalidTargetEntry {
                index: 0,
                entry: trimmed(s),
                reason: "expected host:port"@,
            },
        ),
{
    law_only_white_space_is_trimmed(s);
    lemma_one_entry(s);
    let part = trimmed(s);
    let addr = match cut_first(part, '=') {
        Some((n, a)) => trimmed(a),
        None => part,
    };
    assert(!part.contains(':')) by {
        if part.contains(':') {
            crate::text::lemma_trimmed_members(s, ':');
        }
    }
    assert(!addr.contains(':')) by {
        if let Some((n, a)) = cut_first(part, '=') {
            if addr.contains(':') {
                crate::text::lemma_trimmed_members(a, ':');
                let i = choose|i: int| 0 <= i < a.len() && a[i] == ':';
                assert(part.contains(a[i])) by {
                    crate::text::lemma_first_index(part, '=');
                    assert(a[i] == part[crate::text::first_index(part, '=') + 1 + i]);
                }
            }
        }
    }
    law_cut_at_the_last(Seq::empty(), ':', addr);
}

// ---------------------------------------------------------------------------
// Variables
// ---------------------------------------------------------------------------

/// A variable that holds the decimal digits of a number is that setting, as far
/// as the setting can hold it.
pub proof fn law_numbers_are_taken_from_variables(n: nat)
    ensures
        n <= 65535 ==> short_setting(Some(decimal(n))) == Some(n as u16),
        n > 65535 ==> short_setting(Some(decimal(n))) is None,
        n <= u64::MAX ==> long_setting(Some(decimal(n))) == Some(n as u64),
        n > u64::MAX ==> long_setting(Some(decimal(n))) is None,
        short_setting(None) is None,
        long_setting(None) is None,
{
    law_number_is_read_back(n, 65535);
    law_number_is_read_back(n, u64::MAX as nat);
}

/// A variable that holds anything but digits, and a plus sign in front of them,
/// is no number.
pub proof fn law_other_text_is_no_number(s: Seq<char>, i: int)
    requires
        0 <= i < s.len(),
        !('0' as u32 <= s[i] as u32 <= '9' as u32),
        i > 0 || s[i] != '+',
    ensures
        short_setting(Some(s)) is None,
        long_setting(Some(s)) is None,
{
    if number(s, 65535) is Some {
        law_only_digits_are_read(s, 65535);
    }
    if number(s, u64::MAX as nat) is Some {
        law_only_digits_are_read(s, u64::MAX as nat);
    }
}

/// A variable that holds a text is that setting, unless the text is blank.
pub proof fn law_texts_are_taken_from_variables(s: Seq<char>)
    ensures
        is_blank_text(s) ==> text_setting(Some(s)) is None,
        !is_blank_text(s) ==> text_setting(Some(s)) == Some(s),
        text_setting(None) is None,
{
    law_only_white_space_is_trimmed(s);
}

/// A variable that says nothing usable counts as absent: a number that is none,
/// a blank path, a blank list.
pub proof fn law_unusable_variables_count_as_absent(file: FileData, env: EnvData)
    ensures
        env.port is Some && number(env.port->0, 65535) is None ==> loaded(file, env) == loaded(
            file,
            EnvData { port: None, ..env },
        ),
        env.interval is Some && number(env.interval->0, u64::MAX as nat) is None ==> loaded(
            file,
            env,
        ) == loaded(file, EnvData { interval: None, ..env }),
        env.timeout is Some && number(env.timeout->0, u64::MAX as nat) is None ==> loaded(
            file,
            env,
        ) == loaded(file, EnvData { timeout: None, ..env }),
        env.db_path is Some && is_blank_text(env.db_path->0) ==> loaded(file, env) == loaded(
            file,
            EnvData { db_path: None, ..env },
        ),
        env.targets is Some && is_blank_text(env.targets->0) ==> loaded(file, env) == loaded(
            file,
            EnvData { targets: None, ..env },
        ),
{
    if env.db_path is Some {
        law_texts_are_taken_from_variables(env.db_path->0);
    }
    if env.targets is Some {
        law_texts_are_taken_from_variables(env.targets->0);
    }
}

// ---------------------------------------------------------------------------
// The configuration
// ---------------------------------------------------------------------------

/// Is `v` the number that the sources give: the variable's, or else the file's,
/// or else the default?
pub open spec fn number_given(
    variable: Option<Seq<char>>,
    file: Option<nat>,
    default: nat,
    v: nat,
) -> bool {
    match variable {
        Some(s) => s == decimal(v),
        None => match file {
            Some(n) => v == n,
            None => v == default,
        },
    }
}

/// Is `v` the text that the sources give: the variable's, or else the file's, or
/// else the default?
pub open spec fn text_given(
    variable: Option<Seq<char>>,
    file: Option<Seq<char>>,
    default: Seq<char>,
    v: Seq<char>,
) -> bool {
    match variable {
        Some(s) => v == s && !is_blank_text(s),
        None => match file {
            Some(s) => v == s,
            None => v == default,
        },
    }
}

/// Are `v` the targets that the sources give: the list in the variable, or else
/// what the file lists, or else the default?
pub open spec fn targets_given(
    variable: Option<Seq<char>>,
    file: Option<Seq<TargetData>>,
    default: Seq<TargetData>,
    v: Seq<TargetData>,
) -> bool {
    match variable {
        Some(s) => !is_blank_text(s) && target_list(s) == Ok::<Seq<TargetData>, ConfigFault>(v),
        None => match file {
            Some(l) => if l.len() > 0 {
                v == l
            } else {
                v == default
            },
            None => v == default,
        },
    }
}

/// A whole number in a file.
pub open spec fn whole(n: Option<u64>) -> Option<nat> {
    match n {
        Some(n) => Some(n as nat),
        None => None,
    }
}

/// A port in a file.
pub open spec fn whole_port(n: Option<u16>) -> Option<nat> {
    match n {
        Some(n) => Some(n as nat),
        None => None,
    }
}

/// Are the settings in `c` those that the sources give? The built-in ones are port
/// 3000, `netmon.db`, an interval of 10 and a timeout of 5 seconds, and three
/// targets.
pub open spec fn given(file: SettingsData, env: EnvData, c: ConfigData) -> bool {
    &&& number_given(env.port, whole_port(file.port), 3000, c.port as nat)
    &&& text_given(env.db_path, file.db_path, "netmon.db"@, c.db_path)
    &&& number_given(env.interval, whole(file.interval), 10, c.interval as nat)
    &&& number_given(env.timeout, whole(file.timeout), 5, c.timeout as nat)
    &&& targets_given(
        env.targets,
        file.targets,
        seq![
            TargetData { name: "Google DNS"@, host: "8.8.8.8"@, port: 53 },
            TargetData { name: "Cloudflare DNS"@, host: "1.1.1.1"@, port: 53 },
            TargetData { name: "Google HTTPS"@, host: "google.com"@, port: 443 },
        ],
        c.targets,
    )
}

proof fn lemma_given(file: SettingsData, env: EnvData, c: ConfigData)
    requires
        given(file, env, c),
    ensures
        short_setting(env.port) == (match env.port {
            Some(_) => Some(c.port),
            None => None,
        }),
        long_setting(env.interval) == (match env.interval {
            Some(_) => Some(c.interval),
            None => None,
        }),
        long_setting(env.timeout) == (match env.timeout {
            Some(_) => Some(c.timeout),
            None => None,
        }),
        text_setting(env.db_path) == env.db_path,
        text_setting(env.targets) == env.targets,
        default_targets() == seq![
            TargetData { name: "Google DNS"@, host: "8.8.8.8"@, port: 53 },
            TargetData { name: "Cloudflare DNS"@, host: "1.1.1.1"@, port: 53 },
            TargetData { name: "Google HTTPS"@, host: "google.com"@, port: 443 },
        ],
{
    law_numbers_are_taken_from_variables(c.port as nat);
    law_numbers_are_taken_from_variables(c.interval as nat);
    law_numbers_are_taken_from_variables(c.timeout as nat);
    if env.db_path is Some {
        law_texts_are_taken_from_variables(env.db_path->0);
    }
    if env.targets is Some {
        law_texts_are_taken_from_variables(env.targets->0);
    }
}

/// The program runs with what its sources give, the environment before the file
/// and the file before the defaults, wherever that is in range: a port, a path
/// that is not blank, an interval from 1 to 3600 seconds, a timeout from 1 to 60
/// seconds that is no longer, and targets with different names.
pub proof fn law_valid_settings_are_used(file: SettingsData, env: EnvData, c: ConfigData)
    requires
        given(file, env, c),
        c.port >= 1,
        !is_blank_text(c.db_path),
        1 <= c.interval <= 3600,
        1 <= c.timeout <= 60,
        c.timeout <= c.interval,
        c.limit == 2000,
        c.targets.len() > 0,
        forall|i: int, j: int|
            #![trigger c.targets[i], c.targets[j]]
            0 <= i < j < c.targets.len() ==> c.targets[i].name != c.targets[j].name,
    ensures
        loaded(FileData::Read(file), env) == Ok::<ConfigData, ConfigFault>(c),
        file == no_settings() ==> loaded(FileData::Absent, env) == Ok::<ConfigData, ConfigFault>(
            c,
        ),
{
    lemma_given(file, env, c);
    law_targets_have_different_names(c.targets);
    law_only_white_space_is_trimmed(c.db_path);
    assert(targets_fault(c.targets) is None);
}

/// The program does not run with what is out of range: it stops with the first
/// fault, in the order port, path, interval, timeout, targets, and at last a
/// timeout that is longer than the interval.
pub proof fn law_first_invalid_setting_is_reported(
    file: SettingsData,
    env: EnvData,
    c: ConfigData,
)
    requires
        given(file, env, c),
    ensures
        ({
            let r = loaded(FileData::Read(file), env);
            let stops = |e: ConfigFault| r == Err::<ConfigData, ConfigFault>(e);
            let interval_ok = 1 <= c.interval <= 3600;
            let timeout_ok = 1 <= c.timeout <= 60;
            if c.port == 0 {
                stops(ConfigFault::Domain(DomainFault::InvalidPort { port: 0 }))
            } else if is_blank_text(c.db_path) {
                stops(ConfigFault::Domain(DomainFault::EmptyDbPath))
            } else if !interval_ok {
                stops(ConfigFault::Domain(DomainFault::InvalidInterval { secs: c.interval }))
            } else if !timeout_ok {
                stops(ConfigFault::Domain(DomainFault::InvalidTimeout { secs: c.timeout }))
            } else if targets_fault(c.targets) is Some {
                stops(ConfigFault::Domain(targets_fault(c.targets)->0))
            } else if c.timeout > c.interval {
                stops(
                    ConfigFault::TimeoutExceedsInterval {
                        timeout: c.timeout,
                        interval: c.interval,
                    },
                )
            } else {
                r is Ok
            }
        }),
{
    lemma_given(file, env, c);
    law_only_white_space_is_trimmed(c.db_path);
    lemma_default_values();
}

proof fn lemma_default_values()
    ensures
        !is_blank_text("netmon.db"@),
        targets_fault(default_targets()) is None,
{
    crate::config::law_loaded_is_valid(FileData::Absent, no_env());
    crate::config::law_defaults_where_nothing_is_said();
    reveal_strlit("netmon.db");
    assert(!is_white_space("netmon.db"@[0]));
}

/// A list of targets in the environment that cannot be read stops the program
/// with the fault of its entry, whatever else is set.
pub proof fn law_unreadable_list_is_reported(file: SettingsData, env: EnvData, raw: Seq<char>)
    requires
        env.targets == Some(raw),
        target_list(raw) is Err,
    ensures
        loaded(FileData::Read(file), env) == Err::<ConfigData, ConfigFault>(
            target_list(raw)->Err_0,
        ),
        loaded(FileData::Absent, env) == Err::<ConfigData, ConfigFault>(target_list(raw)->Err_0),
{
    law_texts_are_taken_from_variables(raw);
    if is_blank_text(raw) {
        law_blank_list(raw);
    }
}

/// A configuration that the program runs with is in range, whatever the sources
/// say.
pub proof fn law_configuration_is_in_range(file: FileData, env: EnvData)
    requires
        loaded(file, env) is Ok,
    ensures
        ({
            let c = loaded(file, env)->Ok_0;
            &&& c.port >= 1
            &&& !is_blank_text(c.db_path)
            &&& 1 <= c.interval <= 3600
            &&& 1 <= c.timeout <= 60
            &&& c.timeout <= c.interval
            &&& c.limit == 2000
            &&& c.targets.len() > 0
            &&& forall|i: int, j: int|
                #![trigger c.targets[i], c.targets[j]]
                0 <= i < j < c.targets.len() ==> c.targets[i].name != c.targets[j].name
        }),
{
    let c = loaded(file, env)->Ok_0;
    crate::config::law_loaded_is_valid(file, env);
    law_only_white_space_is_trimmed(c.db_path);
    law_targets_have_different_names(c.targets);
}

/// An interval in the environment is the interval of the program: any number of
/// seconds from the timeout of 5 up to 3600, where nothing else is set.
pub proof fn law_interval_variable(n: u64)
    requires
        5 <= n <= 3600,
    ensures
        ({
            let env = EnvData { interval: Some(decimal(n as nat)), ..no_env() };
            let r = loaded(FileData::Absent, env);
            r is Ok && r->Ok_0.interval == n && r->Ok_0.timeout == 5 && r->Ok_0.port == 3000
        }),
{
    law_numbers_are_taken_from_variables(n as nat);
}

} // verus!
