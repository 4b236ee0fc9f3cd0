//! Validated domain types: every value with an invariant has a type of its own,
//! whose constructor checks it once and whose type invariant keeps it.

use vstd::prelude::*;
use vstd::string::*;
use vstd::utf8::*;

use crate::error::{DomainError, DomainFault};
use crate::platform::{
    calendar_secs, clock_secs, rfc3339_form, rfc3339_text, MAX_DATE_SECS, MIN_DATE_SECS,
};
use crate::text::{
    byte_len, bytes_in, chars_of, control, decimal, first_line, is_control, is_white_space,
    lemma_line_one_fixed, lemma_line_one_has_no_feed, lemma_trimmed_edges, lemma_trimmed_fixed,
    lemma_trimmed_idempotent, lemma_trimmed_members, line_one, parts, same_text, split, texts,
    trim, trimmed, unsigned_text, white_space,
};

verus! {

// ---------------------------------------------------------------------------
// TargetName
// ---------------------------------------------------------------------------

/// Is `s` a target name: not empty, without white space at its edges, and of at
/// most [`TargetName::MAX_LEN`] bytes?
pub open spec fn is_name(s: Seq<char>) -> bool {
    s.len() > 0 && trimmed(s) == s && byte_len(s) <= TargetName::MAX_LEN
}

/// Why `raw` gives no target name; `None` where its trimming is one.
pub open spec fn name_fault(raw: Seq<char>) -> Option<DomainFault> {
    let t = trimmed(raw);
    if t.len() == 0 {
        Some(DomainFault::EmptyTargetName)
    } else if byte_len(t) > TargetName::MAX_LEN {
        Some(DomainFault::TargetNameTooLong { len: byte_len(t) as usize, max: TargetName::MAX_LEN })
    } else {
        None
    }
}

/// The name of a monitored target.
#[derive(Debug, PartialEq, Eq, Hash, PartialOrd, Ord)]
pub struct TargetName(String);

impl View for TargetName {
    type V = Seq<char>;

    closed spec fn view(&self) -> Seq<char> {
        self.0@
    }
}

impl TargetName {
    /// The largest number of bytes in a target name.
    pub const MAX_LEN: usize = 64;

    /// What holds of every value of this type.
    #[verifier::type_invariant]
    pub open spec fn well_formed(self) -> bool {
        is_name(self@)
    }

    /// Trims `raw` and checks that a name is left.
    pub fn new(raw: &str) -> (r: Result<Self, DomainError>)
        ensures
            match r {
                Ok(n) => name_fault(raw@) is None && n@ == trimmed(raw@),
                Err(e) => name_fault(raw@) == Some(e@),
            },
    {
        let t = trim(raw);
        if t.is_empty() {
            return Err(DomainError::EmptyTargetName);
        }
        let len: usize = bytes_in(t);
        if len > TargetName::MAX_LEN {
            return Err(DomainError::TargetNameTooLong { len, max: TargetName::MAX_LEN });
        }
        proof {
            lemma_trimmed_idempotent(raw@);
        }
        Ok(TargetName(t.to_string()))
    }

    /// A name that is known to be valid.
    pub fn known(s: &'static str) -> (r: Self)
        requires
            name_fault(s@) is None,
        ensures
            r@ == trimmed(s@),
    {
        let t = trim(s);
        proof {
            lemma_trimmed_idempotent(s@);
        }
        TargetName(t.to_string())
    }

    /// The name as text.
    pub fn as_str(&self) -> (r: &str)
        ensures
            r@ == self@,
            is_name(r@),
    {
        proof {
            use_type_invariant(self);
        }
        self.0.as_str()
    }

    /// The name as an owned string.
    pub fn to_string(&self) -> (r: String)
        ensures
            r@ == self@,
    {
        self.0.clone()
    }
}

impl AsRef<str> for TargetName {
    fn as_ref(&self) -> (r: &str)
        ensures
            r@ == self@,
    {
        self.0.as_str()
    }
}

impl Clone for TargetName {
    fn clone(&self) -> (r: Self)
        ensures
            r == *self,
    {
        proof {
            use_type_invariant(self);
        }
        TargetName(self.0.clone())
    }
}

// ---------------------------------------------------------------------------
// Host
// ---------------------------------------------------------------------------

/// Is `c` one of the characters that mark a URL rather than a bare host?
pub open spec fn is_url_mark(c: char) -> bool {
    c == '/' || c == '@' || c == '?' || c == '#'
}

/// May `c` not stand in a host at all?
pub open spec fn is_blank(c: char) -> bool {
    is_white_space(c) || is_control(c)
}

/// Does some character of `s` satisfy [`is_blank`]?
pub open spec fn has_blank(s: Seq<char>) -> bool {
    exists|i: int| 0 <= i < s.len() && is_blank(#[trigger] s[i])
}

/// Does some character of `s` satisfy [`is_url_mark`]?
pub open spec fn has_url_mark(s: Seq<char>) -> bool {
    exists|i: int| 0 <= i < s.len() && is_url_mark(#[trigger] s[i])
}

/// Is `s` a bare host name or address: not empty, of at most [`Host::MAX_LEN`]
/// bytes, without white space, control characters and URL marks?
pub open spec fn is_host(s: Seq<char>) -> bool {
    s.len() > 0 && trimmed(s) == s && byte_len(s) <= Host::MAX_LEN && !has_blank(s)
        && !has_url_mark(s)
}

/// Why `raw` gives no host; `None` where its trimming is one.
pub open spec fn host_fault(raw: Seq<char>) -> Option<DomainFault> {
    let t = trimmed(raw);
    if t.len() == 0 {
        Some(DomainFault::EmptyHost)
    } else if byte_len(t) > Host::MAX_LEN {
        Some(DomainFault::HostTooLong { len: byte_len(t) as usize, max: Host::MAX_LEN })
    } else if has_blank(t) {
        Some(
            DomainFault::InvalidHost {
                host: t,
                reason: "must not contain whitespace or control characters"@,
            },
        )
    } else if has_url_mark(t) {
        Some(
            DomainFault::InvalidHost {
                host: t,
                reason: "must be a bare hostname/IP, not a URL"@,
            },
        )
    } else {
        None
    }
}

/// A host to probe: a DNS name or an address, never a URL.
#[derive(Debug, PartialEq, Eq, Hash)]
pub struct Host(String);

impl View for Host {
    type V = Seq<char>;

    closed spec fn view(&self) -> Seq<char> {
        self.0@
    }
}

impl Host {
    /// The largest number of bytes in a host.
    pub const MAX_LEN: usize = 253;

    /// What holds of every value of this type.
    #[verifier::type_invariant]
    pub open spec fn well_formed(self) -> bool {
        is_host(self@)
    }

    /// Trims `raw` and checks that a host is left.
    pub fn new(raw: &str) -> (r: Result<Self, DomainError>)
        ensures
            match r {
                Ok(h) => host_fault(raw@) is None && h@ == trimmed(raw@),
                Err(e) => host_fault(raw@) == Some(e@),
            },
    {
        let t = trim(raw);
        if t.is_empty() {
            return Err(DomainError::EmptyHost);
        }
        let len: usize = bytes_in(t);
        if len > Host::MAX_LEN {
            return Err(DomainError::HostTooLong { len, max: Host::MAX_LEN });
        }
        let v = chars_of(t);
        let mut i: usize = 0;
        while i < v.len()
            invariant
                i <= v.len(),
                v@ == t@,
                t@ == trimmed(raw@),
                0 < t@.len(),
                byte_len(t@) <= Host::MAX_LEN,
                forall|j: int| 0 <= j < i ==> !is_blank(#[trigger] v@[j]),
            decreases v.len() - i,
        {
            if white_space(v[i]) || control(v[i]) {
                assert(is_blank(t@[i as int]));
                return Err(
                    DomainError::InvalidHost {
                        host: t.to_string(),
                        reason: "must not contain whitespace or control characters",
                    },
                );
            }
            i += 1;
        }
        assert(!has_blank(t@));
        let mut k: usize = 0;
        while k < v.len()
            invariant
                k <= v.len(),
                v@ == t@,
                t@ == trimmed(raw@),
                0 < t@.len(),
                byte_len(t@) <= Host::MAX_LEN,
                !has_blank(t@),
                forall|j: int| 0 <= j < k ==> !is_url_mark(#[trigger] v@[j]),
            decreases v.len() - k,
        {
            let c: char = v[k];
            if c == '/' || c == '@' || c == '?' || c == '#' {
                assert(is_url_mark(t@[k as int]));
                return Err(
                    DomainError::InvalidHost {
                        host: t.to_string(),
                        reason: "must be a bare hostname/IP, not a URL",
                    },
                );
            }
            k += 1;
        }
        assert(!has_url_mark(t@));
        proof {
            lemma_trimmed_idempotent(raw@);
        }
        Ok(Host(t.to_string()))
    }

    /// A host that is known to be valid.
    pub fn known(s: &'static str) -> (r: Self)
        requires
            host_fault(s@) is None,
        ensures
            r@ == trimmed(s@),
    {
        let t = trim(s);
        proof {
            lemma_trimmed_idempotent(s@);
        }
        Host(t.to_string())
    }

    /// The host as text.
    pub fn as_str(&self) -> (r: &str)
        ensures
            r@ == self@,
            is_host(r@),
    {
        proof {
            use_type_invariant(self);
        }
        self.0.as_str()
    }

    /// The host as an owned string.
    pub fn to_string(&self) -> (r: String)
        ensures
            r@ == self@,
    {
        self.0.clone()
    }

    /// `host:port`, as address lookup takes it.
    pub fn socket_hint(&self, port: Port) -> (r: String)
        ensures
            r@ == hint_form(self@, port@),
    {
        let mut r = self.0.clone();
        r.append(":");
        r.append(unsigned_text(port.get() as u64).as_str());
        r
    }
}

/// A host and a port, written `host:port`.
pub open spec fn hint_form(host: Seq<char>, port: u16) -> Seq<char> {
    host + ":"@ + decimal(port as nat)
}

impl AsRef<str> for Host {
    fn as_ref(&self) -> (r: &str)
        ensures
            r@ == self@,
    {
        self.0.as_str()
    }
}

impl Clone for Host {
    fn clone(&self) -> (r: Self)
        ensures
            r == *self,
    {
        proof {
            use_type_invariant(self);
        }
        Host(self.0.clone())
    }
}

// ---------------------------------------------------------------------------
// Port
// ---------------------------------------------------------------------------

/// A TCP port other than zero.
#[derive(Debug, Clone, Copy, PartialEq, Eq, Hash)]
pub struct Port(u16);

impl View for Port {
    type V = u16;

    closed spec fn view(&self) -> u16 {
        self.0
    }
}

/// Why `port` is none; `None` where it is one.
pub open spec fn port_fault(port: u16) -> Option<DomainFault> {
    if port == 0 {
        Some(DomainFault::InvalidPort { port })
    } else {
        None
    }
}

impl Port {
    /// What holds of every value of this type.
    #[verifier::type_invariant]
    pub open spec fn well_formed(self) -> bool {
        self@ != 0
    }

    /// Checks that `port` is not zero.
    pub fn new(port: u16) -> (r: Result<Self, DomainError>)
        ensures
            match r {
                Ok(p) => port_fault(port) is None && p@ == port,
                Err(e) => port_fault(port) == Some(e@),
            },
    {
        if port == 0 {
            Err(DomainError::InvalidPort { port })
        } else {
            Ok(Port(port))
        }
    }

    /// The port as a number.
    pub fn get(self) -> (r: u16)
        ensures
            r == self@,
            r != 0,
    {
        proof {
            use_type_invariant(&self);
        }
        self.0
    }

    /// The port in decimal.
    pub fn to_string(&self) -> (r: String)
        ensures
            r@ == decimal(self@ as nat),
    {
        unsigned_text(self.0 as u64)
    }
}

impl TryFrom<u16> for Port {
    type Error = DomainError;

    fn try_from(v: u16) -> (r: Result<Self, DomainError>)
        ensures
            match r {
                Ok(p) => port_fault(v) is None && p@ == v,
                Err(e) => port_fault(v) == Some(e@),
            },
    {
        Port::new(v)
    }
}

impl vstd::std_specs::convert::TryFromSpecImpl<u16> for Port {
    closed spec fn obeys_try_from_spec() -> bool {
        true
    }

    closed spec fn try_from_spec(v: u16) -> Result<Self, DomainError> {
        if v == 0 {
            Err(DomainError::InvalidPort { port: v })
        } else {
            Ok(Port(v))
        }
    }
}

impl From<Port> for u16 {
    fn from(p: Port) -> (r: u16) {
        p.get()
    }
}

impl vstd::std_specs::convert::FromSpecImpl<Port> for u16 {
    open spec fn obeys_from_spec() -> bool {
        true
    }

    open spec fn from_spec(p: Port) -> u16 {
        p@
    }
}

// ---------------------------------------------------------------------------
// Spans of time
// ---------------------------------------------------------------------------

/// The number of nanoseconds in a second.
pub const NANOS_PER_SEC: u32 = 1_000_000_000;

/// The number of nanoseconds in a millisecond.
pub const NANOS_PER_MILLI: u32 = 1_000_000;

/// A span of time: whole seconds, and nanoseconds short of one more.
#[derive(Debug, Clone, Copy, PartialEq, Eq)]
pub struct TimeSpan {
    secs: u64,
    nanos: u32,
}

impl View for TimeSpan {
    type V = int;

    /// The length of the span in nanoseconds.
    closed spec fn view(&self) -> int {
        self.secs * NANOS_PER_SEC + self.nanos
    }
}

impl TimeSpan {
    /// What holds of every value of this type.
    #[verifier::type_invariant]
    pub closed spec fn well_formed(self) -> bool {
        self.nanos < NANOS_PER_SEC
    }

    /// A span of `secs` seconds and `nanos` nanoseconds.
    pub fn new(secs: u64, nanos: u32) -> (r: Self)
        requires
            nanos < NANOS_PER_SEC,
        ensures
            r@ == secs * NANOS_PER_SEC + nanos,
    {
        TimeSpan { secs, nanos }
    }

    /// A span of whole seconds.
    pub fn from_secs(secs: u64) -> (r: Self)
        ensures
            r@ == secs * NANOS_PER_SEC,
    {
        TimeSpan { secs, nanos: 0 }
    }

    /// A span of whole milliseconds.
    pub fn from_millis(millis: u64) -> (r: Self)
        ensures
            r@ == millis * NANOS_PER_MILLI,
    {
        TimeSpan { secs: millis / 1000, nanos: (millis % 1000) as u32 * NANOS_PER_MILLI }
    }

    /// The whole seconds in the span.
    pub fn as_secs(&self) -> (r: u64)
        ensures
            r == self@ / NANOS_PER_SEC as int,
    {
        proof {
            use_type_invariant(self);
        }
        self.secs
    }

    /// The nanoseconds beyond the whole seconds.
    pub fn subsec_nanos(&self) -> (r: u32)
        ensures
            r == self@ % NANOS_PER_SEC as int,
            r < NANOS_PER_SEC,
    {
        proof {
            use_type_invariant(self);
        }
        self.nanos
    }

    /// The whole milliseconds in the span.
    pub fn as_millis(&self) -> (r: u128)
        ensures
            r == self@ / NANOS_PER_MILLI as int,
    {
        proof {
            use_type_invariant(self);
        }
        self.secs as u128 * 1000 + (self.nanos / NANOS_PER_MILLI) as u128
    }
}

/// The time between two rounds of probes.
#[derive(Debug, Clone, Copy, PartialEq, Eq)]
pub struct CheckInterval(u64);

impl View for CheckInterval {
    type V = u64;

    closed spec fn view(&self) -> u64 {
        self.0
    }
}

/// Why `secs` is no check interval; `None` where it is one.
pub open spec fn interval_fault(secs: u64) -> Option<DomainFault> {
    if CheckInterval::MIN_SECS <= secs <= CheckInterval::MAX_SECS {
        None
    } else {
        Some(DomainFault::InvalidInterval { secs })
    }
}

impl CheckInterval {
    /// The shortest check interval, in seconds.
    pub const MIN_SECS: u64 = 1;

    /// The longest check interval, in seconds.
    pub const MAX_SECS: u64 = 3600;

    /// The check interval where none is configured, in seconds.
    pub const DEFAULT_SECS: u64 = 10;

    /// What holds of every value of this type.
    #[verifier::type_invariant]
    pub open spec fn well_formed(self) -> bool {
        CheckInterval::MIN_SECS <= self@ <= CheckInterval::MAX_SECS
    }

    /// Checks that `secs` is in range.
    pub fn new(secs: u64) -> (r: Result<Self, DomainError>)
        ensures
            match r {
                Ok(d) => interval_fault(secs) is None && d@ == secs,
                Err(e) => interval_fault(secs) == Some(e@),
            },
    {
        if secs < CheckInterval::MIN_SECS || CheckInterval::MAX_SECS < secs {
            return Err(DomainError::InvalidInterval { secs });
        }
        Ok(CheckInterval(secs))
    }

    /// The check interval where none is configured.
    pub fn default_valid() -> (r: Self)
        ensures
            r@ == CheckInterval::DEFAULT_SECS,
    {
        CheckInterval(CheckInterval::DEFAULT_SECS)
    }

    /// The check interval in seconds.
    pub fn secs(self) -> (r: u64)
        ensures
            r == self@,
            CheckInterval::MIN_SECS <= r <= CheckInterval::MAX_SECS,
    {
        proof {
            use_type_invariant(&self);
        }
        self.0
    }

    /// The check interval as a span of time.
    pub fn duration(self) -> (r: TimeSpan)
        ensures
            r@ == self@ * NANOS_PER_SEC,
    {
        TimeSpan::from_secs(self.0)
    }
}

/// How long one probe may take.
#[derive(Debug, Clone, Copy, PartialEq, Eq)]
pub struct ProbeTimeout(u64);

impl View for ProbeTimeout {
    type V = u64;

    closed spec fn view(&self) -> u64 {
        self.0
    }
}

/// Why `secs` is no probe timeout; `None` where it is one.
pub open spec fn timeout_fault(secs: u64) -> Option<DomainFault> {
    if ProbeTimeout::MIN_SECS <= secs <= ProbeTimeout::MAX_SECS {
        None
    } else {
        Some(DomainFault::InvalidTimeout { secs })
    }
}

impl ProbeTimeout {
    /// The shortest probe timeout, in seconds.
    pub const MIN_SECS: u64 = 1;

    /// The longest probe timeout, in seconds.
    pub const MAX_SECS: u64 = 60;

    /// The probe timeout where none is configured, in seconds.
    pub const DEFAULT_SECS: u64 = 5;

    /// What holds of every value of this type.
    #[verifier::type_invariant]
    pub open spec fn well_formed(self) -> bool {
        ProbeTimeout::MIN_SECS <= self@ <= ProbeTimeout::MAX_SECS
    }

    /// Checks that `secs` is in range.
    pub fn new(secs: u64) -> (r: Result<Self, DomainError>)
        ensures
            match r {
                Ok(d) => timeout_fault(secs) is None && d@ == secs,
                Err(e) => timeout_fault(secs) == Some(e@),
            },
    {
        if secs < ProbeTimeout::MIN_SECS || ProbeTimeout::MAX_SECS < secs {
            return Err(DomainError::InvalidTimeout { secs });
        }
        Ok(ProbeTimeout(secs))
    }

    /// The probe timeout where none is configured.
    pub fn default_valid() -> (r: Self)
        ensures
            r@ == ProbeTimeout::DEFAULT_SECS,
    {
        ProbeTimeout(ProbeTimeout::DEFAULT_SECS)
    }

    /// The probe timeout in seconds.
    pub fn secs(self) -> (r: u64)
        ensures
            r == self@,
            ProbeTimeout::MIN_SECS <= r <= ProbeTimeout::MAX_SECS,
    {
        proof {
            use_type_invariant(&self);
        }
        self.0
    }

    /// The probe timeout as a span of time.
    pub fn duration(self) -> (r: TimeSpan)
        ensures
            r@ == self@ * NANOS_PER_SEC,
    {
        TimeSpan::from_secs(self.0)
    }
}

// ---------------------------------------------------------------------------
// HistoryLimit
// ---------------------------------------------------------------------------

/// How many rows a query may return.
#[derive(Debug, Clone, Copy, PartialEq, Eq)]
pub struct HistoryLimit(usize);

impl View for HistoryLimit {
    type V = usize;

    closed spec fn view(&self) -> usize {
        self.0
    }
}

/// Why `n` is no limit; `None` where it is one.
pub open spec fn limit_fault(n: usize) -> Option<DomainFault> {
    if HistoryLimit::MIN <= n <= HistoryLimit::MAX {
        None
    } else {
        Some(DomainFault::InvalidHistoryLimit { n })
    }
}

impl HistoryLimit {
    /// The smallest limit.
    pub const MIN: usize = 1;

    /// The largest limit.
    pub const MAX: usize = 10_000;

    /// The limit where none is asked for.
    pub const DEFAULT: usize = 2000;

    /// What holds of every value of this type.
    #[verifier::type_invariant]
    pub open spec fn well_formed(self) -> bool {
        HistoryLimit::MIN <= self@ <= HistoryLimit::MAX
    }

    /// Checks that `n` is in range.
    pub fn new(n: usize) -> (r: Result<Self, DomainError>)
        ensures
            match r {
                Ok(l) => limit_fault(n) is None && l@ == n,
                Err(e) => limit_fault(n) == Some(e@),
            },
    {
        if n < HistoryLimit::MIN || HistoryLimit::MAX < n {
            return Err(DomainError::InvalidHistoryLimit { n });
        }
        Ok(HistoryLimit(n))
    }

    /// The limit where none is asked for.
    pub fn default_valid() -> (r: Self)
        ensures
            r@ == HistoryLimit::DEFAULT,
    {
        HistoryLimit(HistoryLimit::DEFAULT)
    }

    /// The limit as a number.
    pub fn get(self) -> (r: usize)
        ensures
            r == self@,
            HistoryLimit::MIN <= r <= HistoryLimit::MAX,
    {
        proof {
            use_type_invariant(&self);
        }
        self.0
    }
}

// ---------------------------------------------------------------------------
// Points in time
// ---------------------------------------------------------------------------

/// A UTC date and time, held by its Unix timestamp.
#[derive(Debug, Clone, Copy, PartialEq, Eq)]
pub struct UtcDateTime(i64);

impl View for UtcDateTime {
    type V = i64;

    closed spec fn view(&self) -> i64 {
        self.0
    }
}

impl UtcDateTime {
    /// What holds of every value of this type.
    #[verifier::type_invariant]
    pub open spec fn well_formed(self) -> bool {
        MIN_DATE_SECS <= self@ <= MAX_DATE_SECS
    }

    /// The seconds since the Unix epoch.
    pub fn timestamp(self) -> (r: i64)
        ensures
            r == self@,
            MIN_DATE_SECS <= r <= MAX_DATE_SECS,
    {
        proof {
            use_type_invariant(&self);
        }
        self.0
    }

    /// The date and time as RFC 3339 text.
    pub fn to_rfc3339(self) -> (r: String)
        ensures
            r@ == rfc3339_form(self@),
    {
        proof {
            use_type_invariant(&self);
        }
        rfc3339_text(self.0)
    }
}

/// A Unix timestamp that is not negative.
#[derive(Debug, Clone, Copy, PartialEq, Eq, PartialOrd, Ord, Hash)]
pub struct UnixSecs(i64);

impl View for UnixSecs {
    type V = i64;

    closed spec fn view(&self) -> i64 {
        self.0
    }
}

/// `ts`, or zero where it is negative.
pub open spec fn clamped(ts: i64) -> i64 {
    if ts < 0 {
        0
    } else {
        ts
    }
}

/// The timestamp of the date and time for `ts`: the same, or the Unix epoch
/// where the calendar does not reach that far.
pub open spec fn date_secs(ts: i64) -> i64 {
    if MIN_DATE_SECS <= ts <= MAX_DATE_SECS {
        ts
    } else {
        0
    }
}

/// The time that a reading of the clock stands for; none, and one too large to
/// hold, count as zero.
pub open spec fn clock_time(reading: Option<u64>) -> int {
    match reading {
        Some(secs) => if secs <= i64::MAX {
            secs as int
        } else {
            0
        },
        None => 0,
    }
}

impl UnixSecs {
    /// What holds of every value of this type.
    #[verifier::type_invariant]
    pub open spec fn well_formed(self) -> bool {
        0 <= self@
    }

    /// The timestamp `ts`, or zero where it is negative.
    pub fn new(ts: i64) -> (r: Self)
        ensures
            r@ == clamped(ts),
    {
        if ts < 0 {
            UnixSecs(0)
        } else {
            UnixSecs(ts)
        }
    }

    /// The timestamp for a reading of the clock, which is absent where the clock
    /// stands before the Unix epoch. A reading too large to hold counts as zero.
    pub fn from_clock(reading: Option<u64>) -> (r: Self)
        ensures
            r@ == (match reading {
                Some(secs) => if secs <= i64::MAX {
                    secs as int
                } else {
                    0
                },
                None => 0,
            }),
            r@ == clock_time(reading),
    {
        match reading {
            Some(secs) => if secs <= i64::MAX as u64 {
                UnixSecs(secs as i64)
            } else {
                UnixSecs(0)
            },
            None => UnixSecs(0),
        }
    }

    /// The current time.
    pub fn now() -> (r: Self)
        ensures
            0 <= r@,
    {
        UnixSecs::from_clock(clock_secs())
    }

    /// The timestamp as a number.
    pub fn as_i64(self) -> (r: i64)
        ensures
            r == self@,
            0 <= r,
    {
        proof {
            use_type_invariant(&self);
        }
        self.0
    }

    /// The date and time, or the Unix epoch where the calendar does not reach
    /// that far.
    pub fn as_datetime(self) -> (r: UtcDateTime)
        ensures
            r@ == date_secs(self@),
    {
        match calendar_secs(self.0) {
            Some(secs) => UtcDateTime(secs),
            None => UtcDateTime(0),
        }
    }
}

// ---------------------------------------------------------------------------
// LatencyMs
// ---------------------------------------------------------------------------

/// A round-trip time in milliseconds.
#[derive(Debug, Clone, Copy, PartialEq, Eq, PartialOrd, Ord, Hash)]
pub struct LatencyMs(i64);

impl View for LatencyMs {
    type V = i64;

    closed spec fn view(&self) -> i64 {
        self.0
    }
}

/// Why `ms` is no latency; `None` where it is one.
pub open spec fn latency_fault(ms: i64) -> Option<DomainFault> {
    if ms < 0 {
        Some(DomainFault::NegativeLatency { ms })
    } else {
        None
    }
}

impl LatencyMs {
    /// What holds of every value of this type.
    #[verifier::type_invariant]
    pub open spec fn well_formed(self) -> bool {
        0 <= self@
    }

    /// Checks that `ms` is not negative.
    pub fn new(ms: i64) -> (r: Result<Self, DomainError>)
        ensures
            match r {
                Ok(l) => latency_fault(ms) is None && l@ == ms,
                Err(e) => latency_fault(ms) == Some(e@),
            },
    {
        if ms < 0 {
            return Err(DomainError::NegativeLatency { ms });
        }
        Ok(LatencyMs(ms))
    }

    /// The whole milliseconds of `elapsed`, as far as they can be held.
    pub fn from_elapsed(elapsed: TimeSpan) -> (r: Self)
        ensures
            r@ == elapsed_ms(elapsed@),
    {
        let ms: u128 = elapsed.as_millis();
        if ms > i64::MAX as u128 {
            LatencyMs(i64::MAX)
        } else {
            LatencyMs(ms as i64)
        }
    }

    /// The latency as a number.
    pub fn as_i64(self) -> (r: i64)
        ensures
            r == self@,
            0 <= r,
    {
        proof {
            use_type_invariant(&self);
        }
        self.0
    }
}

/// The whole milliseconds in `nanos` nanoseconds, at most `i64::MAX`.
pub open spec fn elapsed_ms(nanos: int) -> int {
    if nanos / NANOS_PER_MILLI as int > i64::MAX {
        i64::MAX as int
    } else {
        nanos / NANOS_PER_MILLI as int
    }
}

// ---------------------------------------------------------------------------
// CompactError
// ---------------------------------------------------------------------------

/// Is `s` a compact error text: one line of one to [`CompactError::MAX_CHARS`]
/// characters that does not begin with white space?
pub open spec fn is_compact(s: Seq<char>) -> bool {
    0 < s.len() <= CompactError::MAX_CHARS && !s.contains('\n') && !is_white_space(s[0])
}

/// What is left of the error text `raw`: its first line, trimmed, or a standing
/// phrase where that is empty; at most [`CompactError::MAX_CHARS`] characters.
pub open spec fn compacted(raw: Seq<char>) -> Seq<char> {
    let first = trimmed(line_one(raw));
    let base = if first.len() == 0 {
        "unknown error"@
    } else {
        first
    };
    if base.len() <= CompactError::MAX_CHARS {
        base
    } else {
        base.take(CompactError::MAX_CHARS as int)
    }
}

/// What [`compacted`] gives is compact.
pub proof fn lemma_compacted(raw: Seq<char>)
    ensures
        is_compact(compacted(raw)),
{
    let line = line_one(raw);
    let first = trimmed(line);
    let base = if first.len() == 0 {
        "unknown error"@
    } else {
        first
    };
    reveal_strlit("unknown error");
    lemma_trimmed_edges(line);
    lemma_line_one_has_no_feed(raw);
    assert(!base.contains('\n')) by {
        if first.len() > 0 && first.contains('\n') {
            lemma_trimmed_members(line, '\n');
        }
    }
    assert forall|i: int| 0 <= i < compacted(raw).len() implies compacted(raw)[i] != '\n' by {
        assert(compacted(raw)[i] == base[i]);
    }
}

/// A one-line error text of bounded length.
#[derive(Debug, PartialEq, Eq)]
pub struct CompactError(String);

impl View for CompactError {
    type V = Seq<char>;

    closed spec fn view(&self) -> Seq<char> {
        self.0@
    }
}

impl CompactError {
    /// The largest number of characters in a compact error text.
    pub const MAX_CHARS: usize = 200;

    /// What holds of every value of this type.
    #[verifier::type_invariant]
    pub open spec fn well_formed(self) -> bool {
        is_compact(self@)
    }

    /// Compacts `raw`.
    pub fn new(raw: &str) -> (r: Self)
        ensures
            r@ == compacted(raw@),
    {
        let first = trim(first_line(raw));
        let base = if first.is_empty() {
            "unknown error"
        } else {
            first
        };
        let n: usize = base.unicode_len();
        proof {
            lemma_compacted(raw@);
        }
        if n <= CompactError::MAX_CHARS {
            CompactError(base.to_string())
        } else {
            let cut = base.substring_char(0, CompactError::MAX_CHARS);
            assert(cut@ =~= base@.take(CompactError::MAX_CHARS as int));
            CompactError(cut.to_string())
        }
    }

    /// The error of a probe that took too long.
    pub fn timeout() -> (r: Self)
        ensures
            r@ == "timeout"@,
    {
        proof {
            reveal_strlit("timeout");
        }
        CompactError("timeout".to_string())
    }

    /// The error as text.
    pub fn as_str(&self) -> (r: &str)
        ensures
            r@ == self@,
            is_compact(r@),
    {
        proof {
            use_type_invariant(self);
        }
        self.0.as_str()
    }

    /// The error as an owned string.
    pub fn to_string(&self) -> (r: String)
        ensures
            r@ == self@,
    {
        self.0.clone()
    }
}

impl Clone for CompactError {
    fn clone(&self) -> (r: Self)
        ensures
            r == *self,
    {
        proof {
            use_type_invariant(self);
        }
        CompactError(self.0.clone())
    }
}

/// Compacting a compact text that does not end in white space changes nothing.
/// (Cutting a long text may leave white space at its end, which compacting it
/// again removes.)
pub proof fn law_compacting_is_stable(e: Seq<char>)
    requires
        is_compact(e),
        !is_white_space(e.last()),
    ensures
        compacted(e) == e,
{
    lemma_line_one_fixed(e);
    lemma_trimmed_fixed(e);
}

// ---------------------------------------------------------------------------
// ProbeOutcome
// ---------------------------------------------------------------------------

/// What one probe found: a latency or an error, never both and never neither.
#[derive(Debug, PartialEq, Eq)]
pub enum ProbeOutcome {
    /// The target answered.
    Success { latency: LatencyMs },
    /// The target did not answer.
    Failure { error: CompactError },
}

/// What a [`ProbeOutcome`] says, over plain values.
pub enum OutcomeData {
    /// The target answered after `latency` milliseconds.
    Success { latency: i64 },
    /// The target did not answer.
    Failure { error: Seq<char> },
}

impl View for ProbeOutcome {
    type V = OutcomeData;

    open spec fn view(&self) -> OutcomeData {
        match *self {
            ProbeOutcome::Success { latency } => OutcomeData::Success { latency: latency@ },
            ProbeOutcome::Failure { error } => OutcomeData::Failure { error: error@ },
        }
    }
}

/// Can `o` be what a [`ProbeOutcome`] says?
pub open spec fn is_outcome(o: OutcomeData) -> bool {
    match o {
        OutcomeData::Success { latency } => 0 <= latency,
        OutcomeData::Failure { error } => is_compact(error),
    }
}

/// The columns in which an outcome is stored: success as one or zero, latency,
/// and error.
pub open spec fn outcome_row(o: OutcomeData) -> (i64, Option<i64>, Option<Seq<char>>) {
    match o {
        OutcomeData::Success { latency } => (1, Some(latency), None),
        OutcomeData::Failure { error } => (0, None, Some(error)),
    }
}

/// The outcome that stored columns stand for. A success must not carry an error
/// or a negative latency; a failure keeps its error alone.
pub open spec fn row_outcome(
    success: bool,
    latency_ms: Option<i64>,
    error: Option<Seq<char>>,
) -> Result<OutcomeData, DomainFault> {
    if !success {
        Ok(
            OutcomeData::Failure {
                error: compacted(
                    match error {
                        Some(e) => e,
                        None => "check failed"@,
                    },
                ),
            },
        )
    } else if error is Some {
        Err(DomainFault::InconsistentCheckRow { success: true, latency_ms, has_error: true })
    } else {
        match latency_ms {
            Some(ms) => match latency_fault(ms) {
                Some(e) => Err(e),
                None => Ok(OutcomeData::Success { latency: ms }),
            },
            None => Ok(OutcomeData::Success { latency: 0 }),
        }
    }
}

/// The view of an owned string, where there is one.
pub open spec fn string_of(s: Option<String>) -> Option<Seq<char>> {
    match s {
        Some(t) => Some(t@),
        None => None,
    }
}

impl ProbeOutcome {
    /// A success after `latency`.
    pub fn success(latency: LatencyMs) -> (r: Self)
        ensures
            r@ == (OutcomeData::Success { latency: latency@ }),
    {
        ProbeOutcome::Success { latency }
    }

    /// A failure with `error`.
    pub fn failure(error: CompactError) -> (r: Self)
        ensures
            r@ == (OutcomeData::Failure { error: error@ }),
    {
        ProbeOutcome::Failure { error }
    }

    /// Did the target answer?
    pub fn is_success(&self) -> (r: bool)
        ensures
            r == (self@ is Success),
    {
        match self {
            ProbeOutcome::Success { .. } => true,
            ProbeOutcome::Failure { .. } => false,
        }
    }

    /// The latency of a success.
    pub fn latency(&self) -> (r: Option<LatencyMs>)
        ensures
            match self@ {
                OutcomeData::Success { latency } => r is Some && r->0@ == latency,
                OutcomeData::Failure { .. } => r is None,
            },
    {
        match self {
            ProbeOutcome::Success { latency } => Some(*latency),
            ProbeOutcome::Failure { .. } => None,
        }
    }

    /// The error of a failure.
    pub fn error(&self) -> (r: Option<&CompactError>)
        ensures
            match self@ {
                OutcomeData::Success { .. } => r is None,
                OutcomeData::Failure { error } => r is Some && r->0@ == error,
            },
    {
        match self {
            ProbeOutcome::Success { .. } => None,
            ProbeOutcome::Failure { error } => Some(error),
        }
    }

    /// The columns in which this outcome is stored.
    pub fn as_row(&self) -> (r: (i64, Option<i64>, Option<&str>))
        ensures
            (r.0, r.1, crate::text::text_of(r.2)) == outcome_row(self@),
            is_outcome(self@),
    {
        match self {
            ProbeOutcome::Success { latency } => (1, Some(latency.as_i64()), None),
            ProbeOutcome::Failure { error } => (0, None, Some(error.as_str())),
        }
    }

    /// The outcome that stored columns stand for.
    pub fn from_row(success: bool, latency_ms: Option<i64>, error: Option<String>) -> (r: Result<
        Self,
        DomainError,
    >)
        ensures
            match r {
                Ok(o) => row_outcome(success, latency_ms, string_of(error)) == Ok::<
                    OutcomeData,
                    DomainFault,
                >(o@),
                Err(e) => row_outcome(success, latency_ms, string_of(error)) == Err::<
                    OutcomeData,
                    DomainFault,
                >(e@),
            },
    {
        if !success {
            let error = match &error {
                Some(e) => CompactError::new(e.as_str()),
                None => CompactError::new("check failed"),
            };
            return Ok(ProbeOutcome::Failure { error });
        }
        if error.is_some() {
            return Err(
                DomainError::InconsistentCheckRow { success, latency_ms, has_error: true },
            );
        }
        let ms: i64 = match latency_ms {
            Some(ms) => ms,
            None => 0,
        };
        match LatencyMs::new(ms) {
            Ok(latency) => Ok(ProbeOutcome::Success { latency }),
            Err(e) => Err(e),
        }
    }
}

impl Clone for ProbeOutcome {
    fn clone(&self) -> (r: Self)
        ensures
            r == *self,
    {
        match self {
            ProbeOutcome::Success { latency } => ProbeOutcome::Success { latency: *latency },
            ProbeOutcome::Failure { error } => ProbeOutcome::Failure { error: error.clone() },
        }
    }
}

/// An outcome is read back from its stored columns as it was, except that a
/// failure text ending in white space loses it.
pub proof fn law_outcome_round_trip(o: OutcomeData)
    requires
        is_outcome(o),
        o matches OutcomeData::Failure { error } ==> !is_white_space(error.last()),
    ensures
        ({
            let (success, latency_ms, error) = outcome_row(o);
            row_outcome(success != 0, latency_ms, error) == Ok::<OutcomeData, DomainFault>(o)
        }),
{
    match o {
        OutcomeData::Success { .. } => {},
        OutcomeData::Failure { error } => {
            law_compacting_is_stable(error);
        },
    }
}

/// A stored success that carries an error is refused, whatever else it holds.
pub proof fn law_success_with_error_is_refused(latency_ms: Option<i64>, error: Seq<char>)
    ensures
        row_outcome(true, latency_ms, Some(error)) is Err,
{
}

/// Whatever columns are read, the outcome is a success if and only if they say
/// so, or they are refused.
pub proof fn law_row_success_is_kept(
    success: bool,
    latency_ms: Option<i64>,
    error: Option<Seq<char>>,
)
    ensures
        match row_outcome(success, latency_ms, error) {
            Ok(o) => is_outcome(o) && (o is Success <==> success),
            Err(_) => success,
        },
{
    if !success {
        lemma_compacted(
            match error {
                Some(e) => e,
                None => "check failed"@,
            },
        );
    }
}

// ---------------------------------------------------------------------------
// MonitorTarget
// ---------------------------------------------------------------------------

/// A target to probe.
#[derive(Debug, PartialEq, Eq, Hash)]
pub struct MonitorTarget {
    pub name: TargetName,
    pub host: Host,
    pub port: Port,
}

/// What a [`MonitorTarget`] says, over plain values.
pub struct TargetData {
    pub name: Seq<char>,
    pub host: Seq<char>,
    pub port: u16,
}

impl View for MonitorTarget {
    type V = TargetData;

    open spec fn view(&self) -> TargetData {
        TargetData { name: self.name@, host: self.host@, port: self.port@ }
    }
}

/// What each target of a sequence says.
pub open spec fn targets_data(ts: Seq<MonitorTarget>) -> Seq<TargetData> {
    Seq::new(ts.len(), |i: int| ts[i]@)
}

/// Why the three values give no target; `None` where they do. The name is
/// checked first, then the host, then the port.
pub open spec fn target_fault(name: Seq<char>, host: Seq<char>, port: u16) -> Option<DomainFault> {
    if name_fault(name) is Some {
        name_fault(name)
    } else if host_fault(host) is Some {
        host_fault(host)
    } else {
        port_fault(port)
    }
}

/// How a target is shown: `name (host:port)`.
pub open spec fn target_form(t: TargetData) -> Seq<char> {
    t.name + " ("@ + t.host + ":"@ + decimal(t.port as nat) + ")"@
}

impl MonitorTarget {
    /// A target of valid parts.
    pub fn new(name: TargetName, host: Host, port: Port) -> (r: Self)
        ensures
            r == (MonitorTarget { name, host, port }),
    {
        MonitorTarget { name, host, port }
    }

    /// Checks the three values and makes a target of them.
    pub fn parse(name: &str, host: &str, port: u16) -> (r: Result<Self, DomainError>)
        ensures
            match r {
                Ok(t) => target_fault(name@, host@, port) is None && t@ == (TargetData {
                    name: trimmed(name@),
                    host: trimmed(host@),
                    port,
                }),
                Err(e) => target_fault(name@, host@, port) == Some(e@),
            },
    {
        let name = match TargetName::new(name) {
            Ok(n) => n,
            Err(e) => {
                return Err(e);
            },
        };
        let host = match Host::new(host) {
            Ok(h) => h,
            Err(e) => {
                return Err(e);
            },
        };
        let port = match Port::new(port) {
            Ok(p) => p,
            Err(e) => {
                return Err(e);
            },
        };
        Ok(MonitorTarget { name, host, port })
    }

    /// `host:port`, as address lookup takes it.
    pub fn socket_hint(&self) -> (r: String)
        ensures
            r@ == hint_form(self@.host, self@.port),
    {
        self.host.socket_hint(self.port)
    }

    /// `name (host:port)`.
    pub fn to_string(&self) -> (r: String)
        ensures
            r@ == target_form(self@),
    {
        let mut r = self.name.to_string();
        r.append(" (");
        r.append(self.host.as_str());
        r.append(":");
        r.append(self.port.to_string().as_str());
        r.append(")");
        r
    }
}

impl Clone for MonitorTarget {
    fn clone(&self) -> (r: Self)
        ensures
            r == *self,
    {
        MonitorTarget { name: self.name.clone(), host: self.host.clone(), port: self.port }
    }
}

/// Copies a list of targets.
pub(crate) fn clone_slice(ts: &[MonitorTarget]) -> (r: Vec<MonitorTarget>)
    ensures
        r@ == ts@,
{
    let mut r: Vec<MonitorTarget> = Vec::new();
    let mut i: usize = 0;
    while i < ts.len()
        invariant
            i <= ts@.len(),
            r@ == ts@.take(i as int),
        decreases ts@.len() - i,
    {
        r.push(ts[i].clone());
        assert(r@ =~= ts@.take(i + 1));
        i += 1;
    }
    assert(ts@.take(ts@.len() as int) =~= ts@);
    r
}

// ---------------------------------------------------------------------------
// NonEmptyTargets
// ---------------------------------------------------------------------------

/// The names of a sequence of targets.
pub open spec fn names_of(ts: Seq<TargetData>) -> Seq<Seq<char>> {
    Seq::new(ts.len(), |i: int| ts[i].name)
}

/// The first name of a sequence that an earlier place of it holds too.
pub open spec fn first_repeat(names: Seq<Seq<char>>) -> Option<Seq<char>>
    decreases names.len(),
{
    if names.len() == 0 {
        None
    } else {
        match first_repeat(names.drop_last()) {
            Some(n) => Some(n),
            None => if names.drop_last().contains(names.last()) {
                Some(names.last())
            } else {
                None
            },
        }
    }
}

/// There is no first repeated name exactly where no two names are equal.
pub proof fn lemma_first_repeat(names: Seq<Seq<char>>)
    ensures
        first_repeat(names) is None <==> names.no_duplicates(),
    decreases names.len(),
{
    if names.len() > 0 {
        let rest = names.drop_last();
        lemma_first_repeat(rest);
        if first_repeat(names) is None {
            assert forall|i: int, j: int|
                0 <= i < names.len() && 0 <= j < names.len() && i != j implies names[i]
                != names[j] by {
                if i < rest.len() {
                    assert(rest[i] == names[i]);
                }
                if j < rest.len() {
                    assert(rest[j] == names[j]);
                }
            }
        } else if names.no_duplicates() {
            assert(rest.no_duplicates()) by {
                assert forall|i: int, j: int|
                    0 <= i < rest.len() && 0 <= j < rest.len() && i != j implies rest[i]
                    != rest[j] by {
                    assert(rest[i] == names[i] && rest[j] == names[j]);
                }
            }
            let i = choose|i: int| 0 <= i < rest.len() && rest[i] == names.last();
            assert(names[i] == names[names.len() - 1]);
        }
    }
}

proof fn lemma_repeat_in_prefix(names: Seq<Seq<char>>, k: int)
    requires
        0 <= k <= names.len(),
        first_repeat(names.take(k)) is Some,
    ensures
        first_repeat(names) == first_repeat(names.take(k)),
    decreases names.len(),
{
    if k < names.len() {
        assert(names.drop_last().take(k) =~= names.take(k));
        lemma_repeat_in_prefix(names.drop_last(), k);
    } else {
        assert(names.take(k) =~= names);
    }
}

/// Why a list of targets is refused; `None` where it holds at least one and no
/// two of the same name.
pub open spec fn targets_fault(ts: Seq<TargetData>) -> Option<DomainFault> {
    if ts.len() == 0 {
        Some(DomainFault::NoTargets)
    } else {
        match first_repeat(names_of(ts)) {
            Some(name) => Some(DomainFault::DuplicateTarget { name }),
            None => None,
        }
    }
}

/// At least one target, and no two of the same name.
#[derive(Debug, PartialEq, Eq)]
pub struct NonEmptyTargets(Vec<MonitorTarget>);

impl View for NonEmptyTargets {
    type V = Seq<TargetData>;

    closed spec fn view(&self) -> Seq<TargetData> {
        targets_data(self.0@)
    }
}

impl NonEmptyTargets {
    /// What holds of every value of this type.
    #[verifier::type_invariant]
    pub open spec fn well_formed(self) -> bool {
        targets_fault(self@) is None
    }

    /// Checks that `targets` is not empty and names nothing twice.
    pub fn new(targets: Vec<MonitorTarget>) -> (r: Result<Self, DomainError>)
        ensures
            match r {
                Ok(l) => targets_fault(targets_data(targets@)) is None && l@ == targets_data(
                    targets@,
                ),
                Err(e) => targets_fault(targets_data(targets@)) == Some(e@),
            },
    {
        if targets.is_empty() {
            return Err(DomainError::NoTargets);
        }
        let ghost names = names_of(targets_data(targets@));
        let mut i: usize = 0;
        assert(names.take(0) =~= Seq::<Seq<char>>::empty());
        while i < targets.len()
            invariant
                i <= targets.len(),
                0 < targets.len(),
                names == names_of(targets_data(targets@)),
                first_repeat(names.take(i as int)) is None,
            decreases targets.len() - i,
        {
            assert(names.take(i + 1).drop_last() =~= names.take(i as int));
            let mut j: usize = 0;
            while j < i
                invariant
                    j <= i,
                    i < targets.len(),
                    names == names_of(targets_data(targets@)),
                    names.take(i + 1).drop_last() == names.take(i as int),
                    first_repeat(names.take(i as int)) is None,
                    forall|k: int| 0 <= k < j ==> #[trigger] names[k] != names[i as int],
                decreases i - j,
            {
                if same_text(targets[j].name.as_str(), targets[i].name.as_str()) {
                    proof {
                        assert(names.take(i as int)[j as int] == names[i as int]);
                        assert(names.take(i as int).contains(names[i as int]));
                        lemma_repeat_in_prefix(names, i + 1);
                    }
                    return Err(
                        DomainError::DuplicateTarget { name: targets[i].name.to_string() },
                    );
                }
                j += 1;
            }
            assert(!names.take(i as int).contains(names[i as int])) by {
                assert forall|k: int| 0 <= k < i implies names.take(i as int)[k]
                    != names[i as int] by {
                    assert(names.take(i as int)[k] == names[k]);
                }
            }
            i += 1;
        }
        assert(names.take(targets.len() as int) =~= names);
        Ok(NonEmptyTargets(targets))
    }

    /// The targets, in order.
    pub closed spec fn items(&self) -> Seq<MonitorTarget> {
        self.0@
    }

    /// The targets, in order.
    pub fn as_slice(&self) -> (r: &[MonitorTarget])
        ensures
            r@ == self.items(),
            targets_data(r@) == self@,
            targets_fault(self@) is None,
    {
        proof {
            use_type_invariant(self);
        }
        self.0.as_slice()
    }

    /// The number of targets.
    pub fn len(&self) -> (r: usize)
        ensures
            r == self@.len(),
            r > 0,
    {
        proof {
            use_type_invariant(self);
        }
        self.0.len()
    }

    /// Is there no target? There always is one.
    pub fn is_empty(&self) -> (r: bool)
        ensures
            r == (self@.len() == 0),
            !r,
    {
        proof {
            use_type_invariant(self);
        }
        self.0.is_empty()
    }

    /// Goes through the targets in order.
    pub fn iter(&self) -> (r: core::slice::Iter<'_, MonitorTarget>)
        ensures
            vstd::std_specs::iter::IteratorSpec::remaining(&r) == self.items().as_ref(),
            targets_data(self.items()) == self@,
    {
        self.0.as_slice().iter()
    }
}

impl IntoIterator for NonEmptyTargets {
    type Item = MonitorTarget;

    type IntoIter = std::vec::IntoIter<MonitorTarget>;

    /// Gives the targets away, in order.
    fn into_iter(self) -> (r: std::vec::IntoIter<MonitorTarget>)
        ensures
            vstd::std_specs::iter::IteratorSpec::remaining(&r) == self.items(),
            targets_data(self.items()) == self@,
    {
        self.0.into_iter()
    }
}

impl Clone for NonEmptyTargets {
    fn clone(&self) -> (r: Self)
        ensures
            r@ == self@,
            r.items() == self.items(),
    {
        proof {
            use_type_invariant(self);
        }
        NonEmptyTargets(clone_slice(self.0.as_slice()))
    }
}

// ---------------------------------------------------------------------------
// DbPath
// ---------------------------------------------------------------------------

/// Why `raw` is no database path; `None` where it is one.
pub open spec fn path_fault(raw: Seq<char>) -> Option<DomainFault> {
    if trimmed(raw).len() == 0 {
        Some(DomainFault::EmptyDbPath)
    } else {
        None
    }
}

/// The names in a path, which is cut at every `/`. Empty names do not count, nor
/// does `.` anywhere but in front.
pub open spec fn path_names(ps: Seq<Seq<char>>, n: nat) -> Seq<Seq<char>>
    decreases n,
{
    if n == 0 {
        Seq::empty()
    } else {
        let before = path_names(ps, (n - 1) as nat);
        let name = ps[n - 1];
        if name.len() == 0 || (name == "."@ && n > 1) {
            before
        } else {
            before.push(name)
        }
    }
}

/// What a path leads through: whether it begins at the root, and its names.
pub open spec fn path_steps(s: Seq<char>) -> (bool, Seq<Seq<char>>) {
    (s.len() > 0 && s[0] == '/', path_names(parts(s, '/'), parts(s, '/').len()))
}

/// The names in a path.
fn names_in(s: &str) -> (r: Vec<&str>)
    ensures
        texts(r@) == path_steps(s@).1,
{
    let ps = split(s, '/');
    let ghost all = parts(s@, '/');
    let mut out: Vec<&str> = Vec::new();
    let mut i: usize = 0;
    assert(texts(out@) =~= path_names(all, 0));
    while i < ps.len()
        invariant
            i <= ps.len(),
            texts(ps@) == all,
            texts(out@) == path_names(all, i as nat),
        decreases ps.len() - i,
    {
        let name = ps[i];
        assert(all[i as int] == name@);
        if !(name.is_empty() || (same_text(name, ".") && i > 0)) {
            let ghost before = texts(out@);
            out.push(name);
            assert(texts(out@) =~= before.push(name@));
        }
        i += 1;
    }
    out
}

/// Do two paths lead through the same steps?
fn same_path(a: &str, b: &str) -> (r: bool)
    ensures
        r == (path_steps(a@) == path_steps(b@)),
{
    let x = names_in(a);
    let y = names_in(b);
    let from_root_a: bool = !a.is_empty() && a.get_char(0) == '/';
    let from_root_b: bool = !b.is_empty() && b.get_char(0) == '/';
    if from_root_a != from_root_b || x.len() != y.len() {
        assert(texts(x@).len() == x.len() && texts(y@).len() == y.len());
        return false;
    }
    let mut i: usize = 0;
    while i < x.len()
        invariant
            i <= x.len(),
            x.len() == y.len(),
            texts(x@) == path_steps(a@).1,
            texts(y@) == path_steps(b@).1,
            forall|j: int| 0 <= j < i ==> (#[trigger] x@[j])@ == y@[j]@,
        decreases x.len() - i,
    {
        if !same_text(x[i], y[i]) {
            assert(texts(x@)[i as int] != texts(y@)[i as int]);
            return false;
        }
        i += 1;
    }
    assert(texts(x@) =~= texts(y@));
    true
}

/// The path of the database file. Two paths are equal where they lead through
/// the same steps.
#[derive(Debug)]
pub struct DbPath(String);

impl View for DbPath {
    type V = Seq<char>;

    closed spec fn view(&self) -> Seq<char> {
        self.0@
    }
}

impl DbPath {
    /// What holds of every value of this type.
    #[verifier::type_invariant]
    pub open spec fn well_formed(self) -> bool {
        path_fault(self@) is None
    }

    /// Checks that `raw` is not blank, and keeps it as it is.
    pub fn new(raw: &str) -> (r: Result<Self, DomainError>)
        ensures
            match r {
                Ok(p) => path_fault(raw@) is None && p@ == raw@,
                Err(e) => path_fault(raw@) == Some(e@),
            },
    {
        if trim(raw).is_empty() {
            return Err(DomainError::EmptyDbPath);
        }
        Ok(DbPath(raw.to_string()))
    }

    /// The path as text.
    pub fn as_path(&self) -> (r: &str)
        ensures
            r@ == self@,
            path_fault(r@) is None,
    {
        proof {
            use_type_invariant(self);
        }
        self.0.as_str()
    }

    /// The path as an owned string.
    pub fn to_string(&self) -> (r: String)
        ensures
            r@ == self@,
    {
        self.0.clone()
    }
}

impl PartialEq for DbPath {
    fn eq(&self, other: &Self) -> (r: bool) {
        same_path(self.0.as_str(), other.0.as_str())
    }
}

impl vstd::std_specs::cmp::PartialEqSpecImpl for DbPath {
    open spec fn obeys_eq_spec() -> bool {
        true
    }

    open spec fn eq_spec(&self, other: &Self) -> bool {
        path_steps(self@) == path_steps(other@)
    }
}

impl Eq for DbPath {

}

impl Clone for DbPath {
    fn clone(&self) -> (r: Self)
        ensures
            r == *self,
    {
        proof {
            use_type_invariant(self);
        }
        DbPath(self.0.clone())
    }
}

/// ASCII text of moderate length without white space at its edges is a name, and
/// a host if no character of it rules that out.
pub proof fn lemma_ascii_text(s: Seq<char>)
    requires
        0 < s.len() <= TargetName::MAX_LEN,
        is_ascii_chars(s),
        !is_white_space(s[0]),
        !is_white_space(s.last()),
    ensures
        trimmed(s) == s,
        name_fault(s) is None,
        path_fault(s) is None,
        !has_blank(s) && !has_url_mark(s) ==> host_fault(s) is None,
{
    lemma_trimmed_fixed(s);
    is_ascii_chars_encode_utf8(s);
}

// ---------------------------------------------------------------------------
// Packet loss
// ---------------------------------------------------------------------------

/// A share: `part` of `total`.
#[derive(Debug, Clone, Copy, PartialEq, Eq)]
pub struct Share {
    pub part: i64,
    pub total: i64,
}

/// How many of `total` probes failed where `success` succeeded; never negative.
pub open spec fn failures(total: i64, success: i64) -> int {
    if total < success {
        0
    } else {
        total - success
    }
}

/// How many of `total` probes failed where `success` succeeded.
pub fn failed_count(total: i64, success: i64) -> (r: i64)
    requires
        i64::MIN <= total - success <= i64::MAX,
    ensures
        r == failures(total, success),
{
    let d: i64 = total - success;
    if d < 0 {
        0
    } else {
        d
    }
}

/// The packet loss, as a share. Without probes there is none: zero of one.
pub fn loss_pct(total: i64, success: i64) -> (r: Share)
    requires
        total > 0 ==> total - success <= i64::MAX,
    ensures
        r.total > 0,
        r.part >= 0,
        total <= 0 ==> r.part == 0 && r.total == 1,
        total > 0 ==> r.part == failures(total, success) && r.total == total,
{
    if total <= 0 {
        return Share { part: 0, total: 1 };
    }
    Share { part: failed_count(total, success), total }
}

/// The uptime where `loss` is the packet loss: the rest of it.
pub fn uptime_pct(loss: Share) -> (r: Share)
    requires
        0 <= loss.part,
        0 < loss.total,
    ensures
        r.part == loss.total - loss.part,
        r.total == loss.total,
{
    Share { part: loss.total - loss.part, total: loss.total }
}

} // verus!
