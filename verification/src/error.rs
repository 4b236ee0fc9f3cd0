//! Typed errors, one enum per layer, each with its message.

use vstd::prelude::*;
use vstd::string::*;

use crate::lookback::{Double, DoubleData};
use crate::platform::{debug_form, debug_text};
use crate::text::{decimal, signed_decimal, signed_text, unsigned_text};

verus! {

// ---------------------------------------------------------------------------
// Parts of messages
// ---------------------------------------------------------------------------

/// How a message writes a flag.
pub open spec fn flag_form(b: bool) -> Seq<char> {
    if b {
        "true"@
    } else {
        "false"@
    }
}

fn flag_text(b: bool) -> (r: &'static str)
    ensures
        r@ == flag_form(b),
{
    if b {
        "true"
    } else {
        "false"
    }
}

/// How a message writes a number that may be absent.
pub open spec fn maybe_form(n: Option<i64>) -> Seq<char> {
    match n {
        Some(n) => "Some("@ + signed_decimal(n as int) + ")"@,
        None => "None"@,
    }
}

fn maybe_text(n: Option<i64>) -> (r: String)
    ensures
        r@ == maybe_form(n),
{
    match n {
        Some(n) => {
            let mut r = "Some(".to_string();
            r.append(signed_text(n).as_str());
            r.append(")");
            r
        },
        None => "None".to_string(),
    }
}

// ---------------------------------------------------------------------------
// DomainError
// ---------------------------------------------------------------------------

/// Why a value is refused.
#[derive(Debug, PartialEq)]
pub enum DomainError {
    /// A target name without a character other than white space.
    EmptyTargetName,
    /// A target name of more than `max` bytes.
    TargetNameTooLong { len: usize, max: usize },
    /// A host without a character other than white space.
    EmptyHost,
    /// A host of more than `max` bytes.
    HostTooLong { len: usize, max: usize },
    /// A host that cannot be a bare host name or address.
    InvalidHost { host: String, reason: &'static str },
    /// Port zero.
    InvalidPort { port: u16 },
    /// A check interval out of range.
    InvalidInterval { secs: u64 },
    /// A probe timeout out of range.
    InvalidTimeout { secs: u64 },
    /// A history limit out of range.
    InvalidHistoryLimit { n: usize },
    /// A number of hours to look back over that is out of range.
    InvalidLookback { hours: Double },
    /// A latency below zero.
    NegativeLatency { ms: i64 },
    /// An empty list of targets.
    NoTargets,
    /// A target name that an earlier target of the list has.
    DuplicateTarget { name: String },
    /// A database path without a character other than white space.
    EmptyDbPath,
    /// A stored success that carries an error.
    InconsistentCheckRow { success: bool, latency_ms: Option<i64>, has_error: bool },
}

/// What a [`DomainError`] says, with texts as sequences of characters.
pub enum DomainFault {
    /// A target name without a character other than white space.
    EmptyTargetName,
    /// A target name of more than `max` bytes.
    TargetNameTooLong { len: usize, max: usize },
    /// A host without a character other than white space.
    EmptyHost,
    /// A host of more than `max` bytes.
    HostTooLong { len: usize, max: usize },
    /// A host that cannot be a bare host name or address.
    InvalidHost { host: Seq<char>, reason: Seq<char> },
    /// Port zero.
    InvalidPort { port: u16 },
    /// A check interval out of range.
    InvalidInterval { secs: u64 },
    /// A probe timeout out of range.
    InvalidTimeout { secs: u64 },
    /// A history limit out of range.
    InvalidHistoryLimit { n: usize },
    /// A number of hours to look back over that is out of range.
    InvalidLookback { hours: DoubleData },
    /// A latency below zero.
    NegativeLatency { ms: i64 },
    /// An empty list of targets.
    NoTargets,
    /// A target name that an earlier target of the list has.
    DuplicateTarget { name: Seq<char> },
    /// A database path without a character other than white space.
    EmptyDbPath,
    /// A stored success that carries an error.
    InconsistentCheckRow { success: bool, latency_ms: Option<i64>, has_error: bool },
}

impl View for DomainError {
    type V = DomainFault;

    open spec fn view(&self) -> DomainFault {
        match *self {
            DomainError::EmptyTargetName => DomainFault::EmptyTargetName,
            DomainError::TargetNameTooLong { len, max } => DomainFault::TargetNameTooLong {
                len,
                max,
            },
            DomainError::EmptyHost => DomainFault::EmptyHost,
            DomainError::HostTooLong { len, max } => DomainFault::HostTooLong { len, max },
            DomainError::InvalidHost { host, reason } => DomainFault::InvalidHost {
                host: host@,
                reason: reason@,
            },
            DomainError::InvalidPort { port } => DomainFault::InvalidPort { port },
            DomainError::InvalidInterval { secs } => DomainFault::InvalidInterval { secs },
            DomainError::InvalidTimeout { secs } => DomainFault::InvalidTimeout { secs },
            DomainError::InvalidHistoryLimit { n } => DomainFault::InvalidHistoryLimit { n },
            DomainError::InvalidLookback { hours } => DomainFault::InvalidLookback {
                hours: hours@,
            },
            DomainError::NegativeLatency { ms } => DomainFault::NegativeLatency { ms },
            DomainError::NoTargets => DomainFault::NoTargets,
            DomainError::DuplicateTarget { name } => DomainFault::DuplicateTarget { name: name@ },
            DomainError::EmptyDbPath => DomainFault::EmptyDbPath,
            DomainError::InconsistentCheckRow { success, latency_ms, has_error } => {
                DomainFault::InconsistentCheckRow { success, latency_ms, has_error }
            },
        }
    }
}

/// The message for `e`.
pub open spec fn domain_message(e: DomainFault) -> Seq<char> {
    match e {
        DomainFault::EmptyTargetName => "target name must not be empty"@,
        DomainFault::TargetNameTooLong { len, max } => {
            "target name too long: "@ + decimal(len as nat) + " > "@ + decimal(max as nat)
        },
        DomainFault::EmptyHost => "host must not be empty"@,
        DomainFault::HostTooLong { len, max } => {
            "host too long: "@ + decimal(len as nat) + " > "@ + decimal(max as nat)
        },
        DomainFault::InvalidHost { host, reason } => {
            "invalid host "@ + debug_form(host) + ": "@ + reason
        },
        DomainFault::InvalidPort { port } => {
            "invalid port "@ + decimal(port as nat) + ": must be 1..=65535"@
        },
        DomainFault::InvalidInterval { secs } => {
            "invalid check interval "@ + decimal(secs as nat) + "s: must be 1..=3600"@
        },
        DomainFault::InvalidTimeout { secs } => {
            "invalid probe timeout "@ + decimal(secs as nat) + "s: must be 1..=60"@
        },
        DomainFault::InvalidHistoryLimit { n } => {
            "invalid history limit "@ + decimal(n as nat) + ": must be 1..=10000"@
        },
        DomainFault::InvalidLookback { hours } => {
            "invalid lookback "@ + hours.shown + "h: must be 0.05..=720"@
        },
        DomainFault::NegativeLatency { ms } => {
            "negative latency "@ + signed_decimal(ms as int) + "ms"@
        },
        DomainFault::NoTargets => "at least one monitor target is required"@,
        DomainFault::DuplicateTarget { name } => "duplicate target name "@ + debug_form(name),
        DomainFault::EmptyDbPath => "db path must not be empty"@,
        DomainFault::InconsistentCheckRow { success, latency_ms, has_error } => {
            "inconsistent check row: success="@ + flag_form(success) + " latency="@
                + maybe_form(latency_ms) + " has_error="@ + flag_form(has_error)
        },
    }
}

impl DomainError {
    /// The message that tells an operator what is wrong.
    pub fn to_string(&self) -> (r: String)
        ensures
            r@ == domain_message(self@),
    {
        match self {
            DomainError::EmptyTargetName => "target name must not be empty".to_string(),
            DomainError::TargetNameTooLong { len, max } => {
                let mut r = "target name too long: ".to_string();
                r.append(unsigned_text(*len as u64).as_str());
                r.append(" > ");
                r.append(unsigned_text(*max as u64).as_str());
                r
            },
            DomainError::EmptyHost => "host must not be empty".to_string(),
            DomainError::HostTooLong { len, max } => {
                let mut r = "host too long: ".to_string();
                r.append(unsigned_text(*len as u64).as_str());
                r.append(" > ");
                r.append(unsigned_text(*max as u64).as_str());
                r
            },
            DomainError::InvalidHost { host, reason } => {
                let mut r = "invalid host ".to_string();
                r.append(debug_text(host.as_str()).as_str());
                r.append(": ");
                r.append(reason);
                r
            },
            DomainError::InvalidPort { port } => {
                let mut r = "invalid port ".to_string();
                r.append(unsigned_text(*port as u64).as_str());
                r.append(": must be 1..=65535");
                r
            },
            DomainError::InvalidInterval { secs } => {
                let mut r = "invalid check interval ".to_string();
                r.append(unsigned_text(*secs).as_str());
                r.append("s: must be 1..=3600");
                r
            },
            DomainError::InvalidTimeout { secs } => {
                let mut r = "invalid probe timeout ".to_string();
                r.append(unsigned_text(*secs).as_str());
                r.append("s: must be 1..=60");
                r
            },
            DomainError::InvalidHistoryLimit { n } => {
                let mut r = "invalid history limit ".to_string();
                r.append(unsigned_text(*n as u64).as_str());
                r.append(": must be 1..=10000");
                r
            },
            DomainError::InvalidLookback { hours } => {
                let mut r = "invalid lookback ".to_string();
                r.append(hours.shown.as_str());
                r.append("h: must be 0.05..=720");
                r
            },
            DomainError::NegativeLatency { ms } => {
                let mut r = "negative latency ".to_string();
                r.append(signed_text(*ms).as_str());
                r.append("ms");
                r
            },
            DomainError::NoTargets => "at least one monitor target is required".to_string(),
            DomainError::DuplicateTarget { name } => {
                let mut r = "duplicate target name ".to_string();
                r.append(debug_text(name.as_str()).as_str());
                r
            },
            DomainError::EmptyDbPath => "db path must not be empty".to_string(),
            DomainError::InconsistentCheckRow { success, latency_ms, has_error } => {
                let mut r = "inconsistent check row: success=".to_string();
                r.append(flag_text(*success));
                r.append(" latency=");
                r.append(maybe_text(*latency_ms).as_str());
                r.append(" has_error=");
                r.append(flag_text(*has_error));
                r
            },
        }
    }
}

// ---------------------------------------------------------------------------
// ConfigError
// ---------------------------------------------------------------------------

/// Why a configuration is refused.
#[derive(Debug)]
pub enum ConfigError {
    /// A value that its own type refuses.
    Domain(DomainError),
    /// A configuration file that is present and cannot be used.
    InvalidFile { path: String, reason: String },
    /// A probe timeout longer than the check interval.
    TimeoutExceedsInterval { timeout: u64, interval: u64 },
    /// An entry of the target list that is no target; `index` counts every part
    /// between commas.
    InvalidTargetEntry { index: usize, entry: String, reason: String },
}

/// What a [`ConfigError`] says, with texts as sequences of characters.
pub enum ConfigFault {
    /// A value that its own type refuses.
    Domain(DomainFault),
    /// A configuration file that is present and cannot be used.
    InvalidFile { path: Seq<char>, reason: Seq<char> },
    /// A probe timeout longer than the check interval.
    TimeoutExceedsInterval { timeout: u64, interval: u64 },
    /// An entry of the target list that is no target; `index` counts every part
    /// between commas.
    InvalidTargetEntry { index: usize, entry: Seq<char>, reason: Seq<char> },
}

impl View for ConfigError {
    type V = ConfigFault;

    open spec fn view(&self) -> ConfigFault {
        match *self {
            ConfigError::Domain(e) => ConfigFault::Domain(e@),
            ConfigError::InvalidFile { path, reason } => ConfigFault::InvalidFile {
                path: path@,
                reason: reason@,
            },
            ConfigError::TimeoutExceedsInterval { timeout, interval } => {
                ConfigFault::TimeoutExceedsInterval { timeout, interval }
            },
            ConfigError::InvalidTargetEntry { index, entry, reason } => {
                ConfigFault::InvalidTargetEntry { index, entry: entry@, reason: reason@ }
            },
        }
    }
}

/// The message for `e`.
pub open spec fn config_message(e: ConfigFault) -> Seq<char> {
    match e {
        ConfigFault::Domain(e) => domain_message(e),
        ConfigFault::InvalidFile { path, reason } => {
            "invalid config file "@ + debug_form(path) + ": "@ + reason
        },
        ConfigFault::TimeoutExceedsInterval { timeout, interval } => {
            "probe timeout ("@ + decimal(timeout as nat) + "s) must not exceed check interval ("@
                + decimal(interval as nat) + "s)"@
        },
        ConfigFault::InvalidTargetEntry { index, entry, reason } => {
            "invalid TARGETS entry "@ + decimal(index as nat) + ": "@ + debug_form(entry) + " ("@
                + reason + ")"@
        },
    }
}

impl ConfigError {
    /// The message that tells an operator what is wrong.
    pub fn to_string(&self) -> (r: String)
        ensures
            r@ == config_message(self@),
    {
        match self {
            ConfigError::Domain(e) => e.to_string(),
            ConfigError::InvalidFile { path, reason } => {
                let mut r = "invalid config file ".to_string();
                r.append(debug_text(path.as_str()).as_str());
                r.append(": ");
                r.append(reason.as_str());
                r
            },
            ConfigError::TimeoutExceedsInterval { timeout, interval } => {
                let mut r = "probe timeout (".to_string();
                r.append(unsigned_text(*timeout).as_str());
                r.append("s) must not exceed check interval (");
                r.append(unsigned_text(*interval).as_str());
                r.append("s)");
                r
            },
            ConfigError::InvalidTargetEntry { index, entry, reason } => {
                let mut r = "invalid TARGETS entry ".to_string();
                r.append(unsigned_text(*index as u64).as_str());
                r.append(": ");
                r.append(debug_text(entry.as_str()).as_str());
                r.append(" (");
                r.append(reason.as_str());
                r.append(")");
                r
            },
        }
    }
}

impl From<DomainError> for ConfigError {
    fn from(e: DomainError) -> (r: ConfigError) {
        ConfigError::Domain(e)
    }
}

impl vstd::std_specs::convert::FromSpecImpl<DomainError> for ConfigError {
    open spec fn obeys_from_spec() -> bool {
        true
    }

    open spec fn from_spec(e: DomainError) -> ConfigError {
        ConfigError::Domain(e)
    }
}

// ---------------------------------------------------------------------------
// StoreError
// ---------------------------------------------------------------------------

/// Why the store could not do what it was asked.
#[derive(Debug)]
pub enum StoreError {
    /// The database refused; the text is its own message.
    Sqlite(String),
    /// A value that its own type refuses.
    Domain(DomainError),
}

impl StoreError {
    /// The message for this error.
    pub open spec fn message(&self) -> Seq<char> {
        match *self {
            StoreError::Sqlite(m) => "sqlite error: "@ + m@,
            StoreError::Domain(e) => domain_message(e@),
        }
    }

    /// The message that tells an operator what is wrong.
    pub fn to_string(&self) -> (r: String)
        ensures
            r@ == self.message(),
    {
        match self {
            StoreError::Sqlite(m) => {
                let mut r = "sqlite error: ".to_string();
                r.append(m.as_str());
                r
            },
            StoreError::Domain(e) => e.to_string(),
        }
    }
}

impl From<DomainError> for StoreError {
    fn from(e: DomainError) -> (r: StoreError) {
        StoreError::Domain(e)
    }
}

impl vstd::std_specs::convert::FromSpecImpl<DomainError> for StoreError {
    open spec fn obeys_from_spec() -> bool {
        true
    }

    open spec fn from_spec(e: DomainError) -> StoreError {
        StoreError::Domain(e)
    }
}

impl From<StoreError> for String {
    fn from(e: StoreError) -> (r: String)
        ensures
            r@ == e.message(),
    {
        e.to_string()
    }
}

impl vstd::std_specs::convert::FromSpecImpl<StoreError> for String {
    open spec fn obeys_from_spec() -> bool {
        false
    }

    open spec fn from_spec(e: StoreError) -> String {
        arbitrary()
    }
}

} // verus!
