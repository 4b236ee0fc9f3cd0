//! The configuration: built-in defaults, overridden by a file, overridden by
//! the environment. A present value is used or refused; only an environment
//! variable that is blank, or no number where one is due, counts as absent.

use vstd::prelude::*;
use vstd::string::*;
use vstd::utf8::*;

use crate::domain::{
    hint_form, host_fault, interval_fault, lemma_ascii_text, name_fault, names_of, path_fault,
    port_fault, target_fault, targets_data, targets_fault, timeout_fault, CheckInterval,
    DbPath, HistoryLimit, Host, MonitorTarget, NonEmptyTargets, Port, ProbeTimeout, TargetData,
    TargetName,
};
use crate::error::{domain_message, ConfigError, ConfigFault, DomainFault};
use crate::platform::{debug_form, debug_text};
use crate::text::{
    cut_first, cut_last, number, parse_u16, parse_unsigned, parts, rsplit_once, split, split_once,
    texts, trim, trimmed, unsigned_text,
};

verus! {

// ---------------------------------------------------------------------------
// Target lists
// ---------------------------------------------------------------------------

/// The fault of an entry of a target list.
pub open spec fn entry_fault(index: int, entry: Seq<char>, reason: Seq<char>) -> ConfigFault {
    ConfigFault::InvalidTargetEntry { index: index as usize, entry, reason }
}

/// The target that the entry `part` stands for: `name=host:port`, or
/// `host:port`, which is then the name too. An empty name is replaced by
/// `host:port`.
pub open spec fn entry_target(index: int, part: Seq<char>) -> Result<TargetData, ConfigFault> {
    let (name, addr) = match cut_first(part, '=') {
        Some((n, a)) => (trimmed(n), trimmed(a)),
        None => (part, part),
    };
    match cut_last(addr, ':') {
        None => Err(entry_fault(index, part, "expected host:port"@)),
        Some((host, port_raw)) => match number(trimmed(port_raw), u16::MAX as nat) {
            None => Err(entry_fault(index, part, "invalid port "@ + debug_form(port_raw))),
            Some(port) => {
                let shown = if trimmed(name).len() == 0 {
                    hint_form(host, port as u16)
                } else {
                    trimmed(name)
                };
                match target_fault(shown, trimmed(host), port as u16) {
                    Some(f) => Err(entry_fault(index, part, domain_message(f))),
                    None => Ok(
                        TargetData {
                            name: trimmed(shown),
                            host: trimmed(trimmed(host)),
                            port: port as u16,
                        },
                    ),
                }
            },
        },
    }
}

/// The targets of the first `n` of the parts `ps`, of which blank ones stand for
/// none; or the fault of the first part that is no target.
pub open spec fn listed(ps: Seq<Seq<char>>, n: nat) -> Result<Seq<TargetData>, ConfigFault>
    decreases n,
{
    if n == 0 {
        Ok(Seq::empty())
    } else {
        let i = (n - 1) as nat;
        match listed(ps, i) {
            Err(e) => Err(e),
            Ok(ts) => {
                let part = trimmed(ps[i as int]);
                if part.len() == 0 {
                    Ok(ts)
                } else {
                    match entry_target(i as int, part) {
                        Ok(t) => Ok(ts.push(t)),
                        Err(e) => Err(e),
                    }
                }
            },
        }
    }
}

/// The targets of a comma-separated list.
pub open spec fn target_list(raw: Seq<char>) -> Result<Seq<TargetData>, ConfigFault> {
    listed(parts(raw, ','), parts(raw, ',').len())
}

/// A fault of the first `k` parts is the fault of them all.
proof fn lemma_listed_fault(ps: Seq<Seq<char>>, k: nat, n: nat)
    requires
        k <= n,
        listed(ps, k) is Err,
    ensures
        listed(ps, n) == listed(ps, k),
    decreases n,
{
    if k < n {
        lemma_listed_fault(ps, k, (n - 1) as nat);
    }
}

fn invalid_entry(index: usize, entry: &str, reason: String) -> (r: ConfigError)
    ensures
        r@ == entry_fault(index as int, entry@, reason@),
{
    ConfigError::InvalidTargetEntry { index, entry: entry.to_string(), reason }
}

/// Reads one entry of a target list.
fn parse_entry(index: usize, part: &str) -> (r: Result<MonitorTarget, ConfigError>)
    ensures
        match r {
            Ok(t) => entry_target(index as int, part@) == Ok::<TargetData, ConfigFault>(t@),
            Err(e) => entry_target(index as int, part@) == Err::<TargetData, ConfigFault>(e@),
        },
{
    let (name, addr) = match split_once(part, '=') {
        Some((n, a)) => (trim(n), trim(a)),
        None => (part, part),
    };
    let (host, port_raw) = match rsplit_once(addr, ':') {
        Some((h, p)) => (h, p),
        None => {
            return Err(invalid_entry(index, part, "expected host:port".to_string()));
        },
    };
    let port: u16 = match parse_u16(trim(port_raw)) {
        Some(p) => p,
        None => {
            let mut reason = "invalid port ".to_string();
            reason.append(debug_text(port_raw).as_str());
            return Err(invalid_entry(index, part, reason));
        },
    };
    let own_name = trim(name);
    let shown: String = if own_name.is_empty() {
        let mut s = host.to_string();
        s.append(":");
        s.append(unsigned_text(port as u64).as_str());
        s
    } else {
        own_name.to_string()
    };
    match MonitorTarget::parse(shown.as_str(), trim(host), port) {
        Ok(t) => Ok(t),
        Err(e) => Err(invalid_entry(index, part, e.to_string())),
    }
}

/// Reads a comma-separated list of targets, `"Name=host:port,host2:port2"`.
/// Fails with the index of the first entry that is no target.
pub fn parse_targets_env(raw: &str) -> (r: Result<Vec<MonitorTarget>, ConfigError>)
    ensures
        match r {
            Ok(ts) => target_list(raw@) == Ok::<Seq<TargetData>, ConfigFault>(targets_data(ts@)),
            Err(e) => target_list(raw@) == Err::<Seq<TargetData>, ConfigFault>(e@),
        },
{
    let ps = split(raw, ',');
    let ghost all = parts(raw@, ',');
    let mut out: Vec<MonitorTarget> = Vec::new();
    let mut i: usize = 0;
    assert(targets_data(out@) =~= Seq::empty());
    while i < ps.len()
        invariant
            i <= ps.len(),
            all == parts(raw@, ','),
            texts(ps@) == all,
            listed(all, i as nat) == Ok::<Seq<TargetData>, ConfigFault>(targets_data(out@)),
        decreases ps.len() - i,
    {
        assert(all[i as int] == ps@[i as int]@);
        let part = trim(ps[i]);
        if !part.is_empty() {
            match parse_entry(i, part) {
                Ok(t) => {
                    let ghost before = targets_data(out@);
                    out.push(t);
                    assert(targets_data(out@) =~= before.push(t@));
                },
                Err(e) => {
                    proof {
                        lemma_listed_fault(all, (i + 1) as nat, all.len());
                    }
                    return Err(e);
                },
            }
        }
        i += 1;
    }
    Ok(out)
}

// ---------------------------------------------------------------------------
// Config
// ---------------------------------------------------------------------------

/// A complete configuration.
#[derive(Debug)]
pub struct Config {
    pub port: Port,
    pub db_path: DbPath,
    pub check_interval: CheckInterval,
    pub check_timeout: ProbeTimeout,
    pub history_limit: HistoryLimit,
    pub targets: NonEmptyTargets,
}

/// What a [`Config`] says, over plain values.
pub struct ConfigData {
    pub port: u16,
    pub db_path: Seq<char>,
    pub interval: u64,
    pub timeout: u64,
    pub limit: usize,
    pub targets: Seq<TargetData>,
}

impl View for Config {
    type V = ConfigData;

    open spec fn view(&self) -> ConfigData {
        ConfigData {
            port: self.port@,
            db_path: self.db_path@,
            interval: self.check_interval@,
            timeout: self.check_timeout@,
            limit: self.history_limit@,
            targets: self.targets@,
        }
    }
}

/// Is every part of a configuration in range, and no probe allowed to outlast
/// the interval between two rounds?
pub open spec fn is_config(c: ConfigData) -> bool {
    &&& port_fault(c.port) is None
    &&& path_fault(c.db_path) is None
    &&& interval_fault(c.interval) is None
    &&& timeout_fault(c.timeout) is None
    &&& crate::domain::limit_fault(c.limit) is None
    &&& targets_fault(c.targets) is None
    &&& c.timeout <= c.interval
}

/// The configuration where nothing else is said.
pub open spec fn default_config() -> ConfigData {
    ConfigData {
        port: 3000,
        db_path: "netmon.db"@,
        interval: CheckInterval::DEFAULT_SECS,
        timeout: ProbeTimeout::DEFAULT_SECS,
        limit: HistoryLimit::DEFAULT,
        targets: default_targets(),
    }
}

/// The targets where none are given.
pub open spec fn default_targets() -> Seq<TargetData> {
    seq![
        TargetData { name: "Google DNS"@, host: "8.8.8.8"@, port: 53 },
        TargetData { name: "Cloudflare DNS"@, host: "1.1.1.1"@, port: 53 },
        TargetData { name: "Google HTTPS"@, host: "google.com"@, port: 443 },
    ]
}

/// The fault of a timeout that is longer than the interval.
pub open spec fn pace_fault(interval: u64, timeout: u64) -> Option<ConfigFault> {
    if timeout > interval {
        Some(ConfigFault::TimeoutExceedsInterval { timeout, interval })
    } else {
        None
    }
}

/// The built-in texts are what their types ask for.
proof fn lemma_default_texts()
    ensures
        name_fault("Google DNS"@) is None,
        name_fault("Cloudflare DNS"@) is None,
        name_fault("Google HTTPS"@) is None,
        trimmed("Google DNS"@) == "Google DNS"@,
        trimmed("Cloudflare DNS"@) == "Cloudflare DNS"@,
        trimmed("Google HTTPS"@) == "Google HTTPS"@,
        host_fault("8.8.8.8"@) is None,
        host_fault("1.1.1.1"@) is None,
        host_fault("google.com"@) is None,
        trimmed("8.8.8.8"@) == "8.8.8.8"@,
        trimmed("1.1.1.1"@) == "1.1.1.1"@,
        trimmed("google.com"@) == "google.com"@,
        path_fault("netmon.db"@) is None,
{
    reveal_strlit("Google DNS");
    reveal_strlit("Cloudflare DNS");
    reveal_strlit("Google HTTPS");
    reveal_strlit("8.8.8.8");
    reveal_strlit("1.1.1.1");
    reveal_strlit("google.com");
    reveal_strlit("netmon.db");
    lemma_ascii_text("Google DNS"@);
    lemma_ascii_text("Cloudflare DNS"@);
    lemma_ascii_text("Google HTTPS"@);
    lemma_ascii_text("8.8.8.8"@);
    lemma_ascii_text("1.1.1.1"@);
    lemma_ascii_text("google.com"@);
    lemma_ascii_text("netmon.db"@);
}

/// The built-in targets have three different names.
proof fn lemma_default_targets()
    ensures
        targets_fault(default_targets()) is None,
{
    let names = names_of(default_targets());
    reveal_strlit("Google DNS");
    reveal_strlit("Cloudflare DNS");
    reveal_strlit("Google HTTPS");
    assert(names.len() == 3);
    assert(names[0].len() == 10 && names[1].len() == 14 && names[2].len() == 12);
    assert(names.no_duplicates());
    crate::domain::lemma_first_repeat(names);
}

impl Config {
    /// Puts a configuration together; the timeout must not exceed the interval.
    pub fn new(
        port: Port,
        db_path: DbPath,
        check_interval: CheckInterval,
        check_timeout: ProbeTimeout,
        history_limit: HistoryLimit,
        targets: NonEmptyTargets,
    ) -> (r: Result<Self, ConfigError>)
        ensures
            match r {
                Ok(c) => {
                    &&& pace_fault(check_interval@, check_timeout@) is None
                    &&& c == (Config {
                        port,
                        db_path,
                        check_interval,
                        check_timeout,
                        history_limit,
                        targets,
                    })
                    &&& is_config(c@)
                },
                Err(e) => pace_fault(check_interval@, check_timeout@) == Some(e@),
            },
    {
        let timeout: u64 = check_timeout.secs();
        let interval: u64 = check_interval.secs();
        if timeout > interval {
            return Err(ConfigError::TimeoutExceedsInterval { timeout, interval });
        }
        proof {
            use_type_invariant(&port);
            use_type_invariant(&db_path);
            use_type_invariant(&history_limit);
            use_type_invariant(&targets);
        }
        Ok(Config { port, db_path, check_interval, check_timeout, history_limit, targets })
    }

    /// The port to serve on.
    pub fn port_u16(&self) -> (r: u16)
        ensures
            r == self@.port,
    {
        self.port.get()
    }

    /// The interval between two rounds of probes, in seconds.
    pub fn interval_secs(&self) -> (r: u64)
        ensures
            r == self@.interval,
    {
        self.check_interval.secs()
    }

    /// How long one probe may take, in seconds.
    pub fn timeout_secs(&self) -> (r: u64)
        ensures
            r == self@.timeout,
    {
        self.check_timeout.secs()
    }

    /// The configuration where nothing else is said.
    pub fn defaults() -> (r: Self)
        ensures
            r@ == default_config(),
            is_config(r@),
    {
        proof {
            lemma_default_texts();
            lemma_default_targets();
        }
        let port = Port::new(3000).unwrap();
        let db_path = DbPath::new("netmon.db").unwrap();
        let dns = Port::new(53).unwrap();
        let https = Port::new(443).unwrap();
        let mut list: Vec<MonitorTarget> = Vec::new();
        list.push(MonitorTarget::new(TargetName::known("Google DNS"), Host::known("8.8.8.8"), dns));
        list.push(
            MonitorTarget::new(TargetName::known("Cloudflare DNS"), Host::known("1.1.1.1"), dns),
        );
        list.push(
            MonitorTarget::new(TargetName::known("Google HTTPS"), Host::known("google.com"), https),
        );
        assert(targets_data(list@) =~= default_targets());
        let targets = NonEmptyTargets::new(list).unwrap();
        Config::new(
            port,
            db_path,
            CheckInterval::default_valid(),
            ProbeTimeout::default_valid(),
            HistoryLimit::default_valid(),
            targets,
        ).unwrap()
    }
}

impl Clone for Config {
    fn clone(&self) -> (r: Self)
        ensures
            r@ == self@,
    {
        Config {
            port: self.port,
            db_path: self.db_path.clone(),
            check_interval: self.check_interval,
            check_timeout: self.check_timeout,
            history_limit: self.history_limit,
            targets: self.targets.clone(),
        }
    }
}

// ---------------------------------------------------------------------------
// Sources
// ---------------------------------------------------------------------------

/// What a configuration file says. Absent fields say nothing.
#[derive(Debug)]
pub struct FileConfig {
    pub port: Option<u16>,
    pub db_path: Option<String>,
    pub check_interval_secs: Option<u64>,
    pub check_timeout_secs: Option<u64>,
    pub targets: Option<Vec<MonitorTarget>>,
}

/// What a source says, over plain values. Absent fields say nothing.
pub struct SettingsData {
    pub port: Option<u16>,
    pub db_path: Option<Seq<char>>,
    pub interval: Option<u64>,
    pub timeout: Option<u64>,
    pub targets: Option<Seq<TargetData>>,
}

/// What each target of a list says, where there is one.
pub open spec fn maybe_targets(ts: Option<Vec<MonitorTarget>>) -> Option<Seq<TargetData>> {
    match ts {
        Some(v) => Some(targets_data(v@)),
        None => None,
    }
}

impl View for FileConfig {
    type V = SettingsData;

    open spec fn view(&self) -> SettingsData {
        SettingsData {
            port: self.port,
            db_path: crate::domain::string_of(self.db_path),
            interval: self.check_interval_secs,
            timeout: self.check_timeout_secs,
            targets: maybe_targets(self.targets),
        }
    }
}

/// What came of reading the configuration file.
#[derive(Debug)]
pub enum FileSource {
    /// There is no such file.
    Absent,
    /// The file is there but could not be read or understood.
    Unusable { path: String, reason: String },
    /// The file was read.
    Read(FileConfig),
}

/// The values of the environment variables that bear on the configuration.
#[derive(Debug)]
pub struct EnvVars {
    /// `PORT`
    pub port: Option<String>,
    /// `DB_PATH`
    pub db_path: Option<String>,
    /// `CHECK_INTERVAL_SECS`
    pub check_interval_secs: Option<String>,
    /// `CHECK_TIMEOUT_SECS`
    pub check_timeout_secs: Option<String>,
    /// `TARGETS`
    pub targets: Option<String>,
}

/// What the environment variables hold, as sequences of characters.
pub struct EnvData {
    pub port: Option<Seq<char>>,
    pub db_path: Option<Seq<char>>,
    pub interval: Option<Seq<char>>,
    pub timeout: Option<Seq<char>>,
    pub targets: Option<Seq<char>>,
}

impl View for EnvVars {
    type V = EnvData;

    open spec fn view(&self) -> EnvData {
        EnvData {
            port: crate::domain::string_of(self.port),
            db_path: crate::domain::string_of(self.db_path),
            interval: crate::domain::string_of(self.check_interval_secs),
            timeout: crate::domain::string_of(self.check_timeout_secs),
            targets: crate::domain::string_of(self.targets),
        }
    }
}

/// The number in the variable `v`, where it holds one of at most sixteen bits.
pub open spec fn short_setting(v: Option<Seq<char>>) -> Option<u16> {
    match v {
        Some(s) => match number(s, u16::MAX as nat) {
            Some(n) => Some(n as u16),
            None => None,
        },
        None => None,
    }
}

/// The number in the variable `v`, where it holds one of at most 64 bits.
pub open spec fn long_setting(v: Option<Seq<char>>) -> Option<u64> {
    match v {
        Some(s) => match number(s, u64::MAX as nat) {
            Some(n) => Some(n as u64),
            None => None,
        },
        None => None,
    }
}

/// The text in the variable `v`, unless it is blank.
pub open spec fn text_setting(v: Option<Seq<char>>) -> Option<Seq<char>> {
    match v {
        Some(s) => if trimmed(s).len() == 0 {
            None
        } else {
            Some(s)
        },
        None => None,
    }
}

/// Reads a sixteen-bit number from the value of a variable.
pub fn env_u16(v: &Option<String>) -> (r: Option<u16>)
    ensures
        r == short_setting(crate::domain::string_of(*v)),
{
    match v {
        Some(s) => parse_u16(s.as_str()),
        None => None,
    }
}

/// Reads a 64-bit number from the value of a variable.
pub fn env_u64(v: &Option<String>) -> (r: Option<u64>)
    ensures
        r == long_setting(crate::domain::string_of(*v)),
{
    match v {
        Some(s) => parse_unsigned(s.as_str(), u64::MAX),
        None => None,
    }
}

/// The path of the configuration file, given the variable `CONFIG_PATH`.
pub fn config_path(v: Option<String>) -> (r: String)
    ensures
        r@ == (match v {
            Some(s) => s@,
            None => "config.json"@,
        }),
{
    match v {
        Some(s) => s,
        None => "config.json".to_string(),
    }
}

// ---------------------------------------------------------------------------
// Builder
// ---------------------------------------------------------------------------

/// The later of two sources, where it says something.
pub open spec fn later<T>(earlier: Option<T>, later: Option<T>) -> Option<T> {
    if later is Some {
        later
    } else {
        earlier
    }
}

/// A list of targets, unless it is empty.
pub open spec fn some_targets(ts: Option<Seq<TargetData>>) -> Option<Seq<TargetData>> {
    match ts {
        Some(l) => if l.len() == 0 {
            None
        } else {
            Some(l)
        },
        None => None,
    }
}

/// `b`, overridden by what the file says. An empty list of targets says nothing.
pub open spec fn with_file(b: SettingsData, f: SettingsData) -> SettingsData {
    SettingsData {
        port: later(b.port, f.port),
        db_path: later(b.db_path, f.db_path),
        interval: later(b.interval, f.interval),
        timeout: later(b.timeout, f.timeout),
        targets: later(b.targets, some_targets(f.targets)),
    }
}

/// `b`, overridden by what the environment says of all but the targets.
pub open spec fn with_env_values(b: SettingsData, env: EnvData) -> SettingsData {
    SettingsData {
        port: later(b.port, short_setting(env.port)),
        db_path: later(b.db_path, text_setting(env.db_path)),
        interval: later(b.interval, long_setting(env.interval)),
        timeout: later(b.timeout, long_setting(env.timeout)),
        targets: b.targets,
    }
}

/// `b`, overridden by what the environment says; or the fault in its list of
/// targets.
pub open spec fn with_env(b: SettingsData, env: EnvData) -> Result<SettingsData, ConfigFault> {
    let v = with_env_values(b, env);
    match text_setting(env.targets) {
        Some(raw) => match target_list(raw) {
            Ok(ts) => Ok(SettingsData { targets: Some(ts), ..v }),
            Err(e) => Err(e),
        },
        None => Ok(v),
    }
}

/// The fault of `v`, where there is one and it has a fault.
pub open spec fn setting_fault<T>(
    v: Option<T>,
    fault: spec_fn(T) -> Option<DomainFault>,
) -> Option<ConfigFault> {
    match v {
        Some(x) => match fault(x) {
            Some(f) => Some(ConfigFault::Domain(f)),
            None => None,
        },
        None => None,
    }
}

/// `v`, or `d` where it is absent.
pub open spec fn or_default<T>(v: Option<T>, d: T) -> T {
    match v {
        Some(x) => x,
        None => d,
    }
}

/// The settings, completed by the defaults.
pub open spec fn completed(b: SettingsData) -> ConfigData {
    let d = default_config();
    ConfigData {
        port: or_default(b.port, d.port),
        db_path: or_default(b.db_path, d.db_path),
        interval: or_default(b.interval, d.interval),
        timeout: or_default(b.timeout, d.timeout),
        limit: d.limit,
        targets: or_default(b.targets, d.targets),
    }
}

/// The first fault of the settings, in the order port, path, interval, timeout,
/// targets, pace.
pub open spec fn settings_fault(b: SettingsData) -> Option<ConfigFault> {
    let port = setting_fault(b.port, |p: u16| port_fault(p));
    let db_path = setting_fault(b.db_path, |p: Seq<char>| path_fault(p));
    let interval = setting_fault(b.interval, |s: u64| interval_fault(s));
    let timeout = setting_fault(b.timeout, |s: u64| timeout_fault(s));
    let targets = setting_fault(b.targets, |t: Seq<TargetData>| targets_fault(t));
    if port is Some {
        port
    } else if db_path is Some {
        db_path
    } else if interval is Some {
        interval
    } else if timeout is Some {
        timeout
    } else if targets is Some {
        targets
    } else {
        pace_fault(completed(b).interval, completed(b).timeout)
    }
}

/// The configuration that the settings make, or their first fault.
pub open spec fn built(b: SettingsData) -> Result<ConfigData, ConfigFault> {
    match settings_fault(b) {
        Some(e) => Err(e),
        None => Ok(completed(b)),
    }
}

/// Collects settings from the sources and checks them once, at the end.
#[derive(Debug)]
pub struct ConfigBuilder {
    pub port: Option<u16>,
    pub db_path: Option<String>,
    pub interval_secs: Option<u64>,
    pub timeout_secs: Option<u64>,
    pub targets: Option<Vec<MonitorTarget>>,
}

impl View for ConfigBuilder {
    type V = SettingsData;

    open spec fn view(&self) -> SettingsData {
        SettingsData {
            port: self.port,
            db_path: crate::domain::string_of(self.db_path),
            interval: self.interval_secs,
            timeout: self.timeout_secs,
            targets: maybe_targets(self.targets),
        }
    }
}

/// Settings that say nothing.
pub open spec fn no_settings() -> SettingsData {
    SettingsData { port: None, db_path: None, interval: None, timeout: None, targets: None }
}

impl ConfigBuilder {
    /// A builder that leaves everything to the defaults.
    pub fn from_defaults() -> (r: Self)
        ensures
            r@ == no_settings(),
    {
        ConfigBuilder {
            port: None,
            db_path: None,
            interval_secs: None,
            timeout_secs: None,
            targets: None,
        }
    }

    /// Takes over what the file says.
    pub fn apply_file(&mut self, f: FileConfig) -> (r: Result<(), ConfigError>)
        ensures
            r is Ok,
            final(self)@ == with_file(old(self)@, f@),
    {
        if let Some(v) = f.port {
            self.port = Some(v);
        }
        if let Some(v) = f.db_path {
            self.db_path = Some(v);
        }
        if let Some(v) = f.check_interval_secs {
            self.interval_secs = Some(v);
        }
        if let Some(v) = f.check_timeout_secs {
            self.timeout_secs = Some(v);
        }
        if let Some(v) = f.targets {
            if !v.is_empty() {
                self.targets = Some(v);
            }
        }
        Ok(())
    }

    /// Takes over what the environment says.
    pub fn apply_env(&mut self, env: &EnvVars) -> (r: Result<(), ConfigError>)
        ensures
            match r {
                Ok(()) => with_env(old(self)@, env@) == Ok::<SettingsData, ConfigFault>(
                    final(self)@,
                ),
                Err(e) => {
                    &&& with_env(old(self)@, env@) == Err::<SettingsData, ConfigFault>(e@)
                    &&& final(self)@ == with_env_values(old(self)@, env@)
                },
            },
    {
        if let Some(v) = env_u16(&env.port) {
            self.port = Some(v);
        }
        if let Some(v) = &env.db_path {
            if !trim(v.as_str()).is_empty() {
                self.db_path = Some(v.clone());
            }
        }
        if let Some(v) = env_u64(&env.check_interval_secs) {
            self.interval_secs = Some(v);
        }
        if let Some(v) = env_u64(&env.check_timeout_secs) {
            self.timeout_secs = Some(v);
        }
        assert(self@ == with_env_values(old(self)@, env@));
        if let Some(raw) = &env.targets {
            if !trim(raw.as_str()).is_empty() {
                match parse_targets_env(raw.as_str()) {
                    Ok(ts) => {
                        self.targets = Some(ts);
                    },
                    Err(e) => {
                        return Err(e);
                    },
                }
            }
        }
        Ok(())
    }

    /// Checks the settings and completes them by the defaults.
    pub fn build(self) -> (r: Result<Config, ConfigError>)
        ensures
            match r {
                Ok(c) => built(self@) == Ok::<ConfigData, ConfigFault>(c@) && is_config(c@),
                Err(e) => built(self@) == Err::<ConfigData, ConfigFault>(e@),
            },
    {
        let d = Config::defaults();
        let port = match self.port {
            Some(p) => match Port::new(p) {
                Ok(p) => p,
                Err(e) => {
                    return Err(ConfigError::Domain(e));
                },
            },
            None => d.port,
        };
        let db_path = match &self.db_path {
            Some(p) => match DbPath::new(p.as_str()) {
                Ok(p) => p,
                Err(e) => {
                    return Err(ConfigError::Domain(e));
                },
            },
            None => d.db_path,
        };
        let interval = match self.interval_secs {
            Some(s) => match CheckInterval::new(s) {
                Ok(i) => i,
                Err(e) => {
                    return Err(ConfigError::Domain(e));
                },
            },
            None => d.check_interval,
        };
        let timeout = match self.timeout_secs {
            Some(s) => match ProbeTimeout::new(s) {
                Ok(t) => t,
                Err(e) => {
                    return Err(ConfigError::Domain(e));
                },
            },
            None => d.check_timeout,
        };
        let targets = match self.targets {
            Some(t) => match NonEmptyTargets::new(t) {
                Ok(l) => l,
                Err(e) => {
                    return Err(ConfigError::Domain(e));
                },
            },
            None => d.targets,
        };
        Config::new(port, db_path, interval, timeout, HistoryLimit::default_valid(), targets)
    }
}

// ---------------------------------------------------------------------------
// Loading
// ---------------------------------------------------------------------------

/// What came of reading the configuration file, over plain values.
pub enum FileData {
    Absent,
    Unusable { path: Seq<char>, reason: Seq<char> },
    Read(SettingsData),
}

impl View for FileSource {
    type V = FileData;

    open spec fn view(&self) -> FileData {
        match *self {
            FileSource::Absent => FileData::Absent,
            FileSource::Unusable { path, reason } => FileData::Unusable {
                path: path@,
                reason: reason@,
            },
            FileSource::Read(f) => FileData::Read(f@),
        }
    }
}

/// The settings of the file, where it could be used.
pub open spec fn file_settings(file: FileData) -> Result<SettingsData, ConfigFault> {
    match file {
        FileData::Absent => Ok(no_settings()),
        FileData::Unusable { path, reason } => Err(ConfigFault::InvalidFile { path, reason }),
        FileData::Read(f) => Ok(with_file(no_settings(), f)),
    }
}

/// The configuration of defaults, overridden by a file, overridden by the
/// environment; or the first fault on the way.
pub open spec fn loaded(file: FileData, env: EnvData) -> Result<ConfigData, ConfigFault> {
    match file_settings(file) {
        Err(e) => Err(e),
        Ok(b) => match with_env(b, env) {
            Err(e) => Err(e),
            Ok(b) => built(b),
        },
    }
}

impl Config {
    /// Loads the configuration from what was read of its sources.
    pub fn load(file: FileSource, env: &EnvVars) -> (r: Result<Self, ConfigError>)
        ensures
            match r {
                Ok(c) => loaded(file@, env@) == Ok::<ConfigData, ConfigFault>(c@) && is_config(c@),
                Err(e) => loaded(file@, env@) == Err::<ConfigData, ConfigFault>(e@),
            },
    {
        let mut b = ConfigBuilder::from_defaults();
        match file {
            FileSource::Absent => {},
            FileSource::Unusable { path, reason } => {
                return Err(ConfigError::InvalidFile { path, reason });
            },
            FileSource::Read(f) => {
                match b.apply_file(f) {
                    Ok(()) => {},
                    Err(e) => {
                        return Err(e);
                    },
                }
            },
        }
        match b.apply_env(env) {
            Ok(()) => {},
            Err(e) => {
                return Err(e);
            },
        }
        b.build()
    }
}

// ---------------------------------------------------------------------------
// Laws
// ---------------------------------------------------------------------------

/// An environment that says nothing.
pub open spec fn no_env() -> EnvData {
    EnvData { port: None, db_path: None, interval: None, timeout: None, targets: None }
}

/// The environment overrides the file, and the file overrides the defaults, each
/// field for itself.
pub proof fn law_precedence(file: SettingsData, env: EnvData)
    requires
        loaded(FileData::Read(file), env) is Ok,
    ensures
        ({
            let c = loaded(FileData::Read(file), env)->Ok_0;
            let d = default_config();
            &&& c.port == or_default(short_setting(env.port), or_default(file.port, d.port))
            &&& c.db_path == or_default(
                text_setting(env.db_path),
                or_default(file.db_path, d.db_path),
            )
            &&& c.interval == or_default(
                long_setting(env.interval),
                or_default(file.interval, d.interval),
            )
            &&& c.timeout == or_default(
                long_setting(env.timeout),
                or_default(file.timeout, d.timeout),
            )
            &&& c.limit == d.limit
            &&& match text_setting(env.targets) {
                Some(raw) => target_list(raw) == Ok::<Seq<TargetData>, ConfigFault>(c.targets),
                None => c.targets == or_default(some_targets(file.targets), d.targets),
            }
        }),
{
}

/// A present setting is never replaced by its default: the configuration has it
/// as it is, or there is none.
pub proof fn law_present_settings_are_used(b: SettingsData)
    ensures
        match built(b) {
            Ok(c) => {
                &&& b.port is Some ==> c.port == b.port->0
                &&& b.db_path is Some ==> c.db_path == b.db_path->0
                &&& b.interval is Some ==> c.interval == b.interval->0
                &&& b.timeout is Some ==> c.timeout == b.timeout->0
                &&& b.targets is Some ==> c.targets == b.targets->0
            },
            Err(_) => true,
        },
{
}

/// A present setting that its own type refuses is refused, whatever the others
/// say.
pub proof fn law_invalid_settings_are_refused(b: SettingsData)
    requires
        ({
            ||| b.port is Some && port_fault(b.port->0) is Some
            ||| b.db_path is Some && path_fault(b.db_path->0) is Some
            ||| b.interval is Some && interval_fault(b.interval->0) is Some
            ||| b.timeout is Some && timeout_fault(b.timeout->0) is Some
            ||| b.targets is Some && targets_fault(b.targets->0) is Some
        }),
    ensures
        built(b) is Err,
{
}

/// A value out of range is refused wherever it comes from: in the environment,
/// or in the file where the environment does not override it. (A variable that
/// is no number where one is due says nothing.)
pub proof fn law_invalid_sources_are_refused(file: SettingsData, env: EnvData)
    requires
        ({
            let port = later(file.port, short_setting(env.port));
            let db_path = later(file.db_path, text_setting(env.db_path));
            let interval = later(file.interval, long_setting(env.interval));
            let timeout = later(file.timeout, long_setting(env.timeout));
            ||| port is Some && port_fault(port->0) is Some
            ||| db_path is Some && path_fault(db_path->0) is Some
            ||| interval is Some && interval_fault(interval->0) is Some
            ||| timeout is Some && timeout_fault(timeout->0) is Some
            ||| match text_setting(env.targets) {
                Some(raw) => match target_list(raw) {
                    Ok(ts) => targets_fault(ts) is Some,
                    Err(_) => true,
                },
                None => some_targets(file.targets) is Some && targets_fault(file.targets->0)
                    is Some,
            }
        }),
    ensures
        loaded(FileData::Read(file), env) is Err,
{
}

/// Whatever the sources say, a configuration that comes of them is valid; in
/// particular no probe may outlast the interval, and there is a target.
pub proof fn law_loaded_is_valid(file: FileData, env: EnvData)
    ensures
        match loaded(file, env) {
            Ok(c) => is_config(c),
            Err(_) => true,
        },
{
    lemma_default_texts();
    lemma_default_targets();
}

/// Without a file and without environment variables, the defaults hold.
pub proof fn law_defaults_where_nothing_is_said()
    ensures
        loaded(FileData::Absent, no_env()) == Ok::<ConfigData, ConfigFault>(default_config()),
{
}

/// A file that is present and cannot be used is an error, whatever the
/// environment says.
pub proof fn law_unusable_file_is_refused(path: Seq<char>, reason: Seq<char>, env: EnvData)
    ensures
        loaded(FileData::Unusable { path, reason }, env) == Err::<ConfigData, ConfigFault>(
            ConfigFault::InvalidFile { path, reason },
        ),
{
}

/// How many of the first `n` parts are not blank.
pub open spec fn filled(ps: Seq<Seq<char>>, n: nat) -> nat
    decreases n,
{
    if n == 0 {
        0
    } else {
        filled(ps, (n - 1) as nat) + if trimmed(ps[n - 1]).len() == 0 {
            0nat
        } else {
            1nat
        }
    }
}

/// A list is read without skipping an entry: there is one target for every part
/// that is not blank.
pub proof fn law_every_entry_counts(raw: Seq<char>)
    requires
        target_list(raw) is Ok,
    ensures
        target_list(raw)->Ok_0.len() == filled(parts(raw, ','), parts(raw, ',').len()),
{
    lemma_every_entry_counts(parts(raw, ','), parts(raw, ',').len());
}

proof fn lemma_every_entry_counts(ps: Seq<Seq<char>>, n: nat)
    requires
        listed(ps, n) is Ok,
    ensures
        listed(ps, n)->Ok_0.len() == filled(ps, n),
    decreases n,
{
    if n > 0 {
        lemma_every_entry_counts(ps, (n - 1) as nat);
    }
}

/// A list is refused for an entry of it, which the fault names by its index and
/// its text, and before which every entry is a target.
pub proof fn law_fault_names_its_entry(raw: Seq<char>)
    requires
        target_list(raw) is Err,
        parts(raw, ',').len() <= usize::MAX,
    ensures
        ({
            let ps = parts(raw, ',');
            &&& target_list(raw)->Err_0 matches ConfigFault::InvalidTargetEntry {
                index,
                entry,
                reason,
            }
            &&& index < ps.len()
            &&& entry == trimmed(ps[index as int])
            &&& entry.len() > 0
            &&& listed(ps, index as nat) is Ok
        }),
{
    lemma_fault_names_its_entry(parts(raw, ','), parts(raw, ',').len());
}

proof fn lemma_fault_names_its_entry(ps: Seq<Seq<char>>, n: nat)
    requires
        listed(ps, n) is Err,
        n <= ps.len() <= usize::MAX,
    ensures
        ({
            &&& listed(ps, n)->Err_0 matches ConfigFault::InvalidTargetEntry {
                index,
                entry,
                reason,
            }
            &&& index < ps.len()
            &&& entry == trimmed(ps[index as int])
            &&& entry.len() > 0
            &&& listed(ps, index as nat) is Ok
        }),
    decreases n,
{
    let i = (n - 1) as nat;
    if listed(ps, i) is Err {
        lemma_fault_names_its_entry(ps, i);
    }
}

/// Every target of a list is one that its types accept.
pub proof fn law_listed_targets_are_valid(raw: Seq<char>, k: int)
    requires
        target_list(raw) is Ok,
        0 <= k < target_list(raw)->Ok_0.len(),
    ensures
        ({
            let t = target_list(raw)->Ok_0[k];
            crate::domain::is_name(t.name) && crate::domain::is_host(t.host) && t.port != 0
        }),
{
    lemma_listed_targets_are_valid(parts(raw, ','), parts(raw, ',').len(), k);
}

proof fn lemma_listed_targets_are_valid(ps: Seq<Seq<char>>, n: nat, k: int)
    requires
        listed(ps, n) is Ok,
        0 <= k < listed(ps, n)->Ok_0.len(),
    ensures
        ({
            let t = listed(ps, n)->Ok_0[k];
            crate::domain::is_name(t.name) && crate::domain::is_host(t.host) && t.port != 0
        }),
    decreases n,
{
    let i = (n - 1) as nat;
    let before = listed(ps, i)->Ok_0;
    if k < before.len() {
        lemma_listed_targets_are_valid(ps, i, k);
    } else {
        let t = listed(ps, n)->Ok_0[k];
        lemma_entry_target_is_valid(i as int, trimmed(ps[i as int]));
    }
}

proof fn lemma_entry_target_is_valid(index: int, part: Seq<char>)
    requires
        entry_target(index, part) is Ok,
    ensures
        ({
            let t = entry_target(index, part)->Ok_0;
            crate::domain::is_name(t.name) && crate::domain::is_host(t.host) && t.port != 0
        }),
{
    let (name, addr) = match cut_first(part, '=') {
        Some((n, a)) => (trimmed(n), trimmed(a)),
        None => (part, part),
    };
    let (host, port_raw) = cut_last(addr, ':')->0;
    let port = number(trimmed(port_raw), u16::MAX as nat)->0;
    let shown = if trimmed(name).len() == 0 {
        hint_form(host, port as u16)
    } else {
        trimmed(name)
    };
    crate::text::lemma_trimmed_idempotent(shown);
    crate::text::lemma_trimmed_idempotent(host);
    crate::text::lemma_trimmed_idempotent(trimmed(host));
}

} // verus!
