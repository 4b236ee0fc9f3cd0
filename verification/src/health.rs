//! The self-healthcheck: which port is asked, what is sent, whether the reply is
//! a healthy one, and how the result is reported.

use vstd::prelude::*;
use vstd::string::*;
use vstd::utf8::*;

use crate::domain::{port_fault, Port};
use crate::error::domain_message;
use crate::platform::{debug_form, debug_text, lossy_form, lossy_text};
use crate::text::{
    after_empty_line, contains_text, first_line, line_one, nth_word, number, occurs, parse_u16,
    same_text, skip_empty_line, text_of, trim, trimmed, word_at,
};

verus! {

/// How long each phase of the healthcheck may take, in seconds.
pub const HEALTHCHECK_TIMEOUT_SECS: u64 = 3;

/// The port that is asked where neither an argument nor the environment names
/// one.
pub const DEFAULT_PORT: u16 = 3000;

// ---------------------------------------------------------------------------
// The port
// ---------------------------------------------------------------------------

/// The text that names the port: the argument, or else what the environment
/// says, unless that is blank.
pub open spec fn port_text(arg: Option<Seq<char>>, env: Option<Seq<char>>) -> Option<Seq<char>> {
    match arg {
        Some(a) => Some(a),
        None => match env {
            Some(e) => if trimmed(e).len() > 0 {
                Some(e)
            } else {
                None
            },
            None => None,
        },
    }
}

/// The port that `raw` names, or why it names none.
pub open spec fn named_port(raw: Seq<char>) -> Result<u16, Seq<char>> {
    match number(trimmed(raw), u16::MAX as nat) {
        Some(n) => match port_fault(n as u16) {
            Some(e) => Err(domain_message(e)),
            None => Ok(n as u16),
        },
        None => Err("invalid port "@ + debug_form(raw)),
    }
}

/// The port to ask, or why there is none.
pub open spec fn health_port(arg: Option<Seq<char>>, env: Option<Seq<char>>) -> Result<
    u16,
    Seq<char>,
> {
    match port_text(arg, env) {
        Some(raw) => named_port(raw),
        None => Ok(DEFAULT_PORT),
    }
}

/// The view of a borrowed string, where there is one.
pub open spec fn arg_of(s: Option<&String>) -> Option<Seq<char>> {
    match s {
        Some(t) => Some(t@),
        None => None,
    }
}

/// The port to ask: the argument, or else what the environment says, or else
/// [`DEFAULT_PORT`].
pub fn resolve_health_port(arg: Option<&String>, env: Option<&str>) -> (r: Result<u16, String>)
    ensures
        match r {
            Ok(p) => health_port(arg_of(arg), text_of(env)) == Ok::<u16, Seq<char>>(p),
            Err(e) => health_port(arg_of(arg), text_of(env)) == Err::<u16, Seq<char>>(e@),
        },
{
    let raw = match arg {
        Some(a) => a.as_str(),
        None => match env {
            Some(e) => {
                if trim(e).is_empty() {
                    return Ok(DEFAULT_PORT);
                }
                e
            },
            None => {
                return Ok(DEFAULT_PORT);
            },
        },
    };
    let parsed: u16 = match parse_u16(trim(raw)) {
        Some(n) => n,
        None => {
            let mut m = "invalid port ".to_string();
            m.append(debug_text(raw).as_str());
            return Err(m);
        },
    };
    match Port::new(parsed) {
        Ok(p) => Ok(p.get()),
        Err(e) => Err(e.to_string()),
    }
}

/// An argument decides alone, whatever the environment says; without one a blank
/// environment counts as none, and then the default holds.
pub proof fn law_argument_comes_first(a: Seq<char>, env: Option<Seq<char>>)
    ensures
        health_port(Some(a), env) == named_port(a),
        env is Some && trimmed(env->0).len() > 0 ==> health_port(None, env) == named_port(env->0),
        env is None || trimmed(env->0).len() == 0 ==> health_port(None, env) == Ok::<
            u16,
            Seq<char>,
        >(DEFAULT_PORT),
{
}

/// Port zero is never asked.
pub proof fn law_port_zero_is_never_asked(arg: Option<Seq<char>>, env: Option<Seq<char>>)
    ensures
        health_port(arg, env) != Ok::<u16, Seq<char>>(0),
{
}

// ---------------------------------------------------------------------------
// The exchange
// ---------------------------------------------------------------------------

/// The request that is sent.
pub fn health_request() -> (r: &'static str)
    ensures
        r@ == "GET /api/health HTTP/1.1\r\nHost: 127.0.0.1\r\nConnection: close\r\n\r\n"@,
{
    "GET /api/health HTTP/1.1\r\nHost: 127.0.0.1\r\nConnection: close\r\n\r\n"
}

/// The body of a reply: what follows its first empty line.
pub open spec fn body_of(text: Seq<char>) -> Seq<char> {
    after_empty_line(text)
}

/// What is wrong with a reply; `None` where the second word of its first line is
/// `200` and `"ok"` occurs in its body.
pub open spec fn reply_fault(text: Seq<char>) -> Option<Seq<char>> {
    let status = line_one(text);
    if word_at(status, 1) != Some("200"@) {
        Some("unexpected status line "@ + debug_form(status))
    } else if !occurs(body_of(text), "\"ok\""@) {
        Some("response is missing the ok body"@)
    } else {
        None
    }
}

/// Checks the text of a reply.
pub fn check_reply(text: &str) -> (r: Result<(), String>)
    ensures
        match r {
            Ok(()) => reply_fault(text@) is None,
            Err(m) => reply_fault(text@) == Some(m@),
        },
{
    let status = first_line(text);
    let healthy: bool = match nth_word(status, 1) {
        Some(w) => same_text(w, "200"),
        None => false,
    };
    if !healthy {
        let mut m = "unexpected status line ".to_string();
        m.append(debug_text(status).as_str());
        return Err(m);
    }
    if !contains_text(skip_empty_line(text), "\"ok\"") {
        return Err("response is missing the ok body".to_string());
    }
    Ok(())
}

/// What is wrong with an exchange: its own failure, or that of the reply.
pub open spec fn exchange_fault(exchange: Result<Seq<u8>, Seq<char>>) -> Option<Seq<char>> {
    match exchange {
        Ok(bytes) => reply_fault(lossy_form(bytes)),
        Err(m) => Some(m),
    }
}

/// The bytes of a reply or the message of a failed exchange, over plain values.
pub open spec fn exchange_data(exchange: Result<Vec<u8>, String>) -> Result<Seq<u8>, Seq<char>> {
    match exchange {
        Ok(bytes) => Ok(bytes@),
        Err(m) => Err(m@),
    }
}

/// Checks the bytes that came back for the request, or hands on why none did.
pub fn check_health(exchange: Result<Vec<u8>, String>) -> (r: Result<(), String>)
    ensures
        match r {
            Ok(()) => exchange_fault(exchange_data(exchange)) is None,
            Err(m) => exchange_fault(exchange_data(exchange)) == Some(m@),
        },
        exchange matches Ok(bytes) ==> valid_utf8(bytes@) ==> (r is Ok <==> reply_fault(
            decode_utf8(bytes@),
        ) is None),
{
    match exchange {
        Ok(bytes) => check_reply(lossy_text(bytes.as_slice()).as_str()),
        Err(m) => Err(m),
    }
}

// ---------------------------------------------------------------------------
// The report
// ---------------------------------------------------------------------------

/// How a healthcheck ends: the exit code, and a line for the standard output
/// (code zero) or the standard error.
#[derive(Debug, PartialEq, Eq)]
pub struct HealthReport {
    pub code: i32,
    pub line: String,
}

/// What a healthcheck does first.
#[derive(Debug, PartialEq, Eq)]
pub enum HealthStep {
    /// Asks this port.
    Ask(u16),
    /// Ends at once.
    End(HealthReport),
}

/// Starts a healthcheck with the arguments behind the subcommand and the port
/// that the environment names.
pub fn start_healthcheck(extra: &[String], env: Option<&str>) -> (r: HealthStep)
    ensures
        ({
            let arg = if extra@.len() > 0 {
                Some(extra@[0]@)
            } else {
                None
            };
            match health_port(arg, text_of(env)) {
                Ok(p) => r == HealthStep::Ask(p),
                Err(m) => {
                    &&& r is End
                    &&& r->End_0.code == 1
                    &&& r->End_0.line@ == "healthcheck: "@ + m
                },
            }
        }),
{
    let arg: Option<&String> = if extra.len() > 0 {
        Some(&extra[0])
    } else {
        None
    };
    match resolve_health_port(arg, env) {
        Ok(p) => HealthStep::Ask(p),
        Err(e) => {
            let mut line = "healthcheck: ".to_string();
            line.append(e.as_str());
            HealthStep::End(HealthReport { code: 1, line })
        },
    }
}

/// The line with which an exchange ends a healthcheck.
pub open spec fn report_line(exchange: Result<Seq<u8>, Seq<char>>) -> Seq<char> {
    match exchange_fault(exchange) {
        None => "ok"@,
        Some(m) => "healthcheck: unhealthy: "@ + m,
    }
}

/// Ends a healthcheck with what came back.
pub fn run_healthcheck(exchange: Result<Vec<u8>, String>) -> (r: HealthReport)
    ensures
        match exchange_fault(exchange_data(exchange)) {
            None => r.code == 0 && r.line@ == "ok"@,
            Some(m) => r.code == 1 && r.line@ == "healthcheck: unhealthy: "@ + m,
        },
        r.code == exit_code(exchange_data(exchange)),
        r.line@ == report_line(exchange_data(exchange)),
        exchange matches Ok(bytes) ==> valid_utf8(bytes@) ==> (r.code == 0 <==> reply_fault(
            decode_utf8(bytes@),
        ) is None),
{
    match check_health(exchange) {
        Ok(()) => HealthReport { code: 0, line: "ok".to_string() },
        Err(e) => {
            let mut line = "healthcheck: unhealthy: ".to_string();
            line.append(e.as_str());
            HealthReport { code: 1, line }
        },
    }
}

/// The exit code with which an exchange ends a healthcheck.
pub open spec fn exit_code(exchange: Result<Seq<u8>, Seq<char>>) -> int {
    match exchange_fault(exchange) {
        None => 0,
        Some(_) => 1,
    }
}

/// The healthcheck succeeds exactly where a reply came, its status is 200 and its
/// body holds the `ok` of a healthy server; anything else ends it with code one.
pub proof fn law_healthy_exactly_on_ok_reply(exchange: Result<Seq<u8>, Seq<char>>)
    ensures
        exit_code(exchange) == 0 || exit_code(exchange) == 1,
        exit_code(exchange) == 0 <==> exchange is Ok && ({
            let text = lossy_form(exchange->Ok_0);
            word_at(line_one(text), 1) == Some("200"@) && occurs(
                body_of(text),
                "\"ok\""@,
            )
        }),
{
}

} // verus!
