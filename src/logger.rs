//! Observability records. The library appends them to a log that its caller
//! owns; the caller hands them on to whatever sink it runs.
use crate::text::joined;
use vstd::prelude::*;

verus! {

#[derive(Clone, Copy, Debug, PartialEq, Eq, Structural)]
pub enum LogLevel {
    Info,
    Warn,
    Error,
}

/// One line for the log, at a level.
#[derive(Clone, Debug)]
pub struct LogRecord {
    pub level: LogLevel,
    pub message: String,
}

/// The records of a log, with their messages as character sequences.
pub open spec fn entries(log: Seq<LogRecord>) -> Seq<(LogLevel, Seq<char>)> {
    log.map_values(|r: LogRecord| (r.level, r.message@))
}

/// The character of the decimal digit `d`.
pub open spec fn digit_char(d: int) -> char {
    seq!['0', '1', '2', '3', '4', '5', '6', '7', '8', '9'][d]
}

/// The decimal digits of `n`.
pub open spec fn decimal(n: nat) -> Seq<char>
    decreases n,
{
    if n < 10 {
        seq![digit_char(n as int)]
    } else {
        decimal(n / 10).push(digit_char((n % 10) as int))
    }
}

pub open spec fn navigation_line(url: Seq<char>) -> Seq<char> {
    "Navigation: "@ + url
}

pub open spec fn security_line(event: Seq<char>, details: Seq<char>) -> Seq<char> {
    "Security Event - "@ + event + ": "@ + details
}

pub open spec fn performance_line(operation: Seq<char>, duration_ms: nat) -> Seq<char> {
    "Performance - "@ + operation + ": "@ + decimal(duration_ms) + "ms"@
}

pub open spec fn error_line(context: Seq<char>, error: Seq<char>) -> Seq<char> {
    context + ": "@ + error
}

pub open spec fn cause_line(cause: Seq<char>) -> Seq<char> {
    "  Caused by: "@ + cause
}

/// The decimal digits of `n`, as text.
pub fn decimal_text(n: u64) -> (r: String)
    ensures
        r@ == decimal(n as nat),
    decreases n,
{
    let digits = "0123456789";
    proof {
        reveal_strlit("0123456789");
        assert(digits@ =~= seq!['0', '1', '2', '3', '4', '5', '6', '7', '8', '9']);
    }
    if n < 10 {
        let r = digits.substring_char(n as usize, n as usize + 1).to_string();
        assert(r@ =~= seq![digit_char(n as int)]);
        r
    } else {
        let d = (n % 10) as usize;
        let mut r = decimal_text(n / 10);
        let digit = digits.substring_char(d, d + 1);
        assert(digit@ =~= seq![digit_char(d as int)]);
        r.append(digit);
        assert(r@ =~= decimal(n as nat));
        r
    }
}

/// Appends one record to `log`.
pub fn record(log: &mut Vec<LogRecord>, level: LogLevel, message: String)
    ensures
        entries(final(log)@) == entries(old(log)@).push((level, message@)),
{
    let ghost m = message@;
    log.push(LogRecord { level, message });
    assert(entries(final(log)@) =~= entries(old(log)@).push((level, m)));
}

/// Logs a navigation to `url`, at info level.
pub fn log_navigation(log: &mut Vec<LogRecord>, url: &str)
    ensures
        entries(final(log)@) == entries(old(log)@).push((LogLevel::Info, navigation_line(url@))),
{
    record(log, LogLevel::Info, joined("Navigation: ", url));
}

/// Logs the security event `event` with its details, at warning level.
pub fn log_security_event(log: &mut Vec<LogRecord>, event: &str, details: &str)
    ensures
        entries(final(log)@) == entries(old(log)@).push(
            (LogLevel::Warn, security_line(event@, details@)),
        ),
{
    let head = joined("Security Event - ", event);
    let head = joined(head.as_str(), ": ");
    record(log, LogLevel::Warn, joined(head.as_str(), details));
}

/// Logs how long `operation` took, at info level.
pub fn log_performance(log: &mut Vec<LogRecord>, operation: &str, duration_ms: u64)
    ensures
        entries(final(log)@) == entries(old(log)@).push(
            (LogLevel::Info, performance_line(operation@, duration_ms as nat)),
        ),
{
    let head = joined("Performance - ", operation);
    let head = joined(head.as_str(), ": ");
    let head = joined(head.as_str(), decimal_text(duration_ms).as_str());
    record(log, LogLevel::Info, joined(head.as_str(), "ms"));
}

/// Logs an error in `context`, then each of its causes in turn, at error
/// level.
pub fn log_error(log: &mut Vec<LogRecord>, context: &str, error: &str, causes: &Vec<String>)
    ensures
        entries(final(log)@) == entries(old(log)@).push(
            (LogLevel::Error, error_line(context@, error@)),
        ) + causes@.map_values(|c: String| (LogLevel::Error, cause_line(c@))),
{
    let head = joined(context, ": ");
    record(log, LogLevel::Error, joined(head.as_str(), error));
    let ghost start = entries(log@);
    let mut i: usize = 0;
    while i < causes.len()
        invariant
            i <= causes@.len(),
            entries(log@) == start + causes@.subrange(0, i as int).map_values(
                |c: String| (LogLevel::Error, cause_line(c@)),
            ),
        decreases causes@.len() - i,
    {
        record(log, LogLevel::Error, joined("  Caused by: ", causes[i].as_str()));
        i = i + 1;
        assert(causes@.subrange(0, i as int).map_values(
            |c: String| (LogLevel::Error, cause_line(c@)),
        ) =~= causes@.subrange(0, i - 1).map_values(
            |c: String| (LogLevel::Error, cause_line(c@)),
        ).push((LogLevel::Error, cause_line(causes@[i - 1]@))));
    }
    assert(causes@.subrange(0, i as int) =~= causes@);
}

} // verus!
