//! Normalized log severities.

use vstd::prelude::*;

verus! {

/// A normalized severity value, ordered from the least severe to the most severe.
#[derive(Debug, Copy, Clone, PartialEq, Eq, Ord, PartialOrd)]
pub enum Severity {
    /// TRACE
    Trace,
    /// TRACE2
    Trace2,
    /// TRACE3
    Trace3,
    /// TRACE4
    Trace4,
    /// DEBUG
    Debug,
    /// DEBUG2
    Debug2,
    /// DEBUG3
    Debug3,
    /// DEBUG4
    Debug4,
    /// INFO
    Info,
    /// INFO2
    Info2,
    /// INFO3
    Info3,
    /// INFO4
    Info4,
    /// WARN
    Warn,
    /// WARN2
    Warn2,
    /// WARN3
    Warn3,
    /// WARN4
    Warn4,
    /// ERROR
    Error,
    /// ERROR2
    Error2,
    /// ERROR3
    Error3,
    /// ERROR4
    Error4,
    /// FATAL
    Fatal,
    /// FATAL2
    Fatal2,
    /// FATAL3
    Fatal3,
    /// FATAL4
    Fatal4,
}

/// The severity number of the OpenTelemetry logs data model: `Trace` is 1,
/// each following variant one more, up to `Fatal4`, which is 24.
pub open spec fn severity_number(s: Severity) -> int {
    match s {
        Severity::Trace => 1,
        Severity::Trace2 => 2,
        Severity::Trace3 => 3,
        Severity::Trace4 => 4,
        Severity::Debug => 5,
        Severity::Debug2 => 6,
        Severity::Debug3 => 7,
        Severity::Debug4 => 8,
        Severity::Info => 9,
        Severity::Info2 => 10,
        Severity::Info3 => 11,
        Severity::Info4 => 12,
        Severity::Warn => 13,
        Severity::Warn2 => 14,
        Severity::Warn3 => 15,
        Severity::Warn4 => 16,
        Severity::Error => 17,
        Severity::Error2 => 18,
        Severity::Error3 => 19,
        Severity::Error4 => 20,
        Severity::Fatal => 21,
        Severity::Fatal2 => 22,
        Severity::Fatal3 => 23,
        Severity::Fatal4 => 24,
    }
}

/// The short name of a severity in the OpenTelemetry logs data model.
pub open spec fn severity_name(s: Severity) -> Seq<char> {
    match s {
        Severity::Trace => "TRACE"@,
        Severity::Trace2 => "TRACE2"@,
        Severity::Trace3 => "TRACE3"@,
        Severity::Trace4 => "TRACE4"@,
        Severity::Debug => "DEBUG"@,
        Severity::Debug2 => "DEBUG2"@,
        Severity::Debug3 => "DEBUG3"@,
        Severity::Debug4 => "DEBUG4"@,
        Severity::Info => "INFO"@,
        Severity::Info2 => "INFO2"@,
        Severity::Info3 => "INFO3"@,
        Severity::Info4 => "INFO4"@,
        Severity::Warn => "WARN"@,
        Severity::Warn2 => "WARN2"@,
        Severity::Warn3 => "WARN3"@,
        Severity::Warn4 => "WARN4"@,
        Severity::Error => "ERROR"@,
        Severity::Error2 => "ERROR2"@,
        Severity::Error3 => "ERROR3"@,
        Severity::Error4 => "ERROR4"@,
        Severity::Fatal => "FATAL"@,
        Severity::Fatal2 => "FATAL2"@,
        Severity::Fatal3 => "FATAL3"@,
        Severity::Fatal4 => "FATAL4"@,
    }
}

/// Severity numbers run from 1 to 24, and no two severities share one.
pub proof fn lemma_severity_number_range_and_injective(a: Severity, b: Severity)
    ensures
        1 <= severity_number(a) <= 24,
        severity_number(a) == severity_number(b) ==> a == b,
{
}

/// No two severities share a short name.
pub proof fn lemma_severity_name_injective(a: Severity, b: Severity)
    ensures
        severity_name(a) == severity_name(b) ==> a == b,
{
    reveal_strlit("TRACE");
    reveal_strlit("TRACE2");
    reveal_strlit("TRACE3");
    reveal_strlit("TRACE4");
    reveal_strlit("DEBUG");
    reveal_strlit("DEBUG2");
    reveal_strlit("DEBUG3");
    reveal_strlit("DEBUG4");
    reveal_strlit("INFO");
    reveal_strlit("INFO2");
    reveal_strlit("INFO3");
    reveal_strlit("INFO4");
    reveal_strlit("WARN");
    reveal_strlit("WARN2");
    reveal_strlit("WARN3");
    reveal_strlit("WARN4");
    reveal_strlit("ERROR");
    reveal_strlit("ERROR2");
    reveal_strlit("ERROR3");
    reveal_strlit("ERROR4");
    reveal_strlit("FATAL");
    reveal_strlit("FATAL2");
    reveal_strlit("FATAL3");
    reveal_strlit("FATAL4");
    if severity_name(a) == severity_name(b) && a != b {
        assert(severity_name(a).len() == severity_name(b).len());
        assert(severity_name(a)[0] == severity_name(b)[0]);
        let n = severity_name(a).len() - 1;
        assert(severity_name(a)[n] == severity_name(b)[n]);
        assert(false);
    }
}

impl Severity {
    /// Return the string representing the short name for the `Severity`
    /// value as specified by the OpenTelemetry logs data model.
    pub fn name(&self) -> (r: &'static str)
        ensures
            r@ == severity_name(*self),
    {
        match self {
            Severity::Trace => "TRACE",
            Severity::Trace2 => "TRACE2",
            Severity::Trace3 => "TRACE3",
            Severity::Trace4 => "TRACE4",
            Severity::Debug => "DEBUG",
            Severity::Debug2 => "DEBUG2",
            Severity::Debug3 => "DEBUG3",
            Severity::Debug4 => "DEBUG4",
            Severity::Info => "INFO",
            Severity::Info2 => "INFO2",
            Severity::Info3 => "INFO3",
            Severity::Info4 => "INFO4",
            Severity::Warn => "WARN",
            Severity::Warn2 => "WARN2",
            Severity::Warn3 => "WARN3",
            Severity::Warn4 => "WARN4",
            Severity::Error => "ERROR",
            Severity::Error2 => "ERROR2",
            Severity::Error3 => "ERROR3",
            Severity::Error4 => "ERROR4",
            Severity::Fatal => "FATAL",
            Severity::Fatal2 => "FATAL2",
            Severity::Fatal3 => "FATAL3",
            Severity::Fatal4 => "FATAL4",
        }
    }

    /// The severity number of the logs data model, which the variants carry
    /// as their discriminants: `Trace` is 1 and `Fatal4` is 24.
    pub fn number(&self) -> (r: i32)
        ensures
            r == severity_number(*self),
    {
        match self {
            Severity::Trace => 1,
            Severity::Trace2 => 2,
            Severity::Trace3 => 3,
            Severity::Trace4 => 4,
            Severity::Debug => 5,
            Severity::Debug2 => 6,
            Severity::Debug3 => 7,
            Severity::Debug4 => 8,
            Severity::Info => 9,
            Severity::Info2 => 10,
            Severity::Info3 => 11,
            Severity::Info4 => 12,
            Severity::Warn => 13,
            Severity::Warn2 => 14,
            Severity::Warn3 => 15,
            Severity::Warn4 => 16,
            Severity::Error => 17,
            Severity::Error2 => 18,
            Severity::Error3 => 19,
            Severity::Error4 => 20,
            Severity::Fatal => 21,
            Severity::Fatal2 => 22,
            Severity::Fatal3 => 23,
            Severity::Fatal4 => 24,
        }
    }
}

} // verus!
