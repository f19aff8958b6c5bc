use vstd::prelude::*;
use crate::store_error::Error;

verus! {

/// Severity of a log record.
#[derive(Copy, Clone, Debug, PartialEq, Eq, Structural)]
pub enum LogType {
    Log,
    Warning,
    Error,
}

/// The token that stands for a severity, on the wire and in the store.
pub open spec fn log_type_token(t: LogType) -> Seq<char> {
    match t {
        LogType::Log => "log"@,
        LogType::Warning => "warning"@,
        LogType::Error => "error"@,
    }
}

/// The severity a token stands for; `None` for any other token.
pub open spec fn parse_log_type(s: Seq<char>) -> Option<LogType> {
    if s == "log"@ {
        Some(LogType::Log)
    } else if s == "warning"@ {
        Some(LogType::Warning)
    } else if s == "error"@ {
        Some(LogType::Error)
    } else {
        None
    }
}

/// The three tokens are distinct, so each severity reads back as itself.
pub proof fn lemma_log_type_token_parses(t: LogType)
    ensures
        parse_log_type(log_type_token(t)) == Some(t),
{
    reveal_strlit("log");
    reveal_strlit("warning");
    reveal_strlit("error");
    assert("log"@.len() == 3 && "warning"@.len() == 7 && "error"@.len() == 5);
}

/// A token that names a severity is that severity's token.
pub proof fn lemma_parsed_token(s: Seq<char>)
    requires
        parse_log_type(s) is Some,
    ensures
        log_type_token(parse_log_type(s)->0) == s,
{
}

impl LogType {
    pub fn from_string(log_type: String) -> (r: Result<LogType, Error>)
        ensures
            match parse_log_type(log_type@) {
                Some(t) => r == Ok::<LogType, Error>(t),
                None => r matches Err(Error::FailedToConvertLogType),
            },
    {
        if log_type == String::from_str("log") {
            Ok(LogType::Log)
        } else if log_type == String::from_str("warning") {
            Ok(LogType::Warning)
        } else if log_type == String::from_str("error") {
            Ok(LogType::Error)
        } else {
            Error::failed_to_convert_log_type::<LogType>()
        }
    }

    pub fn as_string(self) -> (r: String)
        ensures
            r@ == log_type_token(self),
    {
        match self {
            LogType::Log => String::from_str("log"),
            LogType::Warning => String::from_str("warning"),
            LogType::Error => String::from_str("error"),
        }
    }
}

/// A stored log record.
pub struct Log {
    pub id: i64,
    pub log_type: LogType,
    pub message: String,
    pub stack_trace: String,
}

/// A row of the `logs` table: id, severity token, message, stack trace.
pub type LogRow = (i64, String, String, String);

impl Log {
    /// Builds a record from a stored row; fails when the row's severity token
    /// is not a known one.
    pub fn build_log(row: LogRow) -> (r: Result<Log, Error>)
        ensures
            match parse_log_type(row.1@) {
                Some(t) => r matches Ok(l) && l.id == row.0 && l.log_type == t
                    && l.message@ == row.2@ && l.stack_trace@ == row.3@,
                None => r matches Err(Error::FailedToConvertLogType),
            },
    {
        let (id, log_type, message, stack_trace) = row;
        match LogType::from_string(log_type) {
            Ok(t) => Ok(Log { id: id, log_type: t, message: message, stack_trace: stack_trace }),
            Err(e) => Err(e),
        }
    }
}

} // verus!
