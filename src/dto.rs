use vstd::prelude::*;
use crate::error::Error;
use crate::log::{log_type_token, parse_log_type, Log, LogType};

verus! {

/// A log record as it travels on the wire: the id is absent until the record
/// has been stored, and the severity is still a token.
pub struct LogDto {
    pub id: Option<i64>,
    pub log_type: String,
    pub message: String,
    pub stack_trace: String,
}

/// `d` is the wire form of the stored record `l`.
pub open spec fn is_dto_of(d: LogDto, l: Log) -> bool {
    &&& d.id == Some(l.id)
    &&& d.log_type@ == log_type_token(l.log_type)
    &&& d.message@ == l.message@
    &&& d.stack_trace@ == l.stack_trace@
}

/// `l` is the record that the wire form `d` stands for: a missing id reads as
/// zero and the token must name a severity.
pub open spec fn is_log_of(l: Log, d: LogDto) -> bool {
    &&& parse_log_type(d.log_type@) == Some(l.log_type)
    &&& l.id == match d.id {
        Some(id) => id,
        None => 0,
    }
    &&& l.message@ == d.message@
    &&& l.stack_trace@ == d.stack_trace@
}

impl LogDto {
    pub fn to_log(self) -> (r: Result<Log, Error>)
        ensures
            parse_log_type(self.log_type@) is Some ==> (r matches Ok(l) && is_log_of(l, self)),
            parse_log_type(self.log_type@) is None ==> r matches Err(Error::InvalidLogType),
    {
        let log_type = match LogType::from_string(self.log_type) {
            Ok(t) => t,
            Err(_) => {
                return Error::InvalidLogType.as_result::<Log>();
            },
        };
        let id = match self.id {
            Some(id) => id,
            None => 0,
        };
        Ok(Log { id: id, log_type: log_type, message: self.message, stack_trace: self.stack_trace })
    }

    pub fn from_log(log: Log) -> (r: LogDto)
        ensures
            is_dto_of(r, log),
    {
        LogDto {
            id: Some(log.id),
            log_type: log.log_type.as_string(),
            message: log.message,
            stack_trace: log.stack_trace,
        }
    }
}

/// Record round trip: a stored record taken to its wire form and back is the
/// same record.
pub proof fn lemma_log_round_trip(l: Log, d: LogDto, back: Log)
    requires
        is_dto_of(d, l),
        is_log_of(back, d),
    ensures
        back.id == l.id,
        back.log_type == l.log_type,
        back.message@ == l.message@,
        back.stack_trace@ == l.stack_trace@,
{
    crate::log::lemma_log_type_token_parses(l.log_type);
}

/// Record round trip: a wire record with a valid severity, read and sent back
/// out, keeps its severity, message and stack trace; its id, absent before it
/// is stored, is then present, and one that was present is kept.
pub proof fn lemma_dto_round_trip(d: LogDto, l: Log, back: LogDto)
    requires
        is_log_of(l, d),
        is_dto_of(back, l),
    ensures
        back.log_type@ == d.log_type@,
        back.message@ == d.message@,
        back.stack_trace@ == d.stack_trace@,
        back.id is Some,
        d.id is Some ==> back.id == d.id,
{
    crate::log::lemma_parsed_token(d.log_type@);
}

} // verus!
