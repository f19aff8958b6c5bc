use log_server::actions::{Action, ExternalAction};
use log_server::dto::LogDto;
use log_server::error::Error;
use log_server::log::{Log, LogType};
use log_server::store_error;

fn dto(id: Option<i64>, log_type: &str, message: &str, stack_trace: &str) -> LogDto {
    LogDto {
        id,
        log_type: log_type.to_string(),
        message: message.to_string(),
        stack_trace: stack_trace.to_string(),
    }
}

#[test]
fn log_type_reads_each_known_token() {
    assert_eq!(LogType::from_string("log".to_string()), Ok(LogType::Log));
    assert_eq!(LogType::from_string("warning".to_string()), Ok(LogType::Warning));
    assert_eq!(LogType::from_string("error".to_string()), Ok(LogType::Error));
}

#[test]
fn log_type_refuses_other_tokens() {
    assert_eq!(
        LogType::from_string("critical".to_string()),
        Err(store_error::Error::FailedToConvertLogType)
    );
    assert_eq!(
        LogType::from_string("Error".to_string()),
        Err(store_error::Error::FailedToConvertLogType)
    );
    assert_eq!(
        LogType::from_string(String::new()),
        Err(store_error::Error::FailedToConvertLogType)
    );
}

#[test]
fn log_type_writes_lowercase_tokens() {
    assert_eq!(LogType::Log.as_string(), "log");
    assert_eq!(LogType::Warning.as_string(), "warning");
    assert_eq!(LogType::Error.as_string(), "error");
}

#[test]
fn build_log_reads_a_row() {
    let log = Log::build_log((5, "warning".to_string(), "m".to_string(), "s".to_string())).unwrap();
    assert_eq!(log.id, 5);
    assert_eq!(log.log_type, LogType::Warning);
    assert_eq!(log.message, "m");
    assert_eq!(log.stack_trace, "s");
}

#[test]
fn build_log_refuses_an_unknown_token() {
    let r = Log::build_log((5, "fatal".to_string(), "m".to_string(), "s".to_string()));
    assert!(matches!(r, Err(store_error::Error::FailedToConvertLogType)));
}

#[test]
fn store_error_constructors() {
    let r: Result<(), store_error::Error> = store_error::Error::failed_to_convert_log_type();
    assert_eq!(r, Err(store_error::Error::FailedToConvertLogType));
    let r: Result<u8, store_error::Error> = store_error::Error::rusqlite_error("locked".to_string());
    assert_eq!(r, Err(store_error::Error::RusqLiteError("locked".to_string())));
}

#[test]
fn error_as_result() {
    let r: Result<i32, Error> = Error::InvalidLogType.as_result();
    assert_eq!(r, Err(Error::InvalidLogType));
}

#[test]
fn to_log_without_id_reads_zero() {
    let log = dto(None, "error", "boom", "at x").to_log().unwrap();
    assert_eq!(log.id, 0);
    assert_eq!(log.log_type, LogType::Error);
    assert_eq!(log.message, "boom");
    assert_eq!(log.stack_trace, "at x");
}

#[test]
fn to_log_keeps_a_given_id() {
    assert_eq!(dto(Some(42), "log", "", "").to_log().unwrap().id, 42);
}

#[test]
fn to_log_refuses_an_unknown_severity() {
    assert!(matches!(dto(None, "critical", "m", "s").to_log(), Err(Error::InvalidLogType)));
}

#[test]
fn from_log_writes_the_lowercase_token_and_the_id() {
    let d = LogDto::from_log(Log {
        id: 9,
        log_type: LogType::Error,
        message: "boom".to_string(),
        stack_trace: "at x".to_string(),
    });
    assert_eq!(d.id, Some(9));
    assert_eq!(d.log_type, "error");
    assert_eq!(d.message, "boom");
    assert_eq!(d.stack_trace, "at x");
}

#[test]
fn record_round_trip() {
    let original = dto(None, "warning", "disk low", "at main");
    let stored = original.to_log().unwrap();
    let back = LogDto::from_log(Log { id: 17, ..stored });
    assert_eq!(back.log_type, "warning");
    assert_eq!(back.message, "disk low");
    assert_eq!(back.stack_trace, "at main");
    assert_eq!(back.id, Some(17));
    let again = back.to_log().unwrap();
    assert_eq!(again.id, 17);
    assert_eq!(again.log_type, LogType::Warning);
}

#[test]
fn bare_tokens_are_read() {
    assert!(matches!(ExternalAction::from_bare_token("Ping"), Some(ExternalAction::Ping)));
    assert!(matches!(
        ExternalAction::from_bare_token("RemoveClient"),
        Some(ExternalAction::RemoveClient)
    ));
    assert!(matches!(ExternalAction::from_bare_token("Recompile"), Some(ExternalAction::Recompile)));
    assert!(matches!(ExternalAction::from_bare_token("ClearLogs"), Some(ExternalAction::ClearLogs)));
}

#[test]
fn other_frames_are_not_bare_tokens() {
    assert!(ExternalAction::from_bare_token("ping").is_none());
    assert!(ExternalAction::from_bare_token("\"Ping\"").is_none());
    assert!(ExternalAction::from_bare_token("{\"ReadLogs\":1}").is_none());
    assert!(ExternalAction::from_bare_token("").is_none());
}

#[test]
fn to_action_carries_client_and_handle() {
    match ExternalAction::ReadLogs(3).to_action(8, "writer") {
        Action::External((ExternalAction::ReadLogs(3), 8, "writer")) => {}
        _ => panic!("unexpected action"),
    }
}
