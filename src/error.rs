use vstd::prelude::*;
use crate::store_error;

verus! {

/// Failures of the service.
#[derive(Debug, PartialEq, Eq)]
pub enum Error {
    /// The log store failed.
    DbError(store_error::Error),
    /// A value could not be encoded or decoded; the text describes why.
    SerializationError(String),
    ActionDispatchFailed,
    ActionReceiveFailed,
    ReceiveActionResponseFailed,
    FailedToOpenTcpListener,
    FailedToAcceptOnTcpListener,
    FailedToReadTcpStream,
    FailedToCreateTcpStreamWriter,
    FailedToSendResponse,
    ClientDisconnected,
    CorruptTcpStreamData,
    DeserializationFailed,
    FailedDbConnection,
    FailedToCloseDbConnection,
    /// A record's severity token is not one of the known ones.
    InvalidLogType,
}

impl Error {
    pub fn as_result<T>(self) -> (r: Result<T, Error>)
        ensures
            r matches Err(e) && e == self,
    {
        Err(self)
    }
}

} // verus!
