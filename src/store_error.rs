use vstd::prelude::*;

verus! {

/// Failures of the log store.
#[derive(Debug, PartialEq, Eq)]
pub enum Error {
    /// The database engine reported a failure; the text is its description.
    RusqLiteError(String),
    /// The operating system reported a failure; the text is its description.
    IoError(String),
    /// A stored severity token is not one of the known ones.
    FailedToConvertLogType,
}

impl Error {
    pub fn failed_to_convert_log_type<T>() -> (r: Result<T, Error>)
        ensures
            r matches Err(Error::FailedToConvertLogType),
    {
        Err(Error::FailedToConvertLogType)
    }

    pub fn rusqlite_error<T>(description: String) -> (r: Result<T, Error>)
        ensures
            r matches Err(Error::RusqLiteError(d)) && d@ == description@,
    {
        Err(Error::RusqLiteError(description))
    }
}

} // verus!
