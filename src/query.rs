use vstd::prelude::*;

verus! {

/// Failures of the read-only state query.
#[derive(Clone, Copy, Debug, PartialEq, Eq, Structural)]
pub enum QueryError {
    /// The device identifier is empty.
    IncorrectInput,
    /// No record is stored for the device.
    IncorrectDBRecord,
    /// The stored record cannot be written back in the wire format.
    DeserializationFailure,
}

pub const INCORRECT_INPUT: u16 = 0x835;
pub const INCORRECT_DB_RECORD: u16 = 0x836;
pub const DESERIALIZATION_FAILURE: u16 = 0x837;
pub const BAD_REQUEST: u16 = 400;

/// The machine-readable code of a query failure.
pub open spec fn error_code(e: QueryError) -> u16 {
    match e {
        QueryError::IncorrectInput => INCORRECT_INPUT,
        QueryError::IncorrectDBRecord => INCORRECT_DB_RECORD,
        QueryError::DeserializationFailure => DESERIALIZATION_FAILURE,
    }
}

impl QueryError {
    /// The machine-readable code sent in the body of the error response.
    pub fn code(&self) -> (r: u16)
        ensures
            r == error_code(*self),
    {
        match self {
            QueryError::IncorrectInput => INCORRECT_INPUT,
            QueryError::IncorrectDBRecord => INCORRECT_DB_RECORD,
            QueryError::DeserializationFailure => DESERIALIZATION_FAILURE,
        }
    }

    /// The HTTP status of the error response: every failure is a bad request.
    pub fn status(&self) -> (r: u16)
        ensures
            r == BAD_REQUEST,
    {
        BAD_REQUEST
    }
}

/// Checks the device identifier of a query before the store is read.
pub fn check_device_id(device_id: &String) -> (r: Result<(), QueryError>)
    ensures
        r is Err <==> device_id@.len() == 0,
        r matches Err(e) ==> e == QueryError::IncorrectInput,
{
    if device_id.as_str().is_empty() {
        Err(QueryError::IncorrectInput)
    } else {
        Ok(())
    }
}

/// The stored record of a device, or the failure when there is none.
pub fn found_record(record: Option<Vec<u8>>) -> (r: Result<Vec<u8>, QueryError>)
    ensures
        match record {
            Some(b) => r == Ok::<Vec<u8>, QueryError>(b),
            None => r == Err::<Vec<u8>, QueryError>(QueryError::IncorrectDBRecord),
        },
{
    match record {
        Some(b) => Ok(b),
        None => Err(QueryError::IncorrectDBRecord),
    }
}

} // verus!
