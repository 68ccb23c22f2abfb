//! What an engine answers when it cannot do what it was asked.
use std::time::Duration;
use vstd::prelude::*;

verus! {

/// The header of a refused request, in the encoding in which it travels.
///
/// The engine layer carries it from the store to the client and reads nothing of it.
#[derive(Debug)]
pub struct ErrorHeader {
    pub encoded: Vec<u8>,
}

/// The errors of the engine layer.
#[derive(Debug)]
pub enum Error {
    /// The request was refused; the header says why.
    Request(ErrorHeader),
    /// RocksDB failed with this message.
    RocksDb(String),
    /// No answer came within this time.
    Timeout(Duration),
    /// The request asked for nothing.
    EmptyRequest,
    /// Any other error, by its description.
    Other(String),
}

/// The result of an operation of the engine layer.
pub type Result<T> = core::result::Result<T, Error>;

/// The duration that `Duration::from_secs` makes of a number of seconds.
pub uninterp spec fn whole_seconds(secs: u64) -> Duration;

/// `Duration::from_secs` is a function of the number of seconds alone.
pub assume_specification[ Duration::from_secs ](secs: u64) -> (d: Duration)
    ensures
        d == whole_seconds(secs),
;

impl Error {
    /// Whether `other` is the same error with the same contents.
    pub open spec fn same_as(self, other: Error) -> bool {
        match (self, other) {
            (Error::Request(a), Error::Request(b)) => a.encoded@ == b.encoded@,
            (Error::RocksDb(a), Error::RocksDb(b)) => a@ == b@,
            (Error::Timeout(a), Error::Timeout(b)) => a == b,
            (Error::EmptyRequest, Error::EmptyRequest) => true,
            (Error::Other(a), Error::Other(b)) => a@ == b@,
            _ => false,
        }
    }

    /// A copy of the error, for every error but `Other`, which cannot be copied.
    pub fn maybe_clone(&self) -> (copy: Option<Error>)
        ensures
            copy is None <==> self is Other,
            copy matches Some(e) ==> self.same_as(e),
    {
        match self {
            Error::Request(e) => Some(Error::Request(ErrorHeader { encoded: e.encoded.clone() })),
            Error::RocksDb(msg) => Some(Error::RocksDb(msg.clone())),
            Error::Timeout(d) => Some(Error::Timeout(*d)),
            Error::EmptyRequest => Some(Error::EmptyRequest),
            Error::Other(_) => None,
        }
    }
}

impl From<ErrorHeader> for Error {
    fn from(err: ErrorHeader) -> (e: Error) {
        Error::Request(err)
    }
}

impl vstd::std_specs::convert::FromSpecImpl<ErrorHeader> for Error {
    open spec fn obeys_from_spec() -> bool {
        true
    }

    open spec fn from_spec(err: ErrorHeader) -> Error {
        Error::Request(err)
    }
}

impl From<String> for Error {
    fn from(msg: String) -> (e: Error) {
        Error::RocksDb(msg)
    }
}

impl vstd::std_specs::convert::FromSpecImpl<String> for Error {
    open spec fn obeys_from_spec() -> bool {
        true
    }

    open spec fn from_spec(msg: String) -> Error {
        Error::RocksDb(msg)
    }
}

} // verus!
