//! Error kinds of the materializer.

use vstd::prelude::*;
use vstd::string::*;

verus! {

#[verifier::external_type_specification]
#[verifier::external_body]
pub struct ExIoError(std::io::Error);

/// Every failure of the library: an I/O failure, a parse failure, an input that
/// is too large, a node count that does not fit in memory, a soft timeout, or an
/// internal fault.
#[derive(Debug)]
pub enum TreonError {
    Io(std::io::Error),
    JsonParsing(String),
    InvalidInput(String),
    MemoryError(String),
    Timeout(String),
    Internal(String),
}

/// The outcome of a fallible operation of the library.
pub type Result<T> = std::result::Result<T, TreonError>;

/// Relies on `std::io::Error`'s `Display`: the message of an I/O error.
#[verifier::external_body]
fn io_error_text(e: &std::io::Error) -> String {
    e.to_string()
}

fn prefixed(prefix: &str, msg: &str) -> (r: String)
    ensures
        r@ == prefix@ + msg@,
{
    let mut s = String::from_str(prefix);
    s.append(msg);
    s
}

impl TreonError {
    /// A parse failure carrying the parser's diagnostic.
    pub fn json_parsing(msg: &str) -> (r: TreonError)
        ensures
            r matches TreonError::JsonParsing(m) && m@ == msg@,
    {
        TreonError::JsonParsing(String::from_str(msg))
    }

    /// An input rejected before any work, such as one over the size ceiling.
    pub fn invalid_input(msg: &str) -> (r: TreonError)
        ensures
            r matches TreonError::InvalidInput(m) && m@ == msg@,
    {
        TreonError::InvalidInput(String::from_str(msg))
    }

    /// A result too large to be held.
    pub fn memory_error(msg: &str) -> (r: TreonError)
        ensures
            r matches TreonError::MemoryError(m) && m@ == msg@,
    {
        TreonError::MemoryError(String::from_str(msg))
    }

    /// A completed run that exceeded its soft time budget.
    pub fn timeout(msg: &str) -> (r: TreonError)
        ensures
            r matches TreonError::Timeout(m) && m@ == msg@,
    {
        TreonError::Timeout(String::from_str(msg))
    }

    /// A fault of the library itself.
    pub fn internal(msg: &str) -> (r: TreonError)
        ensures
            r matches TreonError::Internal(m) && m@ == msg@,
    {
        TreonError::Internal(String::from_str(msg))
    }

    /// The human-readable message: the kind's label, a colon, and the detail.
    pub fn to_string(&self) -> (r: String)
        ensures
            self matches TreonError::JsonParsing(m) ==> r@ == "JSON parsing error: "@ + m@,
            self matches TreonError::InvalidInput(m) ==> r@ == "Invalid input: "@ + m@,
            self matches TreonError::MemoryError(m) ==> r@ == "Memory allocation error: "@ + m@,
            self matches TreonError::Timeout(m) ==> r@ == "Processing timeout: "@ + m@,
            self matches TreonError::Internal(m) ==> r@ == "Internal error: "@ + m@,
            self is Io ==> exists|d: Seq<char>| r@ == "IO error: "@ + d,
    {
        match self {
            TreonError::Io(e) => {
                let d = io_error_text(e);
                prefixed("IO error: ", d.as_str())
            },
            TreonError::JsonParsing(m) => prefixed("JSON parsing error: ", m.as_str()),
            TreonError::InvalidInput(m) => prefixed("Invalid input: ", m.as_str()),
            TreonError::MemoryError(m) => prefixed("Memory allocation error: ", m.as_str()),
            TreonError::Timeout(m) => prefixed("Processing timeout: ", m.as_str()),
            TreonError::Internal(m) => prefixed("Internal error: ", m.as_str()),
        }
    }
}

impl From<std::io::Error> for TreonError {
    fn from(e: std::io::Error) -> (r: TreonError) {
        TreonError::Io(e)
    }
}

impl vstd::std_specs::convert::FromSpecImpl<std::io::Error> for TreonError {
    open spec fn obeys_from_spec() -> bool {
        true
    }

    open spec fn from_spec(e: std::io::Error) -> TreonError {
        TreonError::Io(e)
    }
}

} // verus!
