//! Parsing, validation and canonical formatting of message-bus addresses.
use vstd::prelude::*;

use text::push_str;

pub mod percent;
pub mod text;
pub mod keyval;
pub mod number;
pub mod options;
pub mod fmt;
pub mod transport;
pub mod guid;
pub mod address;
pub mod owned_address;
pub mod address_list;
pub mod round_trip;
pub mod rules;

pub use address::DBusAddr;
pub use address_list::{parse_list, ToDBusAddrs, ToOwnedDBusAddrs};
pub use guid::Guid;
pub use owned_address::OwnedDBusAddr;
pub use percent::{decode, encode};
pub use transport::Transport;

verus! {

/// Why a percent-encoded value could not be decoded.
#[derive(Debug, Clone, Copy, PartialEq, Eq, Structural)]
pub enum EncodingError {
    /// A `%` is followed by fewer than two characters.
    IncompleteSequence,
    /// A character after `%` is not a hexadecimal digit.
    InvalidHex,
    /// A character that must be escaped appears unescaped.
    InvalidRawCharacter,
    /// The decoded bytes are not valid UTF-8 where text is expected.
    InvalidUtf8,
}

/// Error returned when an address is invalid.
#[derive(Debug, PartialEq, Eq)]
pub enum Error {
    MissingTransport,
    Encoding(EncodingError),
    DuplicateKey(String),
    MissingKey(String),
    MissingValue(String),
    InvalidValue(String),
    UnknownTcpFamily(String),
    Other(String),
}

/// The mathematical value of an [`Error`]: its kind and the text it carries.
pub enum ErrorModel {
    MissingTransport,
    Encoding(EncodingError),
    DuplicateKey(Seq<char>),
    MissingKey(Seq<char>),
    MissingValue(Seq<char>),
    InvalidValue(Seq<char>),
    UnknownTcpFamily(Seq<char>),
    Other(Seq<char>),
}

impl View for Error {
    type V = ErrorModel;

    open spec fn view(&self) -> ErrorModel {
        match self {
            Error::MissingTransport => ErrorModel::MissingTransport,
            Error::Encoding(e) => ErrorModel::Encoding(*e),
            Error::DuplicateKey(k) => ErrorModel::DuplicateKey(k@),
            Error::MissingKey(k) => ErrorModel::MissingKey(k@),
            Error::MissingValue(k) => ErrorModel::MissingValue(k@),
            Error::InvalidValue(k) => ErrorModel::InvalidValue(k@),
            Error::UnknownTcpFamily(k) => ErrorModel::UnknownTcpFamily(k@),
            Error::Other(m) => ErrorModel::Other(m@),
        }
    }
}

/// The model of a result: the model of the value, or of the error.
pub open spec fn result_view<T: View>(r: Result<T, Error>) -> Result<T::V, ErrorModel> {
    match r {
        Ok(t) => Ok(t@),
        Err(e) => Err(e@),
    }
}

/// The description of an encoding fault.
pub open spec fn encoding_text(e: EncodingError) -> Seq<char> {
    match e {
        EncodingError::IncompleteSequence => "Incomplete percent-encoded sequence"@,
        EncodingError::InvalidHex => "Invalid hexadecimal character in percent-encoded sequence"@,
        EncodingError::InvalidRawCharacter => "Invalid character in address"@,
        EncodingError::InvalidUtf8 => "Invalid UTF-8 in decoded value"@,
    }
}

/// The message of an error.
pub open spec fn error_text(e: ErrorModel) -> Seq<char> {
    match e {
        ErrorModel::MissingTransport => "Missing transport in address"@,
        ErrorModel::Encoding(x) => "Encoding error: "@ + encoding_text(x),
        ErrorModel::DuplicateKey(k) => "Duplicate key: `"@ + k + "`"@,
        ErrorModel::MissingKey(k) => "Missing key: `"@ + k + "`"@,
        ErrorModel::MissingValue(k) => "Missing value for key: `"@ + k + "`"@,
        ErrorModel::InvalidValue(k) => "Invalid value for key: `"@ + k + "`"@,
        ErrorModel::UnknownTcpFamily(k) => "Unknown TCP address family: `"@ + k + "`"@,
        ErrorModel::Other(m) => "Other error: "@ + m,
    }
}

impl EncodingError {
    /// The description of the fault.
    pub fn as_str(&self) -> (r: &'static str)
        ensures
            r@ == encoding_text(*self),
    {
        match self {
            EncodingError::IncompleteSequence => "Incomplete percent-encoded sequence",
            EncodingError::InvalidHex => "Invalid hexadecimal character in percent-encoded sequence",
            EncodingError::InvalidRawCharacter => "Invalid character in address",
            EncodingError::InvalidUtf8 => "Invalid UTF-8 in decoded value",
        }
    }
}

fn quoted(prefix: &str, k: &String) -> (r: String)
    ensures
        r@ == prefix@ + k@ + "`"@,
{
    let mut s = String::new();
    push_str(&mut s, prefix);
    push_str(&mut s, k.as_str());
    push_str(&mut s, "`");
    s
}

impl Clone for Error {
    fn clone(&self) -> (r: Error)
        ensures
            r@ == self@,
    {
        match self {
            Error::MissingTransport => Error::MissingTransport,
            Error::Encoding(e) => Error::Encoding(*e),
            Error::DuplicateKey(k) => Error::DuplicateKey(k.clone()),
            Error::MissingKey(k) => Error::MissingKey(k.clone()),
            Error::MissingValue(k) => Error::MissingValue(k.clone()),
            Error::InvalidValue(k) => Error::InvalidValue(k.clone()),
            Error::UnknownTcpFamily(k) => Error::UnknownTcpFamily(k.clone()),
            Error::Other(m) => Error::Other(m.clone()),
        }
    }
}

impl Error {
    /// The error's message.
    pub fn to_string(&self) -> (r: String)
        ensures
            r@ == error_text(self@),
    {
        match self {
            Error::MissingTransport => "Missing transport in address".to_owned(),
            Error::Encoding(e) => {
                let mut s = String::new();
                push_str(&mut s, "Encoding error: ");
                push_str(&mut s, e.as_str());
                s
            },
            Error::DuplicateKey(k) => quoted("Duplicate key: `", k),
            Error::MissingKey(k) => quoted("Missing key: `", k),
            Error::MissingValue(k) => quoted("Missing value for key: `", k),
            Error::InvalidValue(k) => quoted("Invalid value for key: `", k),
            Error::UnknownTcpFamily(k) => quoted("Unknown TCP address family: `", k),
            Error::Other(m) => {
                let mut s = String::new();
                push_str(&mut s, "Other error: ");
                push_str(&mut s, m.as_str());
                s
            },
        }
    }
}

} // verus!
