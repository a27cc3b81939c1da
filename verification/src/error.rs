//! The one error type that every operation of this crate reports.
//!
//! A failure of the file system or of a codec is kept as it came and wrapped in
//! the variant that says where it arose; an extension that selects no format has
//! a variant of its own, with nothing inside.

use serde_json::Error as JsonError;
use std::io::Error as IoError;
use toml::de::Error as TomlDeError;
use toml::ser::Error as TomlSerError;
use vstd::prelude::*;
use vstd::std_specs::convert::FromSpecImpl;
use vstd::string::to_string_from_display_ensures;

verus! {

/// `std::io::Error`, carried as an opaque value.
#[verifier::external_type_specification]
#[verifier::external_body]
pub struct ExIoError(IoError);

/// `serde_json::Error`, carried as an opaque value. The JSON codec reports
/// failures to encode and failures to decode with this one type.
#[verifier::external_type_specification]
#[verifier::external_body]
pub struct ExJsonError(JsonError);

/// `toml::ser::Error`, carried as an opaque value.
#[verifier::external_type_specification]
#[verifier::external_body]
pub struct ExTomlSerError(TomlSerError);

/// `toml::de::Error`, carried as an opaque value.
#[verifier::external_type_specification]
#[verifier::external_body]
pub struct ExTomlDeError(TomlDeError);

/// Every way in which saving or loading can fail. Exactly one variant holds, and
/// each but the last owns the failure that caused it.
///
/// An I/O failure and the two TOML failures convert with `From`, each to its
/// own variant. A JSON failure does not: its one type serves both stages, so
/// the stage that failed picks the variant.
#[derive(Debug)]
pub enum Error {
    /// The file could not be opened, read or written.
    IoE(IoError),
    /// The record could not be encoded as JSON.
    SerJsonE(JsonError),
    /// The text could not be decoded as JSON into a record.
    DesJsonE(JsonError),
    /// The record could not be encoded as TOML.
    ParTomlE(TomlSerError),
    /// The text could not be decoded as TOML into a record.
    DesTomlE(TomlDeError),
    /// The path has no extension, or one that is neither `json` nor `toml`.
    ExtensionDoesNotExist,
}

impl From<IoError> for Error {
    fn from(cause: IoError) -> (r: Error) {
        Error::IoE(cause)
    }
}

impl FromSpecImpl<IoError> for Error {
    open spec fn obeys_from_spec() -> bool {
        true
    }

    open spec fn from_spec(cause: IoError) -> Error {
        Error::IoE(cause)
    }
}

impl From<TomlSerError> for Error {
    fn from(cause: TomlSerError) -> (r: Error) {
        Error::ParTomlE(cause)
    }
}

impl FromSpecImpl<TomlSerError> for Error {
    open spec fn obeys_from_spec() -> bool {
        true
    }

    open spec fn from_spec(cause: TomlSerError) -> Error {
        Error::ParTomlE(cause)
    }
}

impl From<TomlDeError> for Error {
    fn from(cause: TomlDeError) -> (r: Error) {
        Error::DesTomlE(cause)
    }
}

impl FromSpecImpl<TomlDeError> for Error {
    open spec fn obeys_from_spec() -> bool {
        true
    }

    open spec fn from_spec(cause: TomlDeError) -> Error {
        Error::DesTomlE(cause)
    }
}

/// What stands before the cause's own message in the message of `error`; empty
/// for the one variant that has no cause.
pub open spec fn prefix_of(error: &Error) -> Seq<char> {
    match error {
        Error::IoE(_) => "IO error: "@,
        Error::SerJsonE(_) => "serde error: "@,
        Error::DesJsonE(_) => "serde error: "@,
        Error::ParTomlE(_) => "parse toml error: "@,
        Error::DesTomlE(_) => "parse toml error: "@,
        Error::ExtensionDoesNotExist => Seq::empty(),
    }
}

/// Whether `text` is a rendering of the failure that `error` wraps, as that
/// failure's own `Display` gives it. False of every text where `error` wraps
/// nothing.
pub open spec fn is_cause_text(error: &Error, text: String) -> bool {
    match error {
        Error::IoE(cause) => to_string_from_display_ensures::<IoError>(cause, text),
        Error::SerJsonE(cause) => to_string_from_display_ensures::<JsonError>(cause, text),
        Error::DesJsonE(cause) => to_string_from_display_ensures::<JsonError>(cause, text),
        Error::ParTomlE(cause) => to_string_from_display_ensures::<TomlSerError>(cause, text),
        Error::DesTomlE(cause) => to_string_from_display_ensures::<TomlDeError>(cause, text),
        Error::ExtensionDoesNotExist => false,
    }
}

impl Error {
    /// Whether this error wraps an underlying failure.
    pub open spec fn has_cause(&self) -> bool {
        !(self is ExtensionDoesNotExist)
    }

    /// The underlying failure's own message, for diagnostics; `None` where there
    /// is no further cause.
    pub fn cause_message(&self) -> (r: Option<String>)
        ensures
            r is Some <==> self.has_cause(),
            r matches Some(text) ==> is_cause_text(self, text),
    {
        match self {
            Error::IoE(cause) => Some(cause.to_string()),
            Error::SerJsonE(cause) => Some(cause.to_string()),
            Error::DesJsonE(cause) => Some(cause.to_string()),
            Error::ParTomlE(cause) => Some(cause.to_string()),
            Error::DesTomlE(cause) => Some(cause.to_string()),
            Error::ExtensionDoesNotExist => None,
        }
    }

    /// The message for people: a fixed sentence where the extension selects no
    /// format, and otherwise the cause's own message behind a prefix that names
    /// the stage.
    pub fn message(&self) -> (r: String)
        ensures
            !self.has_cause() ==> r@ == "extension does not exist."@,
            self.has_cause() ==> exists|text: String| #[trigger]
                is_cause_text(self, text) && r@ == prefix_of(self) + text@,
    {
        let prefix = match self {
            Error::IoE(_) => "IO error: ",
            Error::SerJsonE(_) | Error::DesJsonE(_) => "serde error: ",
            Error::ParTomlE(_) | Error::DesTomlE(_) => "parse toml error: ",
            Error::ExtensionDoesNotExist => "extension does not exist.",
        };
        let mut message = prefix.to_owned();
        match self.cause_message() {
            Some(text) => {
                message.append(text.as_str());
                assert(is_cause_text(self, text));
            },
            None => {},
        }
        message
    }
}

/// Sorts the outcome of a file access: what failed there is an `IoE`.
pub fn io_outcome<T>(outcome: Result<T, IoError>) -> (r: Result<T, Error>)
    ensures
        r == match outcome {
            Ok(value) => Ok::<T, Error>(value),
            Err(cause) => Err::<T, Error>(Error::IoE(cause)),
        },
{
    match outcome {
        Ok(value) => Ok(value),
        Err(cause) => Err(Error::IoE(cause)),
    }
}

/// Sorts the outcome of encoding as JSON: what failed there is a `SerJsonE`.
pub fn json_encode_outcome<T>(outcome: Result<T, JsonError>) -> (r: Result<T, Error>)
    ensures
        r == match outcome {
            Ok(value) => Ok::<T, Error>(value),
            Err(cause) => Err::<T, Error>(Error::SerJsonE(cause)),
        },
{
    match outcome {
        Ok(value) => Ok(value),
        Err(cause) => Err(Error::SerJsonE(cause)),
    }
}

/// Sorts the outcome of decoding JSON: what failed there is a `DesJsonE`.
pub fn json_decode_outcome<T>(outcome: Result<T, JsonError>) -> (r: Result<T, Error>)
    ensures
        r == match outcome {
            Ok(value) => Ok::<T, Error>(value),
            Err(cause) => Err::<T, Error>(Error::DesJsonE(cause)),
        },
{
    match outcome {
        Ok(value) => Ok(value),
        Err(cause) => Err(Error::DesJsonE(cause)),
    }
}

/// Sorts the outcome of encoding as TOML: what failed there is a `ParTomlE`.
pub fn toml_encode_outcome<T>(outcome: Result<T, TomlSerError>) -> (r: Result<T, Error>)
    ensures
        r == match outcome {
            Ok(value) => Ok::<T, Error>(value),
            Err(cause) => Err::<T, Error>(Error::ParTomlE(cause)),
        },
{
    match outcome {
        Ok(value) => Ok(value),
        Err(cause) => Err(Error::ParTomlE(cause)),
    }
}

/// Sorts the outcome of decoding TOML: what failed there is a `DesTomlE`.
pub fn toml_decode_outcome<T>(outcome: Result<T, TomlDeError>) -> (r: Result<T, Error>)
    ensures
        r == match outcome {
            Ok(value) => Ok::<T, Error>(value),
            Err(cause) => Err::<T, Error>(Error::DesTomlE(cause)),
        },
{
    match outcome {
        Ok(value) => Ok(value),
        Err(cause) => Err(Error::DesTomlE(cause)),
    }
}

} // verus!
