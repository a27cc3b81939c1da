//! The capability that a record type adopts, and the four operations built on it.
//!
//! This crate touches no file. Each operation answers with a request: the one
//! file access that remains to be made. Whoever drives the operation makes that
//! access and hands its outcome to the request's `complete`, which gives the
//! operation's result. An operation that fails before its request exists has
//! asked for no file access at all.
//!
//! What a codec gives for a record is not known here. The contracts speak of it
//! through `call_ensures`: the text in a request is a text that the record's own
//! method gave for it, and the record that a load returns is one that the
//! type's own method gave for the text that was read.

use crate::error::{
    io_outcome, json_decode_outcome, json_encode_outcome, toml_decode_outcome, toml_encode_outcome,
    Error,
};
use crate::format::{format_of, lemma_json_path, lemma_toml_path, path_to_format, Format};
use serde_json::Error as JsonError;
use std::io::Error as IoError;
use toml::de::Error as TomlDeError;
use toml::ser::Error as TomlSerError;
use vstd::prelude::*;

verus! {

/// What a record type supplies: its text in each format, and the way back.
///
/// The four methods are the type's own, typically one call of a codec each, and
/// nothing is claimed about them: neither when they succeed nor what they give.
pub trait Record: Sized {
    /// This record as JSON text, laid out over several lines with indentation.
    fn to_json_pretty(&self) -> Result<String, JsonError>;

    /// This record as TOML text, in the layout meant for people.
    fn to_toml_pretty(&self) -> Result<String, TomlSerError>;

    /// The record that the JSON document `text` holds.
    fn from_json(text: &str) -> Result<Self, JsonError>;

    /// The record that the TOML document `text` holds.
    fn from_toml(text: &str) -> Result<Self, TomlDeError>;
}

/// `r` with what it holds on success taken by its view.
pub open spec fn viewed<T: View, E>(r: Result<T, E>) -> Result<T::V, E> {
    match r {
        Ok(value) => Ok(value@),
        Err(e) => Err(e),
    }
}

/// Whether `out` is what encoding `record` in `format` comes to, for some
/// outcome of the record's own method for that format: its text as it is, or
/// its failure as the encoding error of that format.
pub open spec fn encodes<T: Record>(record: &T, format: Format, out: Result<String, Error>) -> bool {
    match format {
        Format::Json => match out {
            Ok(text) => call_ensures(T::to_json_pretty, (record,), Ok::<String, JsonError>(text)),
            Err(Error::SerJsonE(cause)) => call_ensures(
                T::to_json_pretty,
                (record,),
                Err::<String, JsonError>(cause),
            ),
            Err(_) => false,
        },
        Format::Toml => match out {
            Ok(text) => call_ensures(
                T::to_toml_pretty,
                (record,),
                Ok::<String, TomlSerError>(text),
            ),
            Err(Error::ParTomlE(cause)) => call_ensures(
                T::to_toml_pretty,
                (record,),
                Err::<String, TomlSerError>(cause),
            ),
            Err(_) => false,
        },
    }
}

/// Whether `out` is what decoding `text` in `format` comes to, for some outcome
/// of the type's own method for that format: its record as it is, or its
/// failure as the decoding error of that format.
pub open spec fn decodes<T: Record>(text: &str, format: Format, out: Result<T, Error>) -> bool {
    match format {
        Format::Json => match out {
            Ok(record) => call_ensures(T::from_json, (text,), Ok::<T, JsonError>(record)),
            Err(Error::DesJsonE(cause)) => call_ensures(
                T::from_json,
                (text,),
                Err::<T, JsonError>(cause),
            ),
            Err(_) => false,
        },
        Format::Toml => match out {
            Ok(record) => call_ensures(T::from_toml, (text,), Ok::<T, TomlDeError>(record)),
            Err(Error::DesTomlE(cause)) => call_ensures(
                T::from_toml,
                (text,),
                Err::<T, TomlDeError>(cause),
            ),
            Err(_) => false,
        },
    }
}

/// The file access that a save asks for: open `path` for writing, creating it
/// if it is missing only where `create_if_missing` is set, emptying it where
/// `truncate` is set, and write the bytes of `text`, all of them.
#[derive(Debug, PartialEq, Eq)]
pub struct WriteRequest {
    pub path: String,
    pub create_if_missing: bool,
    pub truncate: bool,
    pub text: String,
}

/// The file access that a load asks for: read the whole file at `path` as
/// text. `format` is the format in which that text will be decoded.
#[derive(Debug, PartialEq, Eq)]
pub struct ReadRequest {
    pub path: String,
    pub format: Format,
}

/// A `ReadRequest` as plain values.
pub struct ReadRequestView {
    pub path: Seq<char>,
    pub format: Format,
}

impl View for ReadRequest {
    type V = ReadRequestView;

    open spec fn view(&self) -> ReadRequestView {
        ReadRequestView { path: self.path@, format: self.format }
    }
}

/// Whether `out` is what saving `record` to `path` in `format` comes to. On
/// success it is the request to write to that very path, with creation as
/// asked and truncation always, a text that is an encoding of the record and
/// nothing else. On failure it is the encoding error, and there is no request.
pub open spec fn saves<T: Record>(
    record: &T,
    path: Seq<char>,
    create_if_missing: bool,
    format: Format,
    out: Result<WriteRequest, Error>,
) -> bool {
    match out {
        Ok(request) => {
            &&& request.path@ == path
            &&& request.create_if_missing == create_if_missing
            &&& request.truncate
            &&& encodes(record, format, Ok(request.text))
        },
        Err(error) => encodes(record, format, Err(error)),
    }
}

/// Whether `out` is what saving `record` to `path` in the format of the path's
/// extension comes to: where the extension selects no format, that error and
/// nothing else.
pub open spec fn saves_by_extension<T: Record>(
    record: &T,
    path: Seq<char>,
    create_if_missing: bool,
    out: Result<WriteRequest, Error>,
) -> bool {
    match format_of(path) {
        Some(format) => saves(record, path, create_if_missing, format, out),
        None => out == Err::<WriteRequest, Error>(Error::ExtensionDoesNotExist),
    }
}

/// What loading from `path` in the format of its extension answers.
pub open spec fn loading_by_extension(path: Seq<char>) -> Result<ReadRequestView, Error> {
    match format_of(path) {
        Some(format) => Ok(ReadRequestView { path, format }),
        None => Err(Error::ExtensionDoesNotExist),
    }
}

/// The result of a save whose write ended in `outcome`.
pub open spec fn saved(outcome: Result<(), IoError>) -> Result<(), Error> {
    match outcome {
        Ok(_) => Ok(()),
        Err(cause) => Err(Error::IoE(cause)),
    }
}

/// Whether `out` is what a load in `format` comes to when its read ended in
/// `outcome`: a failed read is reported as it is, and text that was read is
/// decoded, all of it.
pub open spec fn loads<T: Record>(
    format: Format,
    outcome: Result<String, IoError>,
    out: Result<T, Error>,
) -> bool {
    match outcome {
        Ok(content) => exists|text: &str| text@ == content@ && #[trigger] decodes(text, format, out),
        Err(cause) => out == Err::<T, Error>(Error::IoE(cause)),
    }
}

/// A record type that can be saved and loaded. A type adopts the capability by
/// an empty `impl`, once it is a `Record`.
pub trait Storeable: Record {
    /// Encodes this record in `format`.
    fn encode(&self, format: Format) -> (r: Result<String, Error>)
        ensures
            encodes(self, format, r),
    {
        match format {
            Format::Json => json_encode_outcome(self.to_json_pretty()),
            Format::Toml => toml_encode_outcome(self.to_toml_pretty()),
        }
    }

    /// Decodes `text`, which is in `format`, into a record. On failure there is
    /// no record, not even in part, and the error is the decoding error of
    /// `format`.
    fn decode(text: &str, format: Format) -> (r: Result<Self, Error>)
        ensures
            decodes(text, format, r),
    {
        match format {
            Format::Json => json_decode_outcome(Self::from_json(text)),
            Format::Toml => toml_decode_outcome(Self::from_toml(text)),
        }
    }

    /// Saves this record to the file at `path` in `format`.
    ///
    /// The record is encoded first: where that fails, the failure is returned
    /// and no file is to be touched. Otherwise the answer is the request to
    /// write the encoded text, all of it and nothing else, over what the file
    /// held, creating the file only where `create_if_missing` allows it.
    fn save(&self, path: &str, create_if_missing: bool, format: Format) -> (r: Result<
        WriteRequest,
        Error,
    >)
        ensures
            saves(self, path@, create_if_missing, format, r),
    {
        match self.encode(format) {
            Ok(text) => Ok(
                WriteRequest { path: path.to_owned(), create_if_missing, truncate: true, text },
            ),
            Err(error) => Err(error),
        }
    }

    /// Saves this record to the file at `path`, in the format that the path's
    /// extension selects. Where it selects none, that is the error, and neither
    /// the codec nor the file is asked for anything.
    fn save_by_extension(&self, path: &str, create_if_missing: bool) -> (r: Result<
        WriteRequest,
        Error,
    >)
        ensures
            saves_by_extension(self, path@, create_if_missing, r),
    {
        match path_to_format(path) {
            Ok(format) => self.save(path, create_if_missing, format),
            Err(error) => Err(error),
        }
    }

    /// Loads a record from the file at `path`, whose text is in `format`: the
    /// answer is the request to read that file.
    fn load(path: &str, format: Format) -> (r: ReadRequest)
        ensures
            r@ == (ReadRequestView { path: path@, format }),
    {
        ReadRequest { path: path.to_owned(), format }
    }

    /// Loads a record from the file at `path`, in the format that the path's
    /// extension selects. Where it selects none, that is the error, and no file
    /// is to be read.
    fn load_by_extension(path: &str) -> (r: Result<ReadRequest, Error>)
        ensures
            viewed(r) == loading_by_extension(path@),
    {
        match path_to_format(path) {
            Ok(format) => Ok(Self::load(path, format)),
            Err(error) => Err(error),
        }
    }
}

impl WriteRequest {
    /// Ends the save: `outcome` is how opening and writing the file went.
    pub fn complete(self, outcome: Result<(), IoError>) -> (r: Result<(), Error>)
        ensures
            r == saved(outcome),
    {
        io_outcome(outcome)
    }
}

impl ReadRequest {
    /// Ends the load: `outcome` is how reading the file went, with its whole
    /// text on success. That text is decoded in the request's format.
    pub fn complete<T: Storeable>(self, outcome: Result<String, IoError>) -> (r: Result<T, Error>)
        ensures
            loads(self.format, outcome, r),
    {
        match io_outcome(outcome) {
            Ok(content) => T::decode(content.as_str(), self.format),
            Err(error) => Err(error),
        }
    }
}

/// Whether the codec of `format` restores `record`: every text that encoding
/// the record can give decodes to that record and to nothing else.
pub open spec fn restores<T: Record>(record: &T, format: Format) -> bool {
    forall|written: String, text: &str, out: Result<T, Error>|
        #![trigger encodes(record, format, Ok(written)), decodes(text, format, out)]
        encodes(record, format, Ok(written)) && text@ == written@ && decodes(text, format, out)
            ==> out == Ok::<T, Error>(*record)
}

/// Saving and loading by extension meet. Take a record that the codec of the
/// path's format restores, a save by extension that answered with a request,
/// and a load by extension of the same path whose read brought back what that
/// request asked to write. Then the load asked for the very file that the save
/// wrote, and it ends in the record.
pub proof fn lemma_round_trip<T: Record>(
    record: &T,
    path: Seq<char>,
    create_if_missing: bool,
    write: WriteRequest,
    read: ReadRequest,
    out: Result<T, Error>,
)
    requires
        saves_by_extension(record, path, create_if_missing, Ok(write)),
        loading_by_extension(path) == Ok::<ReadRequestView, Error>(read@),
        loads(read.format, Ok(write.text), out),
        restores(record, read.format),
    ensures
        format_of(path) == Some(read.format),
        read.path@ == write.path@,
        out == Ok::<T, Error>(*record),
{
    let text = choose|text: &str| text@ == write.text@ && decodes(text, read.format, out);
    assert(encodes(record, read.format, Ok(write.text)) && decodes(text, read.format, out));
}

/// The round trip for JSON, with `lemma_round_trip`'s premises: it holds of
/// every path that ends in `.json`.
pub proof fn lemma_round_trip_json<T: Record>(
    record: &T,
    stem: Seq<char>,
    create_if_missing: bool,
    write: WriteRequest,
    read: ReadRequest,
    out: Result<T, Error>,
)
    requires
        saves_by_extension(record, stem + ".json"@, create_if_missing, Ok(write)),
        loading_by_extension(stem + ".json"@) == Ok::<ReadRequestView, Error>(read@),
        loads(read.format, Ok(write.text), out),
        restores(record, Format::Json),
    ensures
        read.format == Format::Json,
        read.path@ == write.path@,
        out == Ok::<T, Error>(*record),
{
    lemma_json_path(stem);
    lemma_round_trip(record, stem + ".json"@, create_if_missing, write, read, out);
}

/// The round trip for TOML, with `lemma_round_trip`'s premises: it holds of
/// every path that ends in `.toml`.
pub proof fn lemma_round_trip_toml<T: Record>(
    record: &T,
    stem: Seq<char>,
    create_if_missing: bool,
    write: WriteRequest,
    read: ReadRequest,
    out: Result<T, Error>,
)
    requires
        saves_by_extension(record, stem + ".toml"@, create_if_missing, Ok(write)),
        loading_by_extension(stem + ".toml"@) == Ok::<ReadRequestView, Error>(read@),
        loads(read.format, Ok(write.text), out),
        restores(record, Format::Toml),
    ensures
        read.format == Format::Toml,
        read.path@ == write.path@,
        out == Ok::<T, Error>(*record),
{
    lemma_toml_path(stem);
    lemma_round_trip(record, stem + ".toml"@, create_if_missing, write, read, out);
}

/// A path whose extension selects no format is refused by both operations
/// before anything else is asked for: saving answers with that error whatever
/// the record, and loading answers with it too, so neither hands out a request.
pub proof fn lemma_refused_before_any_access<T: Record>(
    record: &T,
    path: Seq<char>,
    create_if_missing: bool,
    out: Result<WriteRequest, Error>,
)
    requires
        format_of(path) is None,
        saves_by_extension(record, path, create_if_missing, out),
    ensures
        out == Err::<WriteRequest, Error>(Error::ExtensionDoesNotExist),
        loading_by_extension(path) == Err::<ReadRequestView, Error>(Error::ExtensionDoesNotExist),
{
}

/// Text that does not decode ends a load in the decoding error of the load's
/// own format, whatever the text, and in no record: a load that read its file
/// never fails with an error of another kind.
pub proof fn lemma_failed_load_is_of_the_format<T: Record>(
    format: Format,
    content: String,
    out: Result<T, Error>,
)
    requires
        loads(format, Ok(content), out),
        out is Err,
    ensures
        format == Format::Json ==> out->Err_0 is DesJsonE,
        format == Format::Toml ==> out->Err_0 is DesTomlE,
{
}

} // verus!
