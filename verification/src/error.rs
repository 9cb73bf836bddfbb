//! The ways a query can fail, and the record of a reply that could not be
//! read.

use chrono::format::ParseError as DateFault;
use rmp_serde::decode::Error as UnpackFault;
use rmp_serde::encode::Error as PackFault;
use vstd::prelude::*;
use vstd::std_specs::convert::FromSpecImpl;

verus! {

/// chrono's report of a date that it could not read.
#[verifier::external_type_specification]
#[verifier::external_body]
pub struct ExDateFault(DateFault);

/// rmp-serde's report of bytes that it could not read.
#[verifier::external_type_specification]
#[verifier::external_body]
pub struct ExUnpackFault(UnpackFault);

/// rmp-serde's report of a value that it could not write.
#[verifier::external_type_specification]
#[verifier::external_body]
pub struct ExPackFault(PackFault);

/// A failure of the library.
#[derive(Debug)]
pub enum Error {
    /// The transport could not deliver a page; the text is its report.
    ReqwestError(String),
    /// A record's date is not of the form `YYYY-MM-DD HH:MM:SS`.
    ChronoParseError(DateFault),
    /// A reply is not the MessagePack envelope of a page of replays.
    DecodeError(UnpackFault),
    /// A request could not be written as MessagePack.
    EncodeError(PackFault),
    /// A field of a record does not hold what it should.
    ParsingBytesError(&'static str),
    /// A reply does not have the layout of a page of replays.
    UnexpectedResponse(&'static str),
    /// No character has this code; the text is the code that was given.
    InvalidCharacterCode(String),
    /// An argument is out of its range; the text says which.
    InvalidArgument(String),
}

/// What an [`Error`] says, with the reports of outside libraries left out.
pub enum ErrorView {
    ReqwestError(Seq<char>),
    ChronoParseError,
    DecodeError,
    EncodeError,
    ParsingBytesError(Seq<char>),
    UnexpectedResponse(Seq<char>),
    InvalidCharacterCode(Seq<char>),
    InvalidArgument(Seq<char>),
}

impl View for Error {
    type V = ErrorView;

    open spec fn view(&self) -> ErrorView {
        match self {
            Error::ReqwestError(text) => ErrorView::ReqwestError(text@),
            Error::ChronoParseError(_) => ErrorView::ChronoParseError,
            Error::DecodeError(_) => ErrorView::DecodeError,
            Error::EncodeError(_) => ErrorView::EncodeError,
            Error::ParsingBytesError(text) => ErrorView::ParsingBytesError(text@),
            Error::UnexpectedResponse(text) => ErrorView::UnexpectedResponse(text@),
            Error::InvalidCharacterCode(code) => ErrorView::InvalidCharacterCode(code@),
            Error::InvalidArgument(text) => ErrorView::InvalidArgument(text@),
        }
    }
}

impl From<DateFault> for Error {
    fn from(e: DateFault) -> (error: Error) {
        Error::ChronoParseError(e)
    }
}

impl FromSpecImpl<DateFault> for Error {
    open spec fn obeys_from_spec() -> bool {
        true
    }

    open spec fn from_spec(e: DateFault) -> Error {
        Error::ChronoParseError(e)
    }
}

impl From<UnpackFault> for Error {
    fn from(e: UnpackFault) -> (error: Error) {
        Error::DecodeError(e)
    }
}

impl FromSpecImpl<UnpackFault> for Error {
    open spec fn obeys_from_spec() -> bool {
        true
    }

    open spec fn from_spec(e: UnpackFault) -> Error {
        Error::DecodeError(e)
    }
}

impl From<PackFault> for Error {
    fn from(e: PackFault) -> (error: Error) {
        Error::EncodeError(e)
    }
}

impl FromSpecImpl<PackFault> for Error {
    open spec fn obeys_from_spec() -> bool {
        true
    }

    open spec fn from_spec(e: PackFault) -> Error {
        Error::EncodeError(e)
    }
}

pub type Result<T> = std::result::Result<T, Error>;

/// A reply, or one record of it, that could not be read: what was received
/// and why it was refused.
#[derive(Debug)]
pub struct ParseError {
    reply_content: String,
    inner: Error,
}

/// What a [`ParseError`] holds.
pub struct ParseErrorView {
    pub reply_content: Seq<char>,
    pub inner: ErrorView,
}

impl View for ParseError {
    type V = ParseErrorView;

    closed spec fn view(&self) -> ParseErrorView {
        ParseErrorView { reply_content: self.reply_content@, inner: self.inner@ }
    }
}

impl ParseError {
    /// The record that `reply_content` could not be read because of
    /// `inner`.
    pub fn new(reply_content: String, inner: Error) -> (e: ParseError)
        ensures
            e@ == (ParseErrorView { reply_content: reply_content@, inner: inner@ }),
    {
        ParseError { reply_content, inner }
    }

    /// The text of what was received.
    pub fn reply_content(&self) -> (text: &String)
        ensures
            text@ == self@.reply_content,
    {
        &self.reply_content
    }

    /// Why it was refused.
    pub fn inner(&self) -> (cause: &Error)
        ensures
            cause@ == self@.inner,
    {
        &self.inner
    }
}

} // verus!
