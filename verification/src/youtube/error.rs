//! The web-platform adapter's error taxonomy: input validation, bootstrap
//! discovery, transport, and parsing failures, with a plain description
//! for each.

use vstd::prelude::*;

use crate::text::nat_to_digits;

verus! {

/// What can go wrong while bootstrapping or streaming a chat. Transport
/// payloads are carried as plain text so the taxonomy stays independent
/// of the HTTP client in use.
#[derive(Debug, Clone)]
pub enum Error {
    /// The given video id or URL has no valid form.
    InvalidVideoID(String),
    /// The given channel id or URL has no valid form.
    InvalidChannelID(String),
    /// The channel has no stream matching the search options.
    NoMatchingStream(String),
    /// The channel streams page carries no initial-data structure.
    MissingInitialData,
    /// A response body could not be decoded.
    Deserialization(String),
    /// A chat response carried no continuation contents.
    MissingContinuationContents,
    /// The stream's continuation chain has ended.
    EndOfContinuation,
    /// A request timed out; the only transient error.
    TimedOut,
    /// A request returned a bad HTTP status.
    BadStatus(u16),
    /// A request failed for another transport reason.
    GeneralRequest(String),
    /// The given id names a video that is not a live stream.
    NotStream(String),
    /// The watch page carries no API key.
    NoInnerTubeKey,
    /// The watch page carries no chat continuation token.
    NoChatContinuation,
    /// A URL could not be parsed.
    URLParseError(String),
}

/// The description each error carries.
pub open spec fn spec_message(e: Error) -> Seq<char> {
    match e {
        Error::InvalidVideoID(s) => "Invalid YouTube video ID or URL: "@ + s@,
        Error::InvalidChannelID(s) => "Invalid YouTube channel ID or URL: "@ + s@,
        Error::NoMatchingStream(s) => "Channel "@ + s@
            + " has no live stream matching the options criteria"@,
        Error::MissingInitialData => "Missing `ytInitialData` structure from channel streams page."@,
        Error::Deserialization(s) => "error when deserializing: "@ + s@,
        Error::MissingContinuationContents => "missing continuation contents"@,
        Error::EndOfContinuation => "reached end of continuation"@,
        Error::TimedOut => "request timed out"@,
        Error::BadStatus(c) => "request returned bad HTTP status: "@ + nat_to_digits(c as nat),
        Error::GeneralRequest(s) => "request error: "@ + s@,
        Error::NotStream(s) => s@ + " is not a live stream"@,
        Error::NoInnerTubeKey => "Failed to match InnerTube API key"@,
        Error::NoChatContinuation => "Chat continuation token could not be found."@,
        Error::URLParseError(s) => "Error parsing URL: "@ + s@,
    }
}

impl Error {
    /// Every error but a transport timeout is fatal.
    pub fn is_fatal(&self) -> (r: bool)
        ensures
            r == !(self is TimedOut),
    {
        match self {
            Error::TimedOut => false,
            _ => true,
        }
    }

    /// A plain description of the error.
    pub fn message(&self) -> (r: String)
        ensures
            r@ == spec_message(*self),
    {
        match self {
            Error::InvalidVideoID(s) => {
                let mut r = "Invalid YouTube video ID or URL: ".to_owned();
                r.append(s.as_str());
                r
            },
            Error::InvalidChannelID(s) => {
                let mut r = "Invalid YouTube channel ID or URL: ".to_owned();
                r.append(s.as_str());
                r
            },
            Error::NoMatchingStream(s) => {
                let mut r = "Channel ".to_owned();
                r.append(s.as_str());
                r.append(" has no live stream matching the options criteria");
                r
            },
            Error::MissingInitialData => {
                "Missing `ytInitialData` structure from channel streams page.".to_owned()
            },
            Error::Deserialization(s) => {
                let mut r = "error when deserializing: ".to_owned();
                r.append(s.as_str());
                r
            },
            Error::MissingContinuationContents => "missing continuation contents".to_owned(),
            Error::EndOfContinuation => "reached end of continuation".to_owned(),
            Error::TimedOut => "request timed out".to_owned(),
            Error::BadStatus(c) => {
                let mut r = "request returned bad HTTP status: ".to_owned();
                let digits = crate::text::u64_to_string(*c as u64);
                r.append(digits.as_str());
                r
            },
            Error::GeneralRequest(s) => {
                let mut r = "request error: ".to_owned();
                r.append(s.as_str());
                r
            },
            Error::NotStream(s) => {
                let mut r = s.clone();
                r.append(" is not a live stream");
                r
            },
            Error::NoInnerTubeKey => "Failed to match InnerTube API key".to_owned(),
            Error::NoChatContinuation => "Chat continuation token could not be found.".to_owned(),
            Error::URLParseError(s) => {
                let mut r = "Error parsing URL: ".to_owned();
                r.append(s.as_str());
                r
            },
        }
    }
}

} // verus!
