//! Errors that a handler or a session can end with.

use vstd::prelude::*;
use vstd::string::StringExecFns;

verus! {

/// Why a handler gave up on an input.
#[derive(Debug)]
pub enum SolarError {
    /// The EBT session on this request number failed, with the reason.
    EbtReplicate((i32, String)),
    /// A value that the step needs has not been set yet.
    OptionIsNone,
    /// A JSON text could not be read or written.
    SerdeJson(serde_json::Error),
    /// A feed message was rejected: malformed, or its signature or digest
    /// does not match.
    KuskaFeed(kuska_ssb::feed::Error),
    /// The sequence number of a feed message is not an unsigned integer.
    InvalidSequence,
    /// A text is in no shape to be read as a feed message: it nests too
    /// deep, or its author's identity is empty or starts with a character
    /// of several bytes.
    MalformedMessage,
}

/// The text of a JSON error, through its `Display` impl (`to_string`).
/// Nothing is claimed of the text.
#[verifier::external_body]
fn json_error_text(e: &serde_json::Error) -> String {
    e.to_string()
}

/// The text of a feed error, through its `Display` impl (`to_string`).
/// Nothing is claimed of the text.
#[verifier::external_body]
fn feed_error_text(e: &kuska_ssb::feed::Error) -> String {
    e.to_string()
}

impl SolarError {
    /// The text that `describe` gives for the errors whose text the library
    /// fixes itself; `None` for those whose text comes from elsewhere.
    pub open spec fn fixed_text(&self) -> Option<Seq<char>> {
        match self {
            SolarError::EbtReplicate(p) => Some(p.1@),
            SolarError::OptionIsNone => Some("a required value is missing"@),
            SolarError::InvalidSequence => Some("invalid sequence number"@),
            SolarError::MalformedMessage => Some("malformed message"@),
            SolarError::SerdeJson(_) => None,
            SolarError::KuskaFeed(_) => None,
        }
    }

    /// The error as text, for logs and for `Error` events.
    pub fn describe(&self) -> (text: String)
        ensures
            self.fixed_text() matches Some(t) ==> text@ == t,
    {
        match self {
            SolarError::EbtReplicate(p) => p.1.clone(),
            SolarError::OptionIsNone => String::from_str("a required value is missing"),
            SolarError::InvalidSequence => String::from_str("invalid sequence number"),
            SolarError::MalformedMessage => String::from_str("malformed message"),
            SolarError::SerdeJson(e) => json_error_text(e),
            SolarError::KuskaFeed(e) => feed_error_text(e),
        }
    }
}

} // verus!
