//! The error that decoding reports.

use vstd::prelude::*;
use vstd::string::StringExecFns;

verus! {

/// What went wrong. The message names the field and the text that was refused.
#[derive(Debug)]
pub enum Error {
    DecodeError(String),
}

impl View for Error {
    type V = Seq<char>;

    /// The message of the error.
    open spec fn view(&self) -> Seq<char> {
        match self {
            Error::DecodeError(msg) => msg@,
        }
    }
}

impl Error {
    pub(crate) fn decode_error(msg: String) -> (e: Error)
        ensures
            e@ == msg@,
    {
        Error::DecodeError(msg)
    }

    /// The text that describes the error: the words `sfen decode error: `
    /// and the message.
    pub fn to_string(&self) -> (text: String)
        ensures
            text@ == "sfen decode error: "@ + self@,
    {
        match self {
            Error::DecodeError(msg) => {
                let mut text = String::from_str("sfen decode error: ");
                text.append(msg.as_str());
                text
            },
        }
    }
}

} // verus!
