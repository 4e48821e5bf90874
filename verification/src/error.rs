//! The error a context extraction or a handler reports.

use vstd::prelude::*;

verus! {

/// An error as plain values: HTTP status code and message text.
pub struct ErrorView {
    pub code: u16,
    pub msg: Seq<char>,
}

/// An HTTP error: the status code to answer with and the message that
/// becomes the response body.
#[derive(Debug, PartialEq, Eq)]
pub struct Error {
    pub code: u16,
    pub msg: String,
}

impl View for Error {
    type V = ErrorView;

    open spec fn view(&self) -> ErrorView {
        ErrorView { code: self.code, msg: self.msg@ }
    }
}

impl Error {
    /// The HTTP status code.
    pub fn code(&self) -> (code: u16)
        ensures
            code == self@.code,
    {
        self.code
    }

    /// The message describing what went wrong.
    pub fn msg(&self) -> (msg: &str)
        ensures
            msg@ == self@.msg,
    {
        self.msg.as_str()
    }
}

} // verus!
