//! The errors that a request is answered with.

use vstd::prelude::*;
use crate::web::api::INTERNAL_SERVER_ERROR;

verus! {

/// A failed request: the status to answer with and a text for the body.
#[derive(Debug)]
pub struct ResponseError {
    status: u16,
    message: String,
}

impl ResponseError {
    /// An error with the given status and text.
    pub fn new(status: u16, message: String) -> (error: Self)
        ensures
            error.code() == status,
            error.text() == message@,
    {
        Self { status, message }
    }

    /// An error that nothing classifies: it has status 500.
    pub fn internal(message: String) -> (error: Self)
        ensures
            error.code() == INTERNAL_SERVER_ERROR,
            error.text() == message@,
    {
        Self { status: INTERNAL_SERVER_ERROR, message }
    }

    /// The same error under another status.
    pub fn with_code(self, code: u16) -> (error: Self)
        ensures
            error.code() == code,
            error.text() == self.text(),
    {
        Self { status: code, message: self.message }
    }

    /// The status to answer with.
    pub closed spec fn code(&self) -> u16 {
        self.status
    }

    /// The text for the body.
    pub closed spec fn text(&self) -> Seq<char> {
        self.message@
    }

    /// The status to answer with.
    pub fn status(&self) -> (status: u16)
        ensures
            status == self.code(),
    {
        self.status
    }

    /// The text for the body.
    pub fn message(&self) -> (message: &String)
        ensures
            message@ == self.text(),
    {
        &self.message
    }
}

} // verus!
