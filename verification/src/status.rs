//! How an operation of the service ends when it does not succeed.

use vstd::prelude::*;

verus! {

/// The kinds of failure that a caller can tell apart.
#[derive(Debug, Clone, Copy, PartialEq, Eq)]
pub enum Code {
    /// An argument could not be read.
    InvalidArgument,
    /// No share is on file for the key, or the client's share does not
    /// match it: the two are not told apart.
    NotFound,
    /// The key already has a share on file.
    AlreadyExists,
    /// The testator is live: no claim is permitted.
    FailedPrecondition,
    /// The store failed, or the service found itself in a state that it
    /// rules out.
    Internal,
}

/// A failure: its kind and a sentence for the reader.
#[derive(Debug, Clone, Copy, PartialEq, Eq)]
pub struct Status {
    pub code: Code,
    pub message: &'static str,
}

/// What a [`Status`] tells: its kind and the text of its sentence.
pub struct Refusal {
    pub code: Code,
    pub sentence: Seq<char>,
}

/// The refusal of kind `code` that says `sentence`.
pub open spec fn refuse(code: Code, sentence: &str) -> Refusal {
    Refusal { code, sentence: sentence@ }
}

impl View for Status {
    type V = Refusal;

    open spec fn view(&self) -> Refusal {
        Refusal { code: self.code, sentence: self.message@ }
    }
}

impl Status {
    /// Whether the status has this kind and this sentence.
    pub open spec fn says(self, code: Code, message: &str) -> bool {
        self@ == refuse(code, message)
    }

    /// A failure of kind `code` that says `message`.
    pub fn new(code: Code, message: &'static str) -> (status: Status)
        ensures
            status.code == code,
            status.message == message,
    {
        Status { code, message }
    }

    pub fn invalid_argument(message: &'static str) -> (status: Status)
        ensures
            status.says(Code::InvalidArgument, message),
    {
        Status { code: Code::InvalidArgument, message }
    }

    pub fn not_found(message: &'static str) -> (status: Status)
        ensures
            status.says(Code::NotFound, message),
    {
        Status { code: Code::NotFound, message }
    }

    pub fn already_exists(message: &'static str) -> (status: Status)
        ensures
            status.says(Code::AlreadyExists, message),
    {
        Status { code: Code::AlreadyExists, message }
    }

    pub fn failed_precondition(message: &'static str) -> (status: Status)
        ensures
            status.says(Code::FailedPrecondition, message),
    {
        Status { code: Code::FailedPrecondition, message }
    }

    pub fn internal(message: &'static str) -> (status: Status)
        ensures
            status.says(Code::Internal, message),
    {
        Status { code: Code::Internal, message }
    }
}

} // verus!
