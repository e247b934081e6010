//! The failure value that travels through `enter` and `exit`.

use vstd::prelude::*;
use vstd::string::StringExecFns;

verus! {

/// What kind of failure a [`ContextError`] reports.
#[derive(Clone, Copy, Debug, PartialEq, Eq, Structural)]
pub enum ContextErrorType {
    /// A resource could not be acquired.
    EnterError,
    /// A sequence-backed resource had nothing to yield on entry.
    IterEnterError,
    /// A sequence-backed resource broke its protocol on exit.
    IterExitError,
    /// Any other failure, such as one produced by the protected block.
    Other,
}

/// A failure: its kind and a message for people.
///
/// Both are fixed when the value is made.
#[derive(Clone, Debug, PartialEq, Eq)]
pub struct ContextError {
    kind: ContextErrorType,
    message: String,
}

/// The outcome that `enter` returns and that `exit` is shown.
pub type ContextResult = Result<(), ContextError>;

impl ContextError {
    /// The kind this failure was made with.
    pub closed spec fn spec_kind(&self) -> ContextErrorType {
        self.kind
    }

    /// The characters of the message this failure was made with.
    pub closed spec fn spec_message(&self) -> Seq<char> {
        self.message@
    }

    /// A failure of the given kind with the given message.
    pub fn new(kind: ContextErrorType, message: &str) -> (err: Self)
        ensures
            err.spec_kind() == kind,
            err.spec_message() == message@,
    {
        ContextError { kind, message: String::from_str(message) }
    }

    /// The kind of this failure.
    #[verifier::when_used_as_spec(spec_kind)]
    pub fn kind(&self) -> (kind: ContextErrorType)
        ensures
            kind == self.spec_kind(),
    {
        self.kind
    }

    /// The message of this failure.
    pub fn message(&self) -> (message: &str)
        ensures
            message@ == self.spec_message(),
    {
        self.message.as_str()
    }

    /// The message as an owned string, for printing.
    pub fn to_string(&self) -> (text: String)
        ensures
            text@ == self.spec_message(),
    {
        self.message.clone()
    }
}

} // verus!
