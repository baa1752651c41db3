//! What can go wrong, and the text that reports it.

use vstd::prelude::*;
use vstd::string::*;

verus! {

/// The ways in which an invocation or a run fails.
#[derive(Debug, PartialEq, Eq)]
pub enum CatError {
    /// Both numbering flags were given.
    Usage,
    /// An input could not be opened. The run goes on with the next input.
    Open { filename: String, cause: String },
    /// Reading a line from an opened input failed. The run ends.
    Read { cause: String },
}

/// The mathematical value of a [`CatError`].
pub enum Failure {
    Usage,
    Open { filename: Seq<char>, cause: Seq<char> },
    Read { cause: Seq<char> },
}

impl Failure {
    /// The one-line text that reports this failure.
    pub open spec fn message(self) -> Seq<char> {
        match self {
            Failure::Usage => usage_text(),
            Failure::Open { filename, cause } => open_text(filename, cause),
            Failure::Read { cause } => cause,
        }
    }
}

/// The report of conflicting numbering flags.
pub open spec fn usage_text() -> Seq<char> {
    "the argument '--number' cannot be used with '--number-nonblank'"@
}

/// The report of an input that could not be opened.
pub open spec fn open_text(filename: Seq<char>, cause: Seq<char>) -> Seq<char> {
    "Failed to open "@ + filename + ": "@ + cause
}

impl View for CatError {
    type V = Failure;

    open spec fn view(&self) -> Failure {
        match self {
            CatError::Usage => Failure::Usage,
            CatError::Open { filename, cause } => Failure::Open {
                filename: filename@,
                cause: cause@,
            },
            CatError::Read { cause } => Failure::Read { cause: cause@ },
        }
    }
}

/// Builds the report of an input that could not be opened.
fn open_message(filename: &str, cause: &str) -> (r: String)
    ensures
        r@ == open_text(filename@, cause@),
{
    let mut out = String::from_str("Failed to open ");
    out.append(filename);
    out.append(": ");
    out.append(cause);
    out
}

impl CatError {
    /// The one-line text that reports this error.
    pub fn message(&self) -> (r: String)
        ensures
            r@ == self@.message(),
    {
        match self {
            CatError::Usage => String::from_str(
                "the argument '--number' cannot be used with '--number-nonblank'",
            ),
            CatError::Open { filename, cause } => open_message(filename.as_str(), cause.as_str()),
            CatError::Read { cause } => cause.clone(),
        }
    }
}

} // verus!
