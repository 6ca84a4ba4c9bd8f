//! The kinds of failure.

use vstd::prelude::*;
use vstd::string::StringExecFns;

verus! {

#[derive(Debug, PartialEq, Eq)]
pub enum HeimdallError {
    /// A subject was required and none was filled in.
    NilSubjectError,
    /// The input has a shape that the operation does not take.
    MalformedInput,
    /// The backend failed; the field holds its own message.
    Database(String),
    /// The operation has no defined behaviour yet.
    Unimplemented,
}

pub type HeimdallResult<T> = Result<T, HeimdallError>;

/// The diagnostic of each kind, one line with its line feed.
pub open spec fn diagnostic(e: HeimdallError) -> Seq<char> {
    match e {
        HeimdallError::NilSubjectError => "Subject missing\n"@,
        HeimdallError::MalformedInput => "Malformed Input\n"@,
        HeimdallError::Database(inner) => "Database Error: "@ + inner@ + "\n"@,
        HeimdallError::Unimplemented => "Unimplemented\n"@,
    }
}

impl HeimdallError {
    /// Wraps a backend error's message.
    pub fn database(message: String) -> (e: Self)
        ensures
            e == HeimdallError::Database(message),
    {
        HeimdallError::Database(message)
    }

    /// The short, stable text shown for this error.
    pub fn message(&self) -> (text: String)
        ensures
            text@ == diagnostic(*self),
    {
        match self {
            HeimdallError::NilSubjectError => "Subject missing\n".to_owned(),
            HeimdallError::MalformedInput => "Malformed Input\n".to_owned(),
            HeimdallError::Database(inner) => {
                let head = "Database Error: ".to_owned();
                head.concat(inner.as_str()).concat("\n")
            },
            HeimdallError::Unimplemented => "Unimplemented\n".to_owned(),
        }
    }
}

} // verus!
