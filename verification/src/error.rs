//! Errors of the framework.

use crate::text::{joined, joined_text, slices};
use vstd::prelude::*;
use vstd::string::*;

verus! {

/// `std::io::Error`, carried through unread.
#[verifier::external_type_specification]
#[verifier::external_body]
pub struct ExIoError(std::io::Error);

/// Errors of the framework.
#[derive(Debug)]
pub enum FrameworkError {
    /// Logging could not be set up.
    Logging(String),
    /// Input or output failed.
    Io(std::io::Error),
}

impl From<std::io::Error> for FrameworkError {
    fn from(error: std::io::Error) -> (r: FrameworkError) {
        FrameworkError::Io(error)
    }
}

impl vstd::std_specs::convert::FromSpecImpl<std::io::Error> for FrameworkError {
    open spec fn obeys_from_spec() -> bool {
        true
    }

    open spec fn from_spec(error: std::io::Error) -> FrameworkError {
        FrameworkError::Io(error)
    }
}

/// Calls `to_string` of `std::io::Error`. Nothing is claimed of the text: for an error of
/// the operating system it is what that system says.
#[verifier::external_body]
fn io_text(error: &std::io::Error) -> (text: String) {
    error.to_string()
}

/// Whether an input or output error can read so.
pub closed spec fn reads_as(error: &std::io::Error, text: String) -> bool {
    call_ensures(io_text, (error,), text)
}

/// The message of an error of the given kind with the given detail.
pub open spec fn spec_message(io: bool, detail: Seq<char>) -> Seq<char> {
    if io {
        joined(seq!["io: "@, detail])
    } else {
        joined(seq!["logging init failed: "@, detail])
    }
}

/// The message of an error of the given kind with the given detail.
pub fn message_with(io: bool, detail: &str) -> (r: String)
    ensures
        r@ == spec_message(io, detail@),
{
    let kind: &str = if io {
        "io: "
    } else {
        "logging init failed: "
    };
    let parts: Vec<&str> = vec![kind, detail];
    assert(slices(parts@) =~= seq![kind@, detail@]);
    joined_text(parts)
}

impl FrameworkError {
    /// The message of the error.
    pub fn message(&self) -> (r: String)
        ensures
            match self {
                FrameworkError::Logging(detail) => r@ == spec_message(false, detail@),
                FrameworkError::Io(error) => exists|text: String| #[trigger]
                    reads_as(error, text) && r@ == spec_message(true, text@),
            },
    {
        match self {
            FrameworkError::Logging(detail) => message_with(false, detail.as_str()),
            FrameworkError::Io(error) => {
                let text: String = io_text(error);
                assert(reads_as(error, text));
                message_with(true, text.as_str())
            },
        }
    }
}

/// A message says what failed and then gives the detail as it is.
pub proof fn law_messages(
    io: bool,
    detail: &str,
    error: FrameworkError,
    cause: std::io::Error,
    r: String,
    made: FrameworkError,
)
    ensures
        call_ensures(message_with, (io, detail), r) ==> r@ == (if io {
            "io: "@
        } else {
            "logging init failed: "@
        }) + detail@,
        call_ensures(FrameworkError::message, (&error,), r) && error is Logging ==> r@
            == "logging init failed: "@ + error->Logging_0@,
        call_ensures(FrameworkError::message, (&error,), r) && error is Io ==> exists|text: String|
            #[trigger] reads_as(&error->Io_0, text) && r@ == "io: "@ + text@,
        call_ensures(<FrameworkError as From<std::io::Error>>::from, (cause,), made) ==> made
            == FrameworkError::Io(cause),
{
    reveal_with_fuel(joined, 3);
    assert(spec_message(io, detail@) =~= (if io {
        "io: "@
    } else {
        "logging init failed: "@
    }) + detail@);
    if let FrameworkError::Logging(text) = error {
        assert(spec_message(false, text@) =~= "logging init failed: "@ + text@);
    }
    if call_ensures(FrameworkError::message, (&error,), r) && error is Io {
        let text = choose|text: String| #[trigger]
            reads_as(&error->Io_0, text) && r@ == spec_message(true, text@);
        assert(spec_message(true, text@) =~= "io: "@ + text@);
        assert(reads_as(&error->Io_0, text));
    }
}

} // verus!
