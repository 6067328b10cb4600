//! Error taxonomy for every operation of the library.

use vstd::prelude::*;

verus! {

/// Why an operation failed. Every failure is terminal for the call that
/// produced it: no retry, no partial result.
#[derive(Debug, Clone)]
pub enum Error {
    /// Network, HTTP or signature failure reported by the transport;
    /// the message is propagated unchanged.
    Transport(String),
    /// The response bytes were not valid UTF-8.
    Encoding,
    /// The response text was not syntactically valid JSON, or not
    /// decomposable into `key=value` segments.
    Parse,
    /// The response was syntactically valid but a required field was
    /// missing or had the wrong type.
    Schema,
}

impl Error {
    /// Short description of the error kind, for callers that report it.
    pub fn describe(&self) -> (r: String)
        ensures
            match self {
                Error::Transport(m) => r@ == "transport error: "@ + m@,
                Error::Encoding => r@ == "response body is not valid UTF-8"@,
                Error::Parse => r@ == "response body is not well formed"@,
                Error::Schema => r@
                    == "response is missing a required field or has a mistyped one"@,
            },
    {
        match self {
            Error::Transport(m) => {
                let mut r = String::from_str("transport error: ");
                r.append(m.as_str());
                r
            },
            Error::Encoding => String::from_str("response body is not valid UTF-8"),
            Error::Parse => String::from_str("response body is not well formed"),
            Error::Schema => String::from_str(
                "response is missing a required field or has a mistyped one",
            ),
        }
    }
}

} // verus!
