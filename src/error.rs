use vstd::prelude::*;

verus! {

/// Why a probe of a server failed. Each variant carries a human-readable detail.
#[derive(Debug, Clone, PartialEq, Eq)]
pub enum Error {
    /// The transport connection could not be opened.
    ConnectionFailed(String),
    /// The status exchange was malformed, interrupted, or the family is unsupported.
    ProtocolFailed(String),
    /// A lower-level transport error not classified above.
    TransportFailed(String),
}

/// The user-visible text of an error, given its kind and its detail.
pub open spec fn error_message(e: Error) -> Seq<char> {
    match e {
        Error::ConnectionFailed(d) => "Failed to connect to server: "@ + d@,
        Error::ProtocolFailed(d) => "Server ping failed: "@ + d@,
        Error::TransportFailed(d) => d@,
    }
}

impl Error {
    /// The single human-readable line shown to the user for this error.
    pub fn message(&self) -> (r: String)
        ensures
            r@ == error_message(*self),
    {
        match self {
            Error::ConnectionFailed(d) => {
                let prefix = String::from_str("Failed to connect to server: ");
                proof { reveal_strlit("Failed to connect to server: "); }
                prefix.concat(d.as_str())
            },
            Error::ProtocolFailed(d) => {
                let prefix = String::from_str("Server ping failed: ");
                proof { reveal_strlit("Server ping failed: "); }
                prefix.concat(d.as_str())
            },
            Error::TransportFailed(d) => d.clone(),
        }
    }
}

} // verus!
