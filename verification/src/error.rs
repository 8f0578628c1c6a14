//! The error taxonomy of the library. Every error is terminal for an
//! invocation: nothing is retried.

use vstd::prelude::*;

verus! {

/// Everything that can go wrong while turning a git entity into an answer.
#[derive(Clone, Debug)]
pub enum LumenError {
    /// Contradictory or insufficient command input, detected before any
    /// network call.
    InvalidArguments(String),
    /// Missing credential for a provider variant that requires one, detected
    /// at startup.
    ProviderConfigError(String),
    /// Transport-level failure reported by the network layer.
    NetworkError(String),
    /// Malformed or unexpected stream framing, a non-2xx HTTP status, or a
    /// backend-embedded error payload. Carries the HTTP status when one was
    /// seen.
    ProviderProtocolError { status: Option<u16>, message: String },
    /// A commit that cannot be found, or a missing diff.
    GitEntityError(String),
}

impl LumenError {
    /// True exactly of the variants that are detected before any network
    /// call is attempted.
    pub open spec fn is_pre_network(self) -> bool {
        match self {
            LumenError::InvalidArguments(_) => true,
            LumenError::ProviderConfigError(_) => true,
            _ => false,
        }
    }

    /// A single user-facing line describing the error.
    pub fn describe(&self) -> (r: String)
        ensures
            r@ == self.spec_describe(),
    {
        match self {
            LumenError::InvalidArguments(m) => String::from_str("invalid arguments: ").concat(
                m.as_str(),
            ),
            LumenError::ProviderConfigError(m) => String::from_str("provider config: ").concat(
                m.as_str(),
            ),
            LumenError::NetworkError(m) => String::from_str("network: ").concat(m.as_str()),
            LumenError::ProviderProtocolError { status: _, message } => String::from_str(
                "provider protocol: ",
            ).concat(message.as_str()),
            LumenError::GitEntityError(m) => String::from_str("git: ").concat(m.as_str()),
        }
    }

    /// What `describe` returns.
    pub open spec fn spec_describe(self) -> Seq<char> {
        match self {
            LumenError::InvalidArguments(m) => "invalid arguments: "@ + m@,
            LumenError::ProviderConfigError(m) => "provider config: "@ + m@,
            LumenError::NetworkError(m) => "network: "@ + m@,
            LumenError::ProviderProtocolError { status, message } => "provider protocol: "@
                + message@,
            LumenError::GitEntityError(m) => "git: "@ + m@,
        }
    }
}

} // verus!
