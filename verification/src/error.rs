//! The errors of the remote exec-server.
use vstd::prelude::*;

verus! {

/// Why a remote exec-server operation failed.
#[derive(Debug, Clone, PartialEq, Eq)]
pub enum ExecServerError {
    /// A peer or the registry broke the protocol.
    Protocol(String),
    /// The registry settings are unusable.
    EnvironmentRegistryConfig(String),
    /// The registry refused the credentials.
    EnvironmentRegistryAuth(String),
    /// The registry answered with another HTTP error.
    EnvironmentRegistryHttp {
        /// The HTTP status code.
        status: u16,
        /// The registry's own error code.
        code: Option<String>,
        /// What the registry said.
        message: String,
    },
    /// A request to the registry failed before an answer could be read.
    EnvironmentRegistryRequest(String),
    /// No websocket connection came about in time.
    WebSocketConnectTimeout {
        /// The address, fit for display.
        url: String,
        /// The time allowed, in milliseconds.
        timeout_ms: u64,
    },
    /// No websocket connection came about.
    WebSocketConnect {
        /// The address, fit for display.
        url: String,
        /// The reason.
        source: String,
    },
    /// A command could not be spawned.
    Spawn(String),
}

impl ExecServerError {
    /// Whether this is a protocol error with the given message.
    pub open spec fn is_protocol(self, message: Seq<char>) -> bool {
        self matches ExecServerError::Protocol(m) && m@ == message
    }

    /// Whether this is a configuration error with the given message.
    pub open spec fn is_config(self, message: Seq<char>) -> bool {
        self matches ExecServerError::EnvironmentRegistryConfig(m) && m@ == message
    }

    /// Whether this is an authentication error with the given message.
    pub open spec fn is_auth(self, message: Seq<char>) -> bool {
        self matches ExecServerError::EnvironmentRegistryAuth(m) && m@ == message
    }
}

/// Makes a protocol error.
pub fn protocol_error(message: &str) -> (r: ExecServerError)
    ensures
        r.is_protocol(message@),
{
    ExecServerError::Protocol(message.to_owned())
}

/// Makes a configuration error.
pub fn config_error(message: &str) -> (r: ExecServerError)
    ensures
        r.is_config(message@),
{
    ExecServerError::EnvironmentRegistryConfig(message.to_owned())
}

/// An error is of one kind, and it is of that kind with its own message only.
pub proof fn law_error_is_of_one_kind(e: ExecServerError, m: String, message: Seq<char>)
    ensures
        ExecServerError::Protocol(m).is_protocol(m@),
        ExecServerError::EnvironmentRegistryConfig(m).is_config(m@),
        ExecServerError::EnvironmentRegistryAuth(m).is_auth(m@),
        e.is_protocol(message) ==> e is Protocol && !e.is_config(message) && !e.is_auth(message),
        e.is_config(message) ==> e is EnvironmentRegistryConfig && !e.is_auth(message),
        e.is_auth(message) ==> e is EnvironmentRegistryAuth,
        message != m@ ==> !ExecServerError::Protocol(m).is_protocol(message)
            && !ExecServerError::EnvironmentRegistryConfig(m).is_config(message)
            && !ExecServerError::EnvironmentRegistryAuth(m).is_auth(message),
{
}

} // verus!
