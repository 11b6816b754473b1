//! Error values of the client.
//!
//! An ADS error is carried as its 32-bit code, as it travels in the AMS header
//! and in the first four bytes of every response body.
use vstd::prelude::*;

verus! {

/// ADS code of a response that carries valid data.
pub const ERR_NO_ERROR: u32 = 0;

/// ADS code that reports a lost connection; it also triggers the disconnect handling.
pub const ERR_PORT_NOT_CONNECTED: u32 = 13;

/// ADS code for a symbol that the controller does not know.
pub const ADS_ERR_DEVICE_SYMBOL_NOT_FOUND: u32 = 1808;

/// ADS code for a client that is not set up (no reader is running).
pub const ADS_ERR_CLIENT_ERROR: u32 = 1856;

/// ADS code for a client without an open transport.
pub const ADS_ERR_CLIENT_PORT_NOT_OPEN: u32 = 1864;

/// Why an operation of the client failed.
#[derive(Debug, Clone, PartialEq, Eq)]
pub enum ClientError {
    /// An ADS error, by its code.
    Ads(u32),
    /// The transport failed to connect, read or write.
    Transport,
    /// The sink of a request was closed before a response arrived.
    ChannelClosed,
    /// The response is of another kind than the request asks for.
    UnexpectedResponse,
    /// Bytes that the codec cannot decode.
    Malformed,
    /// The request does not fit into one AMS/TCP frame.
    RequestTooLarge,
    /// The controller did not answer a handle request with a four byte handle.
    VarHandleNotFound { name: String },
    /// No handle is cached under the name.
    HandleNotAvailable,
}

pub type ClientResult<T> = Result<T, ClientError>;

impl ClientError {
    /// True for the error that reports a lost connection.
    pub open spec fn spec_is_disconnect(&self) -> bool {
        *self == ClientError::Ads(ERR_PORT_NOT_CONNECTED)
    }

    /// Tells whether the error reports a lost connection.
    #[verifier::when_used_as_spec(spec_is_disconnect)]
    pub fn is_disconnect(&self) -> (b: bool)
        ensures
            b == self.spec_is_disconnect(),
    {
        match self {
            ClientError::Ads(code) => *code == ERR_PORT_NOT_CONNECTED,
            _ => false,
        }
    }

    /// True for the errors after which the transport is gone: the error that
    /// reports a lost connection, and a failure of the transport itself.
    pub open spec fn spec_loses_connection(&self) -> bool {
        *self == ClientError::Ads(ERR_PORT_NOT_CONNECTED) || *self == ClientError::Transport
    }

    /// Tells whether the transport is gone after the error.
    #[verifier::when_used_as_spec(spec_loses_connection)]
    pub fn loses_connection(&self) -> (b: bool)
        ensures
            b == self.spec_loses_connection(),
    {
        match self {
            ClientError::Ads(code) => *code == ERR_PORT_NOT_CONNECTED,
            ClientError::Transport => true,
            _ => false,
        }
    }

    /// The ADS code of the error, if it is an ADS error.
    pub fn ads_code(&self) -> (code: Option<u32>)
        ensures
            code == match *self {
                ClientError::Ads(c) => Some(c),
                _ => None,
            },
    {
        match self {
            ClientError::Ads(code) => Some(*code),
            _ => None,
        }
    }
}

} // verus!
