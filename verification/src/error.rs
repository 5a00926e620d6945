//! The error type shared by the networking modules.

use vstd::prelude::*;
use crate::text::{concat_str, has_prefix};

verus! {

/// A networking error, by kind, with a message.
#[derive(Debug)]
pub enum Error {
    /// Parsing errors
    Parsing(String),
    /// Network errors
    Network(String),
    /// HTTP errors
    Http(String),
    /// Timeout errors
    Timeout(String),
    /// Connection errors
    Connection(String),
    /// Protocol errors
    Protocol(String),
    /// IO errors
    Io(std::io::Error),
    /// URL errors
    Url(String),
    /// SSL/TLS errors
    Ssl(String),
    /// DNS resolution errors
    Dns(String),
    /// Configuration errors
    Config(String),
    /// Security policy errors
    Security(String),
    /// Font and text layout errors
    Typography(String),
    /// Media playback errors
    Media(String),
}

/// Result type for networking operations.
pub type Result<T> = std::result::Result<T, Error>;

#[verifier::external_type_specification]
#[verifier::external_body]
pub struct ExIoError(std::io::Error);

impl Error {
    /// Create parsing error
    pub fn parsing(msg: String) -> (r: Self)
        ensures
            r == Error::Parsing(msg),
    {
        Error::Parsing(msg)
    }

    /// Create network error
    pub fn network(msg: String) -> (r: Self)
        ensures
            r == Error::Network(msg),
    {
        Error::Network(msg)
    }

    /// Create HTTP error
    pub fn http(msg: String) -> (r: Self)
        ensures
            r == Error::Http(msg),
    {
        Error::Http(msg)
    }

    /// Create timeout error
    pub fn timeout(msg: String) -> (r: Self)
        ensures
            r == Error::Timeout(msg),
    {
        Error::Timeout(msg)
    }

    /// Create connection error
    pub fn connection(msg: String) -> (r: Self)
        ensures
            r == Error::Connection(msg),
    {
        Error::Connection(msg)
    }

    /// Create protocol error
    pub fn protocol(msg: String) -> (r: Self)
        ensures
            r == Error::Protocol(msg),
    {
        Error::Protocol(msg)
    }

    /// Create URL error
    pub fn url(msg: String) -> (r: Self)
        ensures
            r == Error::Url(msg),
    {
        Error::Url(msg)
    }

    /// Create SSL/TLS error
    pub fn ssl(msg: String) -> (r: Self)
        ensures
            r == Error::Ssl(msg),
    {
        Error::Ssl(msg)
    }

    /// Create DNS error
    pub fn dns(msg: String) -> (r: Self)
        ensures
            r == Error::Dns(msg),
    {
        Error::Dns(msg)
    }

    /// Create configuration error
    pub fn config(msg: String) -> (r: Self)
        ensures
            r == Error::Config(msg),
    {
        Error::Config(msg)
    }

    /// Create security policy error
    pub fn security(msg: String) -> (r: Self)
        ensures
            r == Error::Security(msg),
    {
        Error::Security(msg)
    }

    /// Create typography error
    pub fn typography(msg: String) -> (r: Self)
        ensures
            r == Error::Typography(msg),
    {
        Error::Typography(msg)
    }

    /// Create media error
    pub fn media(msg: String) -> (r: Self)
        ensures
            r == Error::Media(msg),
    {
        Error::Media(msg)
    }

    /// The text of the error: its kind, a colon and its message.
    pub fn message(&self) -> (r: String)
        ensures
            match *self {
                Error::Parsing(m) => r@ == "Parsing error: "@ + m@,
                Error::Network(m) => r@ == "Network error: "@ + m@,
                Error::Http(m) => r@ == "HTTP error: "@ + m@,
                Error::Timeout(m) => r@ == "Timeout error: "@ + m@,
                Error::Connection(m) => r@ == "Connection error: "@ + m@,
                Error::Protocol(m) => r@ == "Protocol error: "@ + m@,
                Error::Io(_) => has_prefix(r@, "IO error: "@),
                Error::Url(m) => r@ == "URL error: "@ + m@,
                Error::Ssl(m) => r@ == "SSL/TLS error: "@ + m@,
                Error::Dns(m) => r@ == "DNS error: "@ + m@,
                Error::Config(m) => r@ == "Configuration error: "@ + m@,
                Error::Security(m) => r@ == "Security error: "@ + m@,
                Error::Typography(m) => r@ == "Typography error: "@ + m@,
                Error::Media(m) => r@ == "Media error: "@ + m@,
            },
    {
        match self {
            Error::Parsing(m) => concat_str("Parsing error: ", m.as_str()),
            Error::Network(m) => concat_str("Network error: ", m.as_str()),
            Error::Http(m) => concat_str("HTTP error: ", m.as_str()),
            Error::Timeout(m) => concat_str("Timeout error: ", m.as_str()),
            Error::Connection(m) => concat_str("Connection error: ", m.as_str()),
            Error::Protocol(m) => concat_str("Protocol error: ", m.as_str()),
            Error::Io(e) => {
                let detail = e.to_string();
                let r = concat_str("IO error: ", detail.as_str());
                assert(r@.subrange(0, "IO error: "@.len() as int) =~= "IO error: "@);
                r
            },
            Error::Url(m) => concat_str("URL error: ", m.as_str()),
            Error::Ssl(m) => concat_str("SSL/TLS error: ", m.as_str()),
            Error::Dns(m) => concat_str("DNS error: ", m.as_str()),
            Error::Config(m) => concat_str("Configuration error: ", m.as_str()),
            Error::Security(m) => concat_str("Security error: ", m.as_str()),
            Error::Typography(m) => concat_str("Typography error: ", m.as_str()),
            Error::Media(m) => concat_str("Media error: ", m.as_str()),
        }
    }
}

} // verus!
