//! Errors that can occur when using the library.

use vstd::prelude::*;

verus! {

/// Errors that can occur when using the library. Transport failures are
/// carried as text, captured at the boundary that performed the request.
#[derive(Debug, Clone)]
pub enum Error {
    /// HTTP request failed.
    Http(String),
    /// Authentication failed.
    Auth(String),
    /// Serialization failed.
    Serialization(String),
    /// A provider reported an error.
    Provider { provider: String, message: String },
    /// Invalid configuration.
    Config(String),
    /// Streaming failed.
    Streaming(String),
    /// Rate limit exceeded.
    RateLimit,
    /// Model not available.
    ModelNotAvailable(String),
}

/// Abstract value of an `Error`.
pub enum ErrorV {
    Http(Seq<char>),
    Auth(Seq<char>),
    Serialization(Seq<char>),
    Provider { provider: Seq<char>, message: Seq<char> },
    Config(Seq<char>),
    Streaming(Seq<char>),
    RateLimit,
    ModelNotAvailable(Seq<char>),
}

impl View for Error {
    type V = ErrorV;

    open spec fn view(&self) -> ErrorV {
        match self {
            Error::Http(s) => ErrorV::Http(s@),
            Error::Auth(s) => ErrorV::Auth(s@),
            Error::Serialization(s) => ErrorV::Serialization(s@),
            Error::Provider { provider, message } => ErrorV::Provider {
                provider: provider@,
                message: message@,
            },
            Error::Config(s) => ErrorV::Config(s@),
            Error::Streaming(s) => ErrorV::Streaming(s@),
            Error::RateLimit => ErrorV::RateLimit,
            Error::ModelNotAvailable(s) => ErrorV::ModelNotAvailable(s@),
        }
    }
}

impl DeepView for Error {
    type V = ErrorV;

    open spec fn deep_view(&self) -> ErrorV {
        self@
    }
}

/// The text that describes an error value.
pub open spec fn error_text(e: ErrorV) -> Seq<char> {
    match e {
        ErrorV::Http(s) => "HTTP request failed: "@ + s,
        ErrorV::Auth(s) => "Authentication failed: "@ + s,
        ErrorV::Serialization(s) => "Serialization error: "@ + s,
        ErrorV::Provider { provider, message } => "Provider error: "@ + provider + " - "@
            + message,
        ErrorV::Config(s) => "Invalid configuration: "@ + s,
        ErrorV::Streaming(s) => "Streaming error: "@ + s,
        ErrorV::RateLimit => "Rate limit exceeded"@,
        ErrorV::ModelNotAvailable(s) => "Model not available: "@ + s,
    }
}

impl Error {
    /// Build a provider error.
    pub fn provider(provider: &str, message: &str) -> (r: Error)
        ensures
            r@ == (ErrorV::Provider { provider: provider@, message: message@ }),
    {
        Error::Provider {
            provider: String::from_str(provider),
            message: String::from_str(message),
        }
    }

    /// Build a configuration error.
    pub fn config(message: &str) -> (r: Error)
        ensures
            r@ == ErrorV::Config(message@),
    {
        Error::Config(String::from_str(message))
    }

    /// Build an authentication error.
    pub fn auth(message: &str) -> (r: Error)
        ensures
            r@ == ErrorV::Auth(message@),
    {
        Error::Auth(String::from_str(message))
    }

    /// Build a streaming error.
    pub fn streaming(message: &str) -> (r: Error)
        ensures
            r@ == ErrorV::Streaming(message@),
    {
        Error::Streaming(String::from_str(message))
    }

    /// The text that describes this error.
    pub fn message(&self) -> (r: String)
        ensures
            r@ == error_text(self@),
    {
        match self {
            Error::Http(s) => {
                let mut r = String::from_str("HTTP request failed: ");
                r.append(s.as_str());
                r
            },
            Error::Auth(s) => {
                let mut r = String::from_str("Authentication failed: ");
                r.append(s.as_str());
                r
            },
            Error::Serialization(s) => {
                let mut r = String::from_str("Serialization error: ");
                r.append(s.as_str());
                r
            },
            Error::Provider { provider, message } => {
                let mut r = String::from_str("Provider error: ");
                r.append(provider.as_str());
                r.append(" - ");
                r.append(message.as_str());
                r
            },
            Error::Config(s) => {
                let mut r = String::from_str("Invalid configuration: ");
                r.append(s.as_str());
                r
            },
            Error::Streaming(s) => {
                let mut r = String::from_str("Streaming error: ");
                r.append(s.as_str());
                r
            },
            Error::RateLimit => String::from_str("Rate limit exceeded"),
            Error::ModelNotAvailable(s) => {
                let mut r = String::from_str("Model not available: ");
                r.append(s.as_str());
                r
            },
        }
    }
}

} // verus!
