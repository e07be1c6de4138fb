//! Error kinds of configuration loading, export resolution and sessions.

use vstd::prelude::*;

verus! {

/// Declares `std::io::Error`, carried opaquely as the cause of I/O failures.
#[verifier::external_type_specification]
#[verifier::external_body]
pub struct ExIoError(std::io::Error);

/// Declares `toml::de::Error`, carried opaquely as the cause of a parse failure.
#[verifier::external_type_specification]
#[verifier::external_body]
pub struct ExTomlError(toml::de::Error);

/// Why a client's requested export could not be handed out.
pub enum HandshakeError {
    /// The requested name is not in the current export table.
    UnknownExport(String),
    /// The backing path could not be inspected or opened.
    Open { path: String, err: std::io::Error },
    /// The backing path reports no length and no block-device size was found
    /// for it; carries the canonical path.
    UnknownSize(String),
}

/// Failures of one client session.
pub enum NbdError {
    Io(std::io::Error),
    Disconnected,
    Handshake(HandshakeError),
}

/// Failures of loading the configuration file.
pub enum ConfigError {
    Read(std::io::Error),
    Parse(toml::de::Error),
}

/// Relies on `std::io::Error::kind`: whether the error is of kind `UnexpectedEof`.
#[verifier::external_body]
fn is_unexpected_eof(err: &std::io::Error) -> (r: bool) {
    err.kind() == std::io::ErrorKind::UnexpectedEof
}

impl NbdError {
    /// Classifies an I/O error of a session, given whether it is an unexpected
    /// end of stream: such an error means the client went away.
    pub fn classify_io(err: std::io::Error, eof: bool) -> (r: NbdError)
        ensures
            eof ==> r is Disconnected,
            !eof ==> r == NbdError::Io(err),
    {
        if eof {
            NbdError::Disconnected
        } else {
            NbdError::Io(err)
        }
    }

    /// Turns an I/O error of a session into a session error: an unexpected end
    /// of stream becomes `Disconnected`, anything else stays an I/O error.
    pub fn from_io(err: std::io::Error) -> (r: NbdError)
        ensures
            r is Disconnected || r == NbdError::Io(err),
    {
        let eof = is_unexpected_eof(&err);
        NbdError::classify_io(err, eof)
    }
}

} // verus!
