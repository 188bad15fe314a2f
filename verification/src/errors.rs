use vstd::prelude::*;

verus! {

/// Why a connection attempt failed.  Each variant is a distinct stage, so a
/// caller can branch on the cause; the strings carry the underlying report
/// for diagnostics.
#[derive(Debug, Clone, PartialEq, Eq)]
pub enum ConnectError {
    /// The certificate or credential file could not be read.
    ReadFile { file: String, cause: String },
    /// The certificate file's contents could not be parsed as PEM sections.
    ParseCert { file: String, cause: String },
    /// The certificate file held a number of certificates other than one.
    InvalidCertCount { file: String, expected: usize, actual: usize },
    /// The endpoint address is malformed or lacks the secure scheme.
    InvalidAddress { address: String, cause: String },
    /// The TLS client configuration could not be built.
    TlsConfig { cause: String },
    /// The network connection or TLS handshake failed.
    Connect { address: String, cause: String },
}

/// A handshake-time rejection decided by the pinned-certificate verifier.
#[derive(Debug, Clone, Copy, PartialEq, Eq, Structural)]
pub enum CertVerificationError {
    /// The server presented a chain whose length is not exactly one;
    /// `presented` is the number of certificates it sent.
    TooManyCertificates { presented: usize },
    /// The single presented certificate is not byte-identical to the
    /// pinned one.
    CertMismatch,
}

/// The stored credential holds a character that may not appear in a
/// request-metadata value, so it cannot be attached to a request.
#[derive(Debug, Clone, Copy, PartialEq, Eq, Structural)]
pub struct EncodingError;

} // verus!
