//! Secure-channel setup for a remote node-management RPC service.
//!
//! The pieces here pin the TLS connection to one operator-supplied
//! certificate (trusted by byte-equality, not by a certificate authority)
//! and attach a hex-encoded credential to every outbound request.  File
//! reads and the network handshake themselves live with the caller; the
//! decisions they feed — address validation, certificate pinning,
//! credential encoding, request stamping — are all here, each with a
//! verified contract.

mod connect;
mod endpoint;
mod errors;
mod hexenc;
mod interceptor;
mod pinning;

pub use connect::prepare_interceptor;
pub use connect::prepare_tls;
pub use endpoint::Endpoint;
pub use endpoint::has_secure_scheme;
pub use errors::CertVerificationError;
pub use errors::ConnectError;
pub use errors::EncodingError;
pub use hexenc::encode_hex;
pub use hexenc::hex_decode;
pub use hexenc::hex_digit;
pub use hexenc::hex_of;
pub use hexenc::hex_val;
pub use hexenc::lemma_hex_round_trip;
pub use interceptor::MacaroonInterceptor;
pub use interceptor::RequestMetadata;
pub use interceptor::is_valid_metadata_char;
pub use interceptor::is_valid_metadata_value;
pub use interceptor::lemma_hex_metadata_safe;
pub use interceptor::macaroon_key;
pub use pinning::CertVerifier;
pub use pinning::lemma_verify_pinned;
pub use pinning::lemma_verify_rejects_chains;
pub use pinning::pem_certs_of;
