use vstd::prelude::*;

use crate::endpoint::Endpoint;
use crate::endpoint::has_secure_scheme;
use crate::errors::ConnectError;
use crate::hexenc::encode_hex;
use crate::hexenc::hex_of;
use crate::interceptor::MacaroonInterceptor;
use crate::pinning::CertVerifier;
use crate::pinning::pem_certs_of;

verus! {

/// The transport half of connecting, decided before any handshake: the
/// address is validated first, then the certificate file's contents pin
/// the certificate.  `cert_read` is the outcome of reading that file; a
/// failed read carries its cause.  On success the caller holds the
/// endpoint to dial and the verifier the TLS configuration must use as
/// its sole certificate check; every failure names its stage.
pub fn prepare_tls(address: String, cert_file: String, cert_read: Result<Vec<u8>, String>) -> (r:
    Result<(Endpoint, CertVerifier), ConnectError>)
    ensures
        !has_secure_scheme(address@) ==> (r matches Err(ConnectError::InvalidAddress {
            address: a,
            cause: _,
        }) && a@ == address@),
        has_secure_scheme(address@) ==> match cert_read {
            Err(cause) => r matches Err(ConnectError::ReadFile { file: f, cause: c }) && f@
                == cert_file@ && c@ == cause@,
            Ok(contents) => match pem_certs_of(contents@) {
                Some(certs) => {
                    if certs.len() == 1 {
                        r matches Ok((e, v)) && e.uri_spec() == address@ && v.pinned() == certs[0]
                    } else {
                        r matches Err(ConnectError::InvalidCertCount {
                            file: f,
                            expected,
                            actual,
                        }) && f@ == cert_file@ && expected == 1 && actual == certs.len()
                    }
                },
                None => r matches Err(ConnectError::ParseCert { file: f, cause: _ }) && f@
                    == cert_file@,
            },
        },
{
    let endpoint = match Endpoint::parse(address) {
        Ok(endpoint) => endpoint,
        Err(error) => {
            return Err(error);
        },
    };
    let contents = match cert_read {
        Ok(contents) => contents,
        Err(cause) => {
            return Err(ConnectError::ReadFile { file: cert_file, cause });
        },
    };
    let cert_verifier = match CertVerifier::load_from_pem(cert_file, &contents) {
        Ok(cert_verifier) => cert_verifier,
        Err(error) => {
            return Err(error);
        },
    };
    Ok((endpoint, cert_verifier))
}

/// The credential half of connecting, independent of the transport half:
/// the credential file's bytes become a hex-encoded credential held by an
/// interceptor ready to stamp every call.  `macaroon_read` is the outcome
/// of reading that file; a failed read carries its cause.
pub fn prepare_interceptor(macaroon_file: String, macaroon_read: Result<Vec<u8>, String>) -> (r:
    Result<MacaroonInterceptor, ConnectError>)
    ensures
        match macaroon_read {
            Err(cause) => r matches Err(ConnectError::ReadFile { file: f, cause: c }) && f@
                == macaroon_file@ && c@ == cause@,
            Ok(bytes) => r matches Ok(i) && i.macaroon_spec() == hex_of(bytes@),
        },
{
    let bytes = match macaroon_read {
        Ok(bytes) => bytes,
        Err(cause) => {
            return Err(ConnectError::ReadFile { file: macaroon_file, cause });
        },
    };
    let macaroon = encode_hex(&bytes);
    Ok(MacaroonInterceptor::new(macaroon))
}

} // verus!
