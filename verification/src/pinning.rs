use vstd::prelude::*;

use crate::errors::CertVerificationError;
use crate::errors::ConnectError;

verus! {

/// What `rustls_pemfile::certs` extracts from a byte buffer: the
/// DER contents of each certificate section, in file order, or nothing
/// when the buffer is not well-formed PEM.  The extraction reads the
/// buffer alone, so it is a function of the bytes.
pub uninterp spec fn pem_certs_of(bytes: Seq<u8>) -> Option<Seq<Seq<u8>>>;

/// Relies on `rustls_pemfile::certs`: it walks the buffer's PEM sections
/// and returns the DER bytes of every certificate section (possibly
/// none), or an error when a section is malformed (a bad base64 body, a
/// section end without its begin).
#[verifier::external_body]
fn parse_pem_certs(contents: &Vec<u8>) -> (r: Result<Vec<Vec<u8>>, String>)
    ensures
        match r {
            Ok(certs) => pem_certs_of(contents@) == Some(certs.deep_view()),
            Err(_) => pem_certs_of(contents@) is None,
        },
{
    let mut reader: &[u8] = contents.as_slice();
    match rustls_pemfile::certs(&mut reader) {
        Ok(certs) => Ok(certs),
        Err(error) => Err(format!("{}", error)),
    }
}

/// Whether two byte vectors hold the same bytes.
fn bytes_eq(a: &Vec<u8>, b: &Vec<u8>) -> (r: bool)
    ensures
        r == (a@ == b@),
{
    if a.len() != b.len() {
        return false;
    }
    let mut i: usize = 0;
    while i < a.len()
        invariant
            i <= a.len(),
            a.len() == b.len(),
            forall|j: int| 0 <= j < i ==> a@[j] == b@[j],
        decreases a.len() - i,
    {
        if a[i] != b[i] {
            return false;
        }
        i += 1;
    }
    proof {
        assert(a@ =~= b@);
    }
    true
}

/// Pins the TLS connection to one exact DER certificate.  During every
/// handshake the server's certificate is accepted only if it is
/// byte-identical to the pinned one: no authority chain, hostname, expiry
/// or revocation check stands in for out-of-band distribution of the
/// right certificate file.
#[derive(Debug)]
pub struct CertVerifier {
    cert: Vec<u8>,
}

impl CertVerifier {
    /// The DER bytes of the pinned certificate.
    pub closed spec fn pinned(&self) -> Seq<u8> {
        self.cert@
    }

    /// The decision the verifier makes for a presented chain: reject any
    /// chain length other than one, then reject a certificate that is not
    /// byte-identical to the pinned one.
    pub open spec fn verify_outcome(pinned: Seq<u8>, presented: Seq<Seq<u8>>) -> Result<
        (),
        CertVerificationError,
    > {
        if presented.len() != 1 {
            Err(CertVerificationError::TooManyCertificates { presented: presented.len() as usize })
        } else if presented[0] != pinned {
            Err(CertVerificationError::CertMismatch)
        } else {
            Ok(())
        }
    }

    /// Builds a verifier from the contents of a certificate file.
    /// Succeeds exactly when the bytes parse as PEM and hold exactly one
    /// certificate section, which becomes the pinned certificate; a parse
    /// failure is `ParseCert` and any other section count `n` is
    /// `InvalidCertCount` carrying `n`.  `file` names the source file in
    /// either error.
    pub fn load_from_pem(file: String, contents: &Vec<u8>) -> (r: Result<Self, ConnectError>)
        ensures
            match pem_certs_of(contents@) {
                Some(certs) => {
                    if certs.len() == 1 {
                        r matches Ok(v) && v.pinned() == certs[0]
                    } else {
                        r matches Err(ConnectError::InvalidCertCount {
                            file: f,
                            expected,
                            actual,
                        }) && f@ == file@ && expected == 1 && actual == certs.len()
                    }
                },
                None => r matches Err(ConnectError::ParseCert { file: f, cause: _ }) && f@
                    == file@,
            },
    {
        let mut certs = match parse_pem_certs(contents) {
            Ok(certs) => certs,
            Err(cause) => {
                return Err(ConnectError::ParseCert { file, cause });
            },
        };
        if certs.len() != 1 {
            return Err(
                ConnectError::InvalidCertCount { file, expected: 1, actual: certs.len() },
            );
        }
        let cert = certs.remove(0);
        Ok(CertVerifier { cert })
    }

    /// The handshake check: accepts exactly a one-certificate chain whose
    /// certificate is byte-identical to the pinned one, as
    /// `verify_outcome` states.
    pub fn verify_server_cert(&self, presented: &Vec<Vec<u8>>) -> (r: Result<
        (),
        CertVerificationError,
    >)
        ensures
            r == Self::verify_outcome(self.pinned(), presented.deep_view()),
    {
        if presented.len() != 1 {
            return Err(CertVerificationError::TooManyCertificates { presented: presented.len() });
        }
        let same = bytes_eq(&presented[0], &self.cert);
        proof {
            assert(presented.deep_view()[0] == presented@[0]@);
        }
        if !same {
            return Err(CertVerificationError::CertMismatch);
        }
        Ok(())
    }

    /// The pinned certificate's bytes.
    pub fn pinned_der(&self) -> (r: &Vec<u8>)
        ensures
            r@ == self.pinned(),
    {
        &self.cert
    }
}

/// A verifier pinned to `pinned` accepts a handshake presenting exactly
/// that certificate, and rejects one presenting any other single
/// certificate.
pub proof fn lemma_verify_pinned(pinned: Seq<u8>, presented: Seq<u8>)
    ensures
        CertVerifier::verify_outcome(pinned, seq![pinned]) == Ok::<(), CertVerificationError>(()),
        presented != pinned ==> CertVerifier::verify_outcome(pinned, seq![presented]) == Err::<
            (),
            CertVerificationError,
        >(CertVerificationError::CertMismatch),
{
}

/// A handshake presenting a chain of any length other than one is
/// rejected outright, whatever the certificates hold.
pub proof fn lemma_verify_rejects_chains(pinned: Seq<u8>, presented: Seq<Seq<u8>>)
    requires
        presented.len() != 1,
    ensures
        CertVerifier::verify_outcome(pinned, presented) == Err::<(), CertVerificationError>(
            CertVerificationError::TooManyCertificates { presented: presented.len() as usize },
        ),
{
}

} // verus!
